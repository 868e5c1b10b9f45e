use sylva::details::{extension_of, format_size, format_time_utc, type_label};
use sylva::model::ItemKind;

#[test]
fn type_label_covers_common_kinds() {
    assert_eq!(type_label(ItemKind::Folder, "文档"), "文件夹");
    assert_eq!(type_label(ItemKind::App, "chrome"), "应用程序");
    assert_eq!(type_label(ItemKind::Link, "wechat"), "快捷方式");
    assert_eq!(type_label(ItemKind::Doc, "report.pdf"), "PDF 文档");
    assert_eq!(type_label(ItemKind::Doc, "notes.txt"), "文本文档");
    assert_eq!(type_label(ItemKind::Doc, "a.xlsx"), "Excel 工作表");
    assert_eq!(type_label(ItemKind::Doc, "b.png"), "图片");
    assert_eq!(type_label(ItemKind::Doc, "c.mp4"), "视频");
    assert_eq!(type_label(ItemKind::Doc, "d.zip"), "压缩文件");
    assert_eq!(type_label(ItemKind::Doc, "e.mystery"), "MYSTERY 文件");
    assert_eq!(type_label(ItemKind::Doc, "noext"), "文件");
    assert_eq!(type_label(ItemKind::Unknown, "?"), "文件");
}

#[test]
fn type_labels_of_every_group() {
    assert_eq!(type_label(ItemKind::Drive, "C:"), "驱动器");
    for name in ["a.doc", "a.DOCX"] {
        assert_eq!(type_label(ItemKind::Doc, name), "Word 文档");
    }
    for name in ["a.ppt", "a.pptx"] {
        assert_eq!(type_label(ItemKind::Doc, name), "PowerPoint 演示文稿");
    }
    for ext in ["jpg", "jpeg", "png", "gif", "bmp", "webp", "ico"] {
        assert_eq!(type_label(ItemKind::Doc, &format!("x.{ext}")), "图片");
    }
    for ext in ["mp3", "wav", "flac", "aac", "ogg", "m4a"] {
        assert_eq!(type_label(ItemKind::Doc, &format!("x.{ext}")), "音频");
    }
    for ext in ["mp4", "mkv", "avi", "mov", "wmv", "flv"] {
        assert_eq!(type_label(ItemKind::Doc, &format!("x.{ext}")), "视频");
    }
    for ext in ["zip", "rar", "7z", "tar", "gz"] {
        assert_eq!(type_label(ItemKind::Doc, &format!("x.{ext}")), "压缩文件");
    }
    assert_eq!(type_label(ItemKind::Doc, "trailing."), "文件");
}

#[test]
fn extension_detection() {
    assert_eq!(extension_of("a.txt"), Some("txt".into()));
    assert_eq!(extension_of(r"C:\x\y.Report.PDF"), Some("pdf".into()));
    assert_eq!(extension_of("noext"), None);
    assert_eq!(extension_of(".hidden"), None);
}

#[test]
fn extension_looks_at_the_last_component_only() {
    assert_eq!(extension_of("a.b/c"), None);
    assert_eq!(extension_of("a.b/c.D"), Some("d".into()));
    assert_eq!(extension_of("end."), Some("".into()));
    assert_eq!(extension_of("图.ÄB"), Some("Äb".into()));
}

#[test]
fn size_formatting() {
    assert_eq!(format_size(Some(512)), "512 B");
    assert_eq!(format_size(Some(1536)), "1.5 KB");
    assert_eq!(format_size(Some(1024 * 1024)), "1.0 MB");
    assert_eq!(format_size(Some(3 * 1024 * 1024)), "3.0 MB");
    assert_eq!(format_size(None), "—");
}

fn by_floating_point(b: u64) -> String {
    if b < 1024 {
        return format!("{b} B");
    }
    let units = ["KB", "MB", "GB", "TB", "PB"];
    let mut v = b as f64 / 1024.0;
    for (i, u) in units.iter().enumerate() {
        if v < 1024.0 || i == 4 {
            return if v >= 100.0 { format!("{v:.0} {u}") } else { format!("{v:.1} {u}") };
        }
        v /= 1024.0;
    }
    unreachable!()
}

#[test]
fn sizes_agree_with_floating_point() {
    let mut samples: Vec<u64> = vec![0, 1, 1023, 1024, 1025, u64::MAX, u64::MAX - 1, 1 << 63, (1 << 63) - 1];
    for shift in 0..64u32 {
        let base = 1u64 << shift;
        for off in 0..40u64 {
            samples.push(base.wrapping_add(off));
            samples.push(base.wrapping_sub(off));
            samples.push(base.wrapping_add(base / 2).wrapping_add(off));
        }
    }
    let mut x: u64 = 0x9e37_79b9_7f4a_7c15;
    for i in 0..200_000u64 {
        x ^= x << 13;
        x ^= x >> 7;
        x ^= x << 17;
        samples.push(x >> (i % 60));
    }
    for k in 0..5000u64 {
        // halves and quarters of a tenth, where rounding decides
        samples.push(k * 512 / 10 * 2);
        samples.push(1024 * k + 512);
        samples.push(1024 * k + 256);
        samples.push(1024 * 1024 * k + 1024 * 256);
    }
    for b in samples {
        assert_eq!(format_size(Some(b)), by_floating_point(b), "{b}");
    }
}

#[test]
fn time_formatting_utc() {
    assert_eq!(format_time_utc(0), "1970-01-01 00:00");
    // 2000-01-01 01:04:05 UTC（946_684_800 = 2000-01-01 00:00）
    assert_eq!(format_time_utc(946_688_645), "2000-01-01 01:04");
    // 2026-08-14 12:00 UTC
    assert_eq!(format_time_utc(1_786_708_800), "2026-08-14 12:00");
    // 负值（1970 前）不 panic
    assert_eq!(format_time_utc(-1), "1969-12-31 23:59");
}

#[test]
fn time_formatting_of_leap_days_and_far_years() {
    assert_eq!(format_time_utc(951_782_400), "2000-02-29 00:00");
    assert_eq!(format_time_utc(4_107_542_399), "2100-02-28 23:59");
    assert_eq!(format_time_utc(4_107_542_400), "2100-03-01 00:00");
    assert_eq!(format_time_utc(-62_167_219_200), "0000-01-01 00:00");
    assert_eq!(format_time_utc(-62_167_219_201), "-001-12-31 23:59");
    assert_eq!(format_time_utc(i64::MAX), "292277026596-12-04 15:30");
    assert_eq!(format_time_utc(i64::MIN), "-292277022657-01-27 08:29");
}
