use sylva::base64::base64_encode;
use sylva::bus::{AppEvent, CoreEvent, EventBus, BUS_CAPACITY};
use sylva::desktop::{probe, DesktopHierarchy};
use sylva::icons::{
    after_failure, copy_rows, hbitmap_to_icon_data, Bitmap, BitmapFault, IconCache, IconData, Retry, E_FAIL, E_NO_BITS,
    E_PENDING,
};
use sylva::items::{
    enrich, item_id, kind_from, should_mirror, DesktopItem, FileMeta, INVALID_FILE_ATTRIBUTES, SFGAO_FOLDER, SFGAO_LINK,
};
use sylva::local_time::{filetime_of, filetime_to_unix, format_local, format_modified, FileTime};
use sylva::model::{Icon, ItemKind};
use sylva::startup::{first_pictures, path_to_prime};
use sylva::wide::{decode, decode_until_nul, encode, wide};

fn make_bgra_rows(rows: &[u8]) -> Vec<u8> {
    let mut v = Vec::new();
    for &tag in rows {
        v.extend_from_slice(&[tag, 0, 0, 255]);
    }
    v
}

#[test]
fn bottom_up_rows_are_flipped() {
    let src = make_bgra_rows(&[2, 1, 0]);
    let mut out = vec![0u8; 12];
    copy_rows(1, 3, 4, &src, true, &mut out);
    assert_eq!(make_bgra_rows(&[0, 1, 2]), out);
}

#[test]
fn top_down_rows_keep_order() {
    let src = make_bgra_rows(&[0, 1, 2]);
    let mut out = vec![0u8; 12];
    copy_rows(1, 3, 4, &src, false, &mut out);
    assert_eq!(src, out);
}

#[test]
fn padded_stride_is_respected() {
    let src = make_bgra_rows(&[2, 1, 0]);
    let mut padded = Vec::new();
    for chunk in src.chunks(4) {
        padded.extend_from_slice(chunk);
        padded.extend_from_slice(&[99, 99, 99, 99]);
    }
    let mut out = vec![0u8; 12];
    copy_rows(1, 3, 8, &padded, true, &mut out);
    assert_eq!(make_bgra_rows(&[0, 1, 2]), out);
}

#[test]
fn copying_no_rows_changes_nothing() {
    let mut out = vec![7u8; 4];
    copy_rows(0, 5, 0, &Vec::new(), true, &mut out);
    copy_rows(5, 0, 20, &Vec::new(), false, &mut out);
    assert_eq!(out, vec![7u8; 4]);
}

fn bitmap(height: i32) -> Bitmap {
    Bitmap { width: 1, height, width_bytes: 4, bits_pixel: 32, bits: Some(make_bgra_rows(&[2, 1])) }
}

#[test]
fn bitmaps_are_read_or_refused() {
    let up = hbitmap_to_icon_data(&Some(bitmap(2))).unwrap();
    assert_eq!((up.width, up.height, up.stride()), (1, 2, 4));
    assert_eq!(up.pixels, make_bgra_rows(&[1, 2]));
    let down = hbitmap_to_icon_data(&Some(bitmap(-2))).unwrap();
    assert_eq!(down.pixels, make_bgra_rows(&[2, 1]));
    assert_eq!(hbitmap_to_icon_data(&None), Err(BitmapFault::BadFormat));
    assert_eq!(hbitmap_to_icon_data(&Some(Bitmap { bits: None, ..bitmap(2) })), Err(BitmapFault::NoBits));
    assert_eq!(hbitmap_to_icon_data(&Some(Bitmap { bits_pixel: 24, ..bitmap(2) })), Err(BitmapFault::BadFormat));
    assert_eq!(BitmapFault::NoBits.code(), E_NO_BITS);
    assert_eq!(BitmapFault::BadFormat.code() as u32, 0x8007_0057);
    assert_eq!(E_NO_BITS as u32, 0x8000_4003);
}

#[test]
fn pictures_that_are_not_ready_are_asked_for_again() {
    assert_eq!(E_PENDING as u32, 0x8000_000A);
    assert_eq!(E_FAIL as u32, 0x8000_4005);
    let waits: Vec<Retry> = (0..6).map(|n| after_failure(n, E_PENDING)).collect();
    assert_eq!(
        waits,
        vec![
            Retry::After(50),
            Retry::After(100),
            Retry::After(200),
            Retry::After(400),
            Retry::After(800),
            Retry::GiveUp,
        ]
    );
    assert_eq!(after_failure(0, E_FAIL), Retry::After(50));
    assert_eq!(after_failure(0, E_NO_BITS), Retry::GiveUp);
    assert_eq!(after_failure(u32::MAX, E_PENDING), Retry::GiveUp);
}

fn icon_dummy(tag: u8) -> IconData {
    IconData { width: 1, height: 1, pixels: vec![tag, 0, 0, 255] }
}

#[test]
fn cache_evicts_least_recently_used() {
    let mut cache = IconCache::new(2);
    cache.insert("a".into(), icon_dummy(1));
    cache.insert("b".into(), icon_dummy(2));
    assert!(cache.get("a").is_some());
    cache.insert("c".into(), icon_dummy(3));
    assert!(cache.get("b").is_none());
    assert!(cache.get("a").is_some());
    assert!(cache.get("c").is_some());
}

#[test]
fn cache_get_refreshes_recency() {
    let mut cache = IconCache::new(2);
    cache.insert("a".into(), icon_dummy(1));
    cache.insert("b".into(), icon_dummy(2));
    cache.get("b");
    cache.insert("c".into(), icon_dummy(3));
    assert!(cache.get("a").is_none());
    assert!(cache.get("b").is_some());
    assert_eq!(cache.len(), 2);
}

#[test]
fn cache_replaces_a_picture_in_its_place() {
    let mut cache = IconCache::new(0);
    assert!(cache.is_empty());
    cache.insert("a".into(), icon_dummy(1));
    cache.insert("a".into(), icon_dummy(9));
    assert_eq!(cache.len(), 1);
    assert_eq!(cache.get("a"), Some(&icon_dummy(9)));
    cache.insert("b".into(), icon_dummy(2));
    assert_eq!(cache.len(), 1);
    assert!(cache.get("a").is_none());
}

#[test]
fn classify_by_extension() {
    assert_eq!(kind_from(0, false, Some(r"C:\Program Files\a.exe"), false), ItemKind::App);
    assert_eq!(kind_from(0, false, Some(r"C:\docs\a.txt"), false), ItemKind::Doc);
    assert_eq!(kind_from(0, false, Some(r"C:\docs\a.lnk"), false), ItemKind::Link);
    assert_eq!(kind_from(0, false, None, false), ItemKind::Unknown);
    assert_eq!(kind_from(0, false, Some(r"C:\docs"), true), ItemKind::Folder);
    assert_eq!(kind_from(0, false, Some(r"C:\docs\a.URL"), false), ItemKind::App);
}

#[test]
fn shell_attributes_take_precedence() {
    assert_eq!(kind_from(SFGAO_FOLDER, true, Some(r"C:\a.exe"), false), ItemKind::Folder);
    assert_eq!(kind_from(SFGAO_LINK, true, Some(r"C:\a.txt"), false), ItemKind::Link);
    assert_eq!(kind_from(SFGAO_FOLDER, false, Some(r"C:\a.exe"), false), ItemKind::App);
}

#[test]
fn item_id_prefers_lowercase_path() {
    assert_eq!(item_id(Some(r"C:\Docs\A.Exe"), "A"), "c:\\docs\\a.exe");
    assert_eq!(item_id(None, "回收站"), "shell:回收站");
}

#[test]
fn hidden_files_are_not_mirrored() {
    assert!(should_mirror(0x20));
    assert!(!should_mirror(0x22));
    assert!(!should_mirror(0x24));
    assert!(!should_mirror(INVALID_FILE_ATTRIBUTES));
}

#[test]
fn enrich_fills_details_from_real_file() {
    let mut icon = Icon::new(
        "sylva_details_test.bin".into(),
        "sylva_details_test.bin".into(),
        ItemKind::Doc,
    );
    let meta = FileMeta { is_file: true, is_dir: false, len: 5, dated: true, modified: Some(1_786_708_800) };
    enrich(&mut icon, Some(meta));
    assert_eq!(icon.type_label, "BIN 文件");
    assert_eq!(icon.size_bytes, Some(5));
    assert!(icon.modified_secs.is_some());
}

#[test]
fn filetime_roundtrip_unix() {
    let unix = 946_688_645_i64;
    let ft = filetime_of(unix);
    assert_eq!(filetime_to_unix(&ft), unix);
    let raw = ((unix + 11_644_473_600) * 10_000_000) as u64;
    assert_eq!(filetime_to_unix(&FileTime { low: raw as u32, high: (raw >> 32) as u32 }), unix);
}

#[test]
fn times_are_shown_in_local_time_where_it_is_known() {
    let east = filetime_of(946_688_645 + 8 * 3600);
    assert_eq!(format_local(946_688_645, Some(east)), "2000-01-01 09:04");
    assert_eq!(format_local(946_688_645, None), "2000-01-01 01:04");
    assert_eq!(format_modified(None, None), "");
    assert_eq!(format_modified(Some(946_688_645), None), "2000-01-01 01:04");
}

#[test]
fn wide_terminates_with_nul() {
    let w = wide("Fence");
    assert_eq!(w, vec![b'F' as u16, b'e' as u16, b'n' as u16, b'c' as u16, b'e' as u16, 0]);
}

#[test]
fn wide_conversion_roundtrip() {
    assert_eq!(decode_until_nul(&wide("Progman")), "Progman");
    assert_eq!(decode_until_nul(&wide("SHELLDLL_DefView")), "SHELLDLL_DefView");
}

#[test]
fn wide_text_keeps_all_characters() {
    let s = "a栅😀z";
    let u = encode(s);
    assert_eq!(u.len(), 5);
    assert_eq!(decode(&u, 0, u.len()), s);
    assert_eq!(decode(&vec![0xD83D, 0x41], 0, 2), "\u{FFFD}A");
}

#[test]
fn probe_compiles_and_is_consistent() {
    assert_eq!(probe(None, Some(1), None, None, None), None);
    assert_eq!(probe(Some(0), Some(1), None, None, None), None);
    let h = probe(Some(9), Some(5), Some(6), Some(7), Some(8)).unwrap();
    assert_eq!(h, DesktopHierarchy { progman: 9, worker: Some(7), def_view: Some(5), list_view: Some(8) });
    let inner = probe(Some(9), Some(0), Some(6), Some(0), Some(0)).unwrap();
    assert_eq!(inner, DesktopHierarchy { progman: 9, worker: None, def_view: Some(6), list_view: None });
    let bare = probe(Some(9), None, None, Some(7), Some(8)).unwrap();
    assert_eq!(bare, DesktopHierarchy { progman: 9, worker: None, def_view: None, list_view: None });
}

#[test]
fn overlay_belongs_under_the_icon_view() {
    let h = DesktopHierarchy { progman: 9, worker: Some(7), def_view: Some(5), list_view: Some(8) };
    assert_eq!(h.overlay_parent(), 7);
    assert_eq!(h.hide_icons(), Some(8));
    assert_eq!(h.restore_icons(), Some(8));
    assert_eq!(DesktopHierarchy { worker: None, ..h }.overlay_parent(), 5);
    let bare = DesktopHierarchy { worker: None, def_view: None, list_view: Some(0), ..h };
    assert_eq!(bare.overlay_parent(), 9);
    assert_eq!(bare.hide_icons(), None);
}

#[test]
fn bus_publishes_and_receives() {
    let bus = EventBus::new();
    bus.publish(AppEvent::Shutdown);
    assert_eq!(bus.rx().recv(), Ok(AppEvent::Shutdown));
}

#[test]
fn bus_keeps_order_and_drops_what_is_too_much() {
    let bus = EventBus::default();
    for id in 0..BUS_CAPACITY as u64 {
        assert_eq!(bus.publish(AppEvent::Core(CoreEvent::FenceCreated { id })), None);
    }
    assert_eq!(bus.publish(AppEvent::Shutdown), Some(AppEvent::Shutdown));
    assert_eq!(bus.rx().recv(), Ok(AppEvent::Core(CoreEvent::FenceCreated { id: 0 })));
    // Another sender reaches the same receiver, and the same bound holds.
    let other = bus.tx();
    assert_eq!(other.capacity(), Some(BUS_CAPACITY));
    assert!(other.try_send(AppEvent::Shutdown).is_ok());
    assert!(other.try_send(AppEvent::Shutdown).is_err());
    assert_eq!(bus.rx().len(), BUS_CAPACITY);
}

#[test]
fn bytes_as_letters() {
    let e = |s: &str| base64_encode(&s.as_bytes().to_vec());
    assert_eq!(e(""), "");
    assert_eq!(e("f"), "Zg==");
    assert_eq!(e("fo"), "Zm8=");
    assert_eq!(e("foo"), "Zm9v");
    assert_eq!(e("foobar"), "Zm9vYmFy");
    assert_eq!(base64_encode(&vec![0xFB, 0xEF, 0xFF]), "++//");
}

fn item(id: &str) -> DesktopItem {
    DesktopItem { id: id.into(), display_name: id.into(), kind: ItemKind::Doc, path: Some(id.into()) }
}

#[test]
fn pictures_that_were_had_get_numbers() {
    let items = vec![item("a"), item("b"), item("a"), item("c")];
    let p = first_pictures(&items, &vec![true, false, true, true]);
    let of = |id: &str| p.iter().find(|e| e.0 == id).map(|e| e.1);
    assert_eq!(of("a"), Some(2));
    assert_eq!(of("b"), None);
    assert_eq!(of("c"), Some(3));
}

#[test]
fn last_path_of_a_kind_makes_its_menu_ready() {
    let paths: Vec<String> = vec!["C:\\a.TXT".into(), "C:\\b.lnk".into(), "C:\\c.txt".into(), "C:\\d".into()];
    let dirs = vec![false, false, false, true];
    assert_eq!(path_to_prime(&paths, &dirs, ".txt"), Some(2));
    assert_eq!(path_to_prime(&paths, &dirs, ".lnk"), Some(1));
    assert_eq!(path_to_prime(&paths, &dirs, "\u{0}folder"), Some(3));
    assert_eq!(path_to_prime(&paths, &dirs, "\u{0}file"), None);
}
