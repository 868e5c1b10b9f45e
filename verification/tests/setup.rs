use sylva::config::AppSettings;
use sylva::model::{Desk, Fence, FenceAppearance, FenceState, Icon, ItemKind, Rect};
use sylva::paths::file_name_of;
use sylva::setup::{
    chosen_dest, command, default_path, dl, encode_command, install_location, is_muted, names_program, normalize_dest,
    on_failure, relayout, run_install, run_uninstall, stays, Control, Mode, SetupCommand, Slot, Step, ID_BTN_BROWSE,
    ID_BTN_CANCEL, ID_BTN_INSTALL,
};
use sylva::store::{data_dir, moves_old_data, old_data_dir, ConfigStore, CoreError, StoredDesk};

#[test]
fn program_gets_a_directory_of_its_own() {
    assert_eq!(normalize_dest("D:\\Program Files"), "D:\\Program Files\\sylva");
    assert_eq!(normalize_dest("D:\\Tools\\Sylva"), "D:\\Tools\\Sylva");
    assert_eq!(normalize_dest("D:\\Tools\\SYLVA\\"), "D:\\Tools\\SYLVA\\");
    assert_eq!(normalize_dest("D:\\"), "D:\\sylva");
    assert_eq!(default_path("C:\\L"), "C:\\L\\Programs\\Sylva");
    assert_eq!(chosen_dest("  ", "C:\\L\\Programs\\Sylva"), "C:\\L\\Programs\\Sylva");
    assert_eq!(chosen_dest(" E:\\x ", "C:\\L"), "E:\\x\\sylva");
}

#[test]
fn lengths_grow_with_the_screen() {
    assert_eq!(dl::<i64>(640, 96), 640);
    assert_eq!(dl::<i64>(640, 192), 1280);
    assert_eq!(dl::<i64>(24, 144), 36);
}

#[test]
fn buttons_stand_in_the_corner() {
    let v = relayout::<i64>(640, 524, 96);
    assert_eq!(v.len(), 12);
    assert_eq!(v[0], Slot { control: Control::Title, x: 84, y: 20, w: 532, h: 36 });
    assert_eq!(v[10], Slot { control: Control::Cancel, x: 520, y: 464, w: 96, h: 36 });
    assert_eq!(v[11], Slot { control: Control::Install, x: 412, y: 464, w: 96, h: 36 });
    assert!(is_muted(Control::Status) && !is_muted(Control::Title));
}

#[test]
fn buttons_do_nothing_while_busy() {
    assert_eq!(command(Mode::Install, ID_BTN_INSTALL, false), Some(SetupCommand::Install));
    assert_eq!(command(Mode::Uninstall, ID_BTN_INSTALL, false), Some(SetupCommand::Uninstall));
    assert_eq!(command(Mode::Install, ID_BTN_BROWSE, false), Some(SetupCommand::Browse));
    assert_eq!(command(Mode::Uninstall, ID_BTN_BROWSE, false), None);
    assert_eq!(command(Mode::Uninstall, ID_BTN_CANCEL, false), Some(SetupCommand::Close));
    assert_eq!(command(Mode::Install, ID_BTN_INSTALL, true), None);
    assert_eq!(command(Mode::Install, 7, false), None);
}

#[test]
fn scripts_are_encoded() {
    assert_eq!(encode_command("hi"), "aABpAA==");
    assert_eq!(encode_command("栅"), "BWg=");
}

#[test]
fn installing_in_order() {
    let v = run_install("D:\\sylva", true);
    assert_eq!(v.len(), 23);
    assert_eq!(v[2], Step::MakeHome("D:\\sylva".to_string()));
    assert_eq!(v[3], Step::WriteProgram("D:\\sylva\\sylva.exe".to_string()));
    assert_eq!(v[5], Step::MakeData("D:\\sylva\\data".to_string()));
    assert_eq!(
        v[10],
        Step::RegAdd(
            "HKCU\\Software\\Microsoft\\Windows\\CurrentVersion\\Run".to_string(),
            "Sylva".to_string(),
            "\"D:\\sylva\\sylva.exe\"".to_string(),
        )
    );
    assert!(v.iter().any(|s| matches!(s, Step::RegAdd(_, n, d)
        if n == "UninstallString" && d == "\"D:\\sylva\\uninstall.exe\" --uninstall")));
    assert_eq!(v[22], Step::Progress(100));
    assert_eq!(run_install("D:\\sylva", false).len(), 22);
}

#[test]
fn removing_in_order() {
    let dest = Some("D:\\sylva".to_string());
    let v = run_uninstall(&dest, &Some("C:\\Desk".to_string()), &Some("C:\\Me".to_string()), 42);
    assert_eq!(v[2], Step::CheckStopped);
    assert_eq!(v[12], Step::RemoveFile("C:\\Desk\\Sylva.lnk".to_string()));
    assert_eq!(v[13], Step::RemoveFile("C:\\Me\\Desktop\\Sylva.lnk".to_string()));
    let gone = v.iter().position(|s| matches!(s, Step::CheckGone(_))).unwrap();
    let clean = v.iter().position(|s| matches!(s, Step::Cleanup(_))).unwrap();
    assert_eq!(clean, gone + 2);
    assert_eq!(v.last(), Some(&Step::Pause(900)));
    let bare = run_uninstall(&None, &None, &None, 42);
    assert!(!bare.iter().any(|s| matches!(s, Step::ClearDir(_) | Step::Cleanup(_) | Step::RemoveFile(_))));
}

#[test]
fn failures_are_told() {
    let told = on_failure(&Step::MakeHome("D:\\x".to_string()), "denied").unwrap();
    assert_eq!(told[0], Step::Status("安装失败".to_string()));
    assert_eq!(
        told[1],
        Step::Tell("Sylva 安装".to_string(), "无法创建安装目录：\nD:\\x\n\n（denied）".to_string(), true)
    );
    assert_eq!(
        on_failure(&Step::WriteProgram("p".to_string()), "e").unwrap()[1],
        Step::Tell("Sylva 安装".to_string(), "写入主程序失败：\np（e）".to_string(), true)
    );
    assert_eq!(
        on_failure(&Step::MakeData("p".to_string()), "e").unwrap()[1],
        Step::Tell("Sylva 安装".to_string(), "无法创建数据目录：\np（e）".to_string(), true)
    );
    assert_eq!(on_failure(&Step::Shortcuts("s".to_string()), "e").unwrap().len(), 2);
    assert!(matches!(on_failure(&Step::CheckStopped, "").unwrap()[1], Step::Tell(_, _, false)));
    assert_eq!(on_failure(&Step::CheckGone("d".to_string()), "").unwrap()[0], Step::Progress(100));
    assert_eq!(on_failure(&Step::RemoveFile("f".to_string()), "e"), None);
}

#[test]
fn running_program_is_found_in_a_list() {
    assert!(names_program("Image Name\r\nSYLVA.EXE   1234 Console"));
    assert!(!names_program("INFO: No tasks are running"));
    assert!(stays("Uninstall.EXE") && !stays("sylva.exe"));
}

#[test]
fn registry_tells_where_the_program_is() {
    let text = "\r\nHKEY_CURRENT_USER\\Software\\Sylva\r\n    InstallLocation    REG_SZ    D:\\Program Files\\sylva\r\n\r\n";
    assert_eq!(install_location(text), Some("D:\\Program Files\\sylva".to_string()));
    assert_eq!(install_location("    InstallLocation    REG_SZ    \r\n"), None);
    assert_eq!(install_location("    InstallLocation    REG_DWORD    1"), None);
    assert_eq!(install_location("ERROR"), None);
}

fn desk() -> Desk<i64> {
    Desk::new(AppSettings::default())
}

#[test]
fn load_returns_default_when_missing() {
    let store = ConfigStore::new("C:\\data".to_string());
    let desk = store.load::<i64>(StoredDesk::Missing).unwrap();
    assert!(desk.fences.is_empty());
}

#[test]
fn kept_desk_is_loaded_in_order() {
    let store = ConfigStore::new("C:\\data".to_string());
    let mut d = desk();
    d.icons.insert("a".into(), Icon::new("a".into(), "a".into(), ItemKind::Doc));
    d.fences.push(Fence {
        id: 1,
        title: Some("工作".into()),
        monitor_id: 0,
        bounds: Rect::new(0, 0, 300, 200),
        state: FenceState::Expanded,
        icon_ids: vec!["a".into(), "ghost".into()],
        appearance: FenceAppearance::default(),
        scroll: 0,
        storage_path: None,
        sidebar_collapsed: false,
    });
    let loaded = store.load(StoredDesk::Read(d)).unwrap();
    assert_eq!(loaded.fences[0].title.as_deref(), Some("工作"));
    assert_eq!(loaded.fences[0].icon_ids, vec!["a"]);
    let again = store.load(StoredDesk::Read(loaded)).unwrap();
    assert_eq!(again.fences[0].icon_ids, vec!["a"]);
}

#[test]
fn faults_are_named() {
    let store = ConfigStore::new("C:\\data".to_string());
    let io = store.load::<i64>(StoredDesk::Unreadable("x".into())).err().unwrap();
    assert_eq!(io, CoreError::Io("x".into()));
    assert_eq!(io.message(), "IO 错误: x");
    let bad = store.load::<i64>(StoredDesk::Malformed("y".into())).err().unwrap();
    assert_eq!(bad.message(), "配置解析错误: y");
    assert_eq!(CoreError::Shell("s".into()).message(), "壳层错误: s");
    assert_eq!(CoreError::Render("r".into()).message(), "渲染错误: r");
}

#[test]
fn data_lies_beside_the_program() {
    let store = ConfigStore::new("C:\\data".to_string());
    assert_eq!(store.desk_path(), "C:\\data\\desk.json");
    assert_eq!(store.temporary_path(), "C:\\data\\desk.json.tmp");
    assert_eq!(data_dir(&Some("C:\\sylva\\sylva.exe".into())), "C:\\sylva\\data");
    assert_eq!(data_dir(&None), ".\\data");
    assert_eq!(old_data_dir("C:\\R"), "C:\\R\\Sylva");
    assert!(moves_old_data(false, true) && !moves_old_data(true, true) && !moves_old_data(false, false));
}

#[test]
fn home_of_a_home_is_itself() {
    for p in ["D:\\Program Files", "D:\\Tools\\Sylva", "D:\\", "\\\\server\\share"] {
        let home = normalize_dest(p);
        assert!(file_name_of(&home).map_or(false, |n| n.eq_ignore_ascii_case("sylva")));
        assert_eq!(normalize_dest(&home), home);
    }
}
