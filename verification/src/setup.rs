//! Putting the program on a machine, and taking it off: what is done, in which order, and
//! what is said when it fails.

use vstd::prelude::*;
use vstd::string::*;

use crate::base64;
use crate::base64::base64_encode;
use crate::chars;
use crate::chars::{chars_of, lower_of, same, string_of, trim};
use crate::numbers;
use crate::numbers::push_decimal;
use crate::paths;
use crate::paths::{file_name_of, join};
use crate::scalar;
use crate::scalar::{whole_number, Scalar};
use crate::wide;
use crate::wide::{encode, push_bytes};

verus! {

/// What the program was started for.
#[derive(Debug, Clone, Copy, PartialEq, Eq, Structural)]
pub enum Mode {
    Install,
    Uninstall,
}

/// The parts of the window.
#[derive(Debug, Clone, Copy, PartialEq, Eq, Structural)]
pub enum Control {
    Title,
    Subtitle,
    Icon,
    Section,
    Hint,
    Path,
    Browse,
    Autostart,
    Progress,
    Status,
    Cancel,
    Install,
}

/// Where a part of the window is.
#[derive(Debug, Clone, Copy, PartialEq, Eq, Structural)]
pub struct Slot {
    pub control: Control,
    pub x: i32,
    pub y: i32,
    pub w: i32,
    pub h: i32,
}

/// `n` stopped at the bounds of `i32`.
pub open spec fn held(n: int) -> i32 {
    if n < i32::MIN {
        i32::MIN
    } else if n > i32::MAX {
        i32::MAX
    } else {
        n as i32
    }
}

fn hold(n: i64) -> (r: i32)
    ensures
        r == held(n as int),
{
    if n < i32::MIN as i64 {
        i32::MIN
    } else if n > i32::MAX as i64 {
        i32::MAX
    } else {
        n as i32
    }
}

/// A length at 96 dots per inch, in pixels of a screen of `dpi`.
pub open spec fn in_pixels<S: Scalar>(dip: i32, dpi: u32) -> i32 {
    held(
        scalar::num::<S>(dip as int).mul(scalar::num(dpi as int)).div(scalar::num(96)).rounded().whole() as int,
    )
}

/// A length at 96 dots per inch, in pixels of a screen of `dpi`.
pub fn dl<S: Scalar>(dip: i32, dpi: u32) -> (r: i32)
    ensures
        r == in_pixels::<S>(dip, dpi),
{
    hold(
        whole_number::<S>(dip as i64).times(whole_number(dpi as i64)).over(whole_number(96)).nearest().cut(),
    )
}

/// A part at a fixed place, in pixels.
pub open spec fn fixed<S: Scalar>(control: Control, x: i32, y: i32, w: i32, h: i32, dpi: u32) -> Slot {
    Slot {
        control,
        x: in_pixels::<S>(x, dpi),
        y: in_pixels::<S>(y, dpi),
        w: in_pixels::<S>(w, dpi),
        h: in_pixels::<S>(h, dpi),
    }
}

fn fix<S: Scalar>(control: Control, x: i32, y: i32, w: i32, h: i32, dpi: u32) -> (r: Slot)
    ensures
        r == fixed::<S>(control, x, y, w, h, dpi),
{
    Slot {
        control,
        x: dl::<S>(x, dpi),
        y: dl::<S>(y, dpi),
        w: dl::<S>(w, dpi),
        h: dl::<S>(h, dpi),
    }
}

/// The parts that stand at fixed places.
pub open spec fn fixed_slots<S: Scalar>(dpi: u32) -> Seq<Slot> {
    seq![
        fixed::<S>(Control::Title, 84, 20, 532, 36, dpi),
        fixed::<S>(Control::Subtitle, 84, 62, 532, 22, dpi),
        fixed::<S>(Control::Icon, 24, 24, 48, 48, dpi),
        fixed::<S>(Control::Section, 24, 116, 592, 24, dpi),
        fixed::<S>(Control::Hint, 24, 146, 592, 20, dpi),
        fixed::<S>(Control::Path, 24, 178, 496, 32, dpi),
        fixed::<S>(Control::Browse, 532, 178, 84, 32, dpi),
        fixed::<S>(Control::Autostart, 24, 228, 420, 26, dpi),
        fixed::<S>(Control::Progress, 24, 300, 592, 24, dpi),
        fixed::<S>(Control::Status, 24, 336, 592, 20, dpi),
    ]
}

/// The two buttons, which stand in the lower right corner of a window of the given size.
pub open spec fn button_slots<S: Scalar>(cw: i32, ch: i32, dpi: u32) -> Seq<Slot> {
    let y = held(ch - in_pixels::<S>(24, dpi) - in_pixels::<S>(36, dpi));
    let right = cw - in_pixels::<S>(24, dpi) - in_pixels::<S>(96, dpi);
    let left = right - in_pixels::<S>(12, dpi) - in_pixels::<S>(96, dpi);
    let w = in_pixels::<S>(96, dpi);
    let h = in_pixels::<S>(36, dpi);
    seq![
        Slot { control: Control::Cancel, x: held(right), y, w, h },
        Slot { control: Control::Install, x: held(left), y, w, h },
    ]
}

/// Where the parts of a window of the given size are.
pub fn relayout<S: Scalar>(cw: i32, ch: i32, dpi: u32) -> (r: Vec<Slot>)
    ensures
        r@ == fixed_slots::<S>(dpi) + button_slots::<S>(cw, ch, dpi),
{
    let mut v: Vec<Slot> = Vec::new();
    v.push(fix::<S>(Control::Title, 84, 20, 532, 36, dpi));
    v.push(fix::<S>(Control::Subtitle, 84, 62, 532, 22, dpi));
    v.push(fix::<S>(Control::Icon, 24, 24, 48, 48, dpi));
    v.push(fix::<S>(Control::Section, 24, 116, 592, 24, dpi));
    v.push(fix::<S>(Control::Hint, 24, 146, 592, 20, dpi));
    v.push(fix::<S>(Control::Path, 24, 178, 496, 32, dpi));
    v.push(fix::<S>(Control::Browse, 532, 178, 84, 32, dpi));
    v.push(fix::<S>(Control::Autostart, 24, 228, 420, 26, dpi));
    v.push(fix::<S>(Control::Progress, 24, 300, 592, 24, dpi));
    v.push(fix::<S>(Control::Status, 24, 336, 592, 20, dpi));
    let edge: i64 = dl::<S>(24, dpi) as i64;
    let w = dl::<S>(96, dpi);
    let h = dl::<S>(36, dpi);
    let y = hold(ch as i64 - edge - h as i64);
    let right: i64 = cw as i64 - edge - w as i64;
    let left: i64 = right - dl::<S>(12, dpi) as i64 - w as i64;
    v.push(Slot { control: Control::Cancel, x: hold(right), y, w, h });
    v.push(Slot { control: Control::Install, x: hold(left), y, w, h });
    proof {
        assert(v@ =~= fixed_slots::<S>(dpi) + button_slots::<S>(cw, ch, dpi));
    }
    v
}

/// Whether the part shows its text in grey.
pub fn is_muted(c: Control) -> (r: bool)
    ensures
        r == (c == Control::Subtitle || c == Control::Hint || c == Control::Status),
{
    c == Control::Subtitle || c == Control::Hint || c == Control::Status
}

pub const ID_BTN_INSTALL: usize = 1001;

pub const ID_BTN_CANCEL: usize = 1002;

pub const ID_BTN_BROWSE: usize = 1003;

/// What a click of a button asks for.
#[derive(Debug, Clone, Copy, PartialEq, Eq, Structural)]
pub enum SetupCommand {
    Install,
    Uninstall,
    Browse,
    Close,
}

/// What a click of the button with the given number asks for; nothing while work is going
/// on.
pub fn command(mode: Mode, id: usize, busy: bool) -> (r: Option<SetupCommand>)
    ensures
        r == if busy {
            None
        } else if id == ID_BTN_INSTALL {
            Some(
                if mode == Mode::Install {
                    SetupCommand::Install
                } else {
                    SetupCommand::Uninstall
                },
            )
        } else if id == ID_BTN_BROWSE && mode == Mode::Install {
            Some(SetupCommand::Browse)
        } else if id == ID_BTN_CANCEL {
            Some(SetupCommand::Close)
        } else {
            None
        },
{
    if busy {
        None
    } else if id == ID_BTN_INSTALL {
        match mode {
            Mode::Install => Some(SetupCommand::Install),
            Mode::Uninstall => Some(SetupCommand::Uninstall),
        }
    } else if id == ID_BTN_BROWSE && mode == Mode::Install {
        Some(SetupCommand::Browse)
    } else if id == ID_BTN_CANCEL {
        Some(SetupCommand::Close)
    } else {
        None
    }
}

/// The directory that the program goes to: one named `sylva`, in any case of letters, at
/// the end of the path or below it.
pub open spec fn home_in(path: Seq<char>) -> Seq<char> {
    match paths::file_name(path) {
        Some(n) => if chars::ascii_lower(n) == "sylva"@ {
            path
        } else {
            paths::joined(path, "sylva"@)
        },
        None => paths::joined(path, "sylva"@),
    }
}

/// The directory that the program goes to.
pub fn normalize_dest(path: &str) -> (r: String)
    ensures
        r@ == home_in(path@),
{
    if let Some(n) = file_name_of(path) {
        let low = lower_of(n.as_str());
        let named = same(low.as_str(), "sylva");
        if named {
            return path.to_owned();
        }
    }
    join(path, "sylva")
}

/// The directory that the program goes to where nothing else is asked for.
pub fn default_path(local: &str) -> (r: String)
    ensures
        r@ == paths::joined(paths::joined(local@, "Programs"@), "Sylva"@),
{
    let p = join(local, "Programs");
    join(p.as_str(), "Sylva")
}

/// The directory that the program goes to for what was typed; blanks stand for the usual
/// one.
pub fn chosen_dest(typed: &str, usual: &str) -> (r: String)
    ensures
        r@ == if chars::trimmed(typed@).len() == 0 {
            home_in(usual@)
        } else {
            home_in(chars::trimmed(typed@))
        },
{
    let t = trim(typed);
    if chars_of(t.as_str()).len() == 0 {
        normalize_dest(usual)
    } else {
        normalize_dest(t.as_str())
    }
}

/// `s` with `w` in place of every `c`, for its first `n` characters.
pub open spec fn replaced(s: Seq<char>, c: char, w: Seq<char>, n: int) -> Seq<char>
    decreases n,
{
    if n <= 0 {
        Seq::empty()
    } else if s[n - 1] == c {
        replaced(s, c, w, n - 1) + w
    } else {
        replaced(s, c, w, n - 1).push(s[n - 1])
    }
}

/// `s` with `w` in place of every `c`.
pub open spec fn replace_all(s: Seq<char>, c: char, w: Seq<char>) -> Seq<char> {
    replaced(s, c, w, s.len() as int)
}

fn replace(s: &str, c: char, w: &str) -> (r: String)
    ensures
        r@ == replace_all(s@, c, w@),
{
    let v = chars_of(s);
    let mut out = String::new();
    let mut i: usize = 0;
    proof {
        assert(out@ =~= replaced(s@, c, w@, 0));
    }
    while i < v.len()
        invariant
            i <= v.len(),
            v@ == s@,
            out@ == replaced(s@, c, w@, i as int),
        decreases v.len() - i,
    {
        if v[i] == c {
            out.append(w);
        } else {
            out.push(v[i]);
        }
        i += 1;
    }
    out
}

/// The script that puts shortcuts on the desktop and into the start menu.
pub open spec fn shortcut_script(exe: Seq<char>) -> Seq<char> {
    "$ws=New-Object -ComObject WScript.Shell; $d='"@ + replace_all(
        replace_all(exe, '\\', "\\\\"@),
        '\'',
        "''"@,
    )
        + "'; $l=$ws.CreateShortcut((Join-Path ([Environment]::GetFolderPath('Desktop')) 'Sylva.lnk')); $l.TargetPath=$d; $l.WorkingDirectory=Split-Path $d; $l.Description='Sylva 桌面栅栏整理器'; $l.Save(); $m=Join-Path ([Environment]::GetFolderPath('Programs')) 'Sylva'; New-Item -ItemType Directory -Force -Path $m|Out-Null; $l2=$ws.CreateShortcut((Join-Path $m 'Sylva.lnk')); $l2.TargetPath=$d; $l2.WorkingDirectory=Split-Path $d; $l2.Description='Sylva 桌面栅栏整理器'; $l2.Save()"@
}

fn make_shortcut_script(exe: &str) -> (r: String)
    ensures
        r@ == shortcut_script(exe@),
{
    let doubled = replace(exe, '\\', "\\\\");
    let quoted = replace(doubled.as_str(), '\'', "''");
    let mut s = "$ws=New-Object -ComObject WScript.Shell; $d='".to_owned();
    s.append(quoted.as_str());
    s.append("'; $l=$ws.CreateShortcut((Join-Path ([Environment]::GetFolderPath('Desktop')) 'Sylva.lnk')); $l.TargetPath=$d; $l.WorkingDirectory=Split-Path $d; $l.Description='Sylva 桌面栅栏整理器'; $l.Save(); $m=Join-Path ([Environment]::GetFolderPath('Programs')) 'Sylva'; New-Item -ItemType Directory -Force -Path $m|Out-Null; $l2=$ws.CreateShortcut((Join-Path $m 'Sylva.lnk')); $l2.TargetPath=$d; $l2.WorkingDirectory=Split-Path $d; $l2.Description='Sylva 桌面栅栏整理器'; $l2.Save()");
    s
}

/// The script that waits for a process to end, and then removes a directory.
pub open spec fn cleanup_script(dest: Seq<char>, pid: u32) -> Seq<char> {
    let d = replace_all(dest, '\'', "''"@);
    "for($i=0;$i -lt 60;$i++){ if(-not (Get-Process -Id "@ + numbers::decimal(pid as nat)
        + " -ErrorAction SilentlyContinue)){break}; Start-Sleep -Seconds 1 }; for($i=0;$i -lt 10;$i++){ Remove-Item -LiteralPath '"@
        + d + "' -Recurse -Force -ErrorAction SilentlyContinue; if(-not (Test-Path -LiteralPath '"@ + d
        + "')){break}; Start-Sleep -Milliseconds 500 }"@
}

fn make_cleanup_script(dest: &str, pid: u32) -> (r: String)
    ensures
        r@ == cleanup_script(dest@, pid),
{
    let d = replace(dest, '\'', "''");
    let mut s = "for($i=0;$i -lt 60;$i++){ if(-not (Get-Process -Id ".to_owned();
    push_decimal(&mut s, pid as u64);
    s.append(" -ErrorAction SilentlyContinue)){break}; Start-Sleep -Seconds 1 }; for($i=0;$i -lt 10;$i++){ Remove-Item -LiteralPath '");
    s.append(d.as_str());
    s.append("' -Recurse -Force -ErrorAction SilentlyContinue; if(-not (Test-Path -LiteralPath '");
    s.append(d.as_str());
    s.append("')){break}; Start-Sleep -Milliseconds 500 }");
    s
}

/// A script as the shell takes it: its UTF-16 units as bytes, the lower one first, as text
/// of 64 letters.
pub open spec fn encoded_command(script: Seq<char>) -> Seq<char> {
    base64::letters_from(wide::unit_bytes(wide::utf16(script)), 0)
}

/// A script as the shell takes it.
pub fn encode_command(script: &str) -> (r: String)
    ensures
        r@ == encoded_command(script@),
{
    let u = encode(script);
    let mut bytes: Vec<u8> = Vec::new();
    push_bytes(&mut bytes, &u);
    proof {
        assert(bytes@ =~= wide::unit_bytes(u@));
    }
    base64_encode(&bytes)
}

/// Something to do. Texts are of type `T`.
#[derive(Debug, PartialEq)]
pub enum Step<T> {
    /// Shows a line of text.
    Status(T),
    /// Shows how far the work is, in percent.
    Progress(u32),
    /// Tells the user something: a title, a text, and whether it is an error.
    Tell(T, T, bool),
    /// Makes the directory of the program.
    MakeHome(T),
    /// Writes the program to a file.
    WriteProgram(T),
    /// Makes the directory of the data.
    MakeData(T),
    /// Copies the running program to a file.
    CopySelf(T),
    /// Runs an encoded script and waits for it.
    Shortcuts(T),
    /// Sets a value in the registry: a key, a name, and what it is set to.
    RegAdd(T, T, T),
    /// Removes a value from the registry, or a whole key.
    RegDelete(T, Option<T>),
    /// Starts a program.
    Launch(T),
    /// Fails while the program is running.
    CheckStopped,
    /// Shows the real icons of the desktop.
    RestoreIcons,
    RemoveFile(T),
    RemoveDir(T),
    /// Removes all from a directory but what [`stays`].
    ClearDir(T),
    /// Fails while the program is still in a directory.
    CheckGone(T),
    /// Runs an encoded script and does not wait for it.
    Cleanup(T),
    /// Waits, in milliseconds.
    Pause(u64),
}

/// A step with its texts as characters.
pub open spec fn plain(s: Step<String>) -> Step<Seq<char>> {
    match s {
        Step::Status(a) => Step::Status(a@),
        Step::Progress(n) => Step::Progress(n),
        Step::Tell(a, b, e) => Step::Tell(a@, b@, e),
        Step::MakeHome(a) => Step::MakeHome(a@),
        Step::WriteProgram(a) => Step::WriteProgram(a@),
        Step::MakeData(a) => Step::MakeData(a@),
        Step::CopySelf(a) => Step::CopySelf(a@),
        Step::Shortcuts(a) => Step::Shortcuts(a@),
        Step::RegAdd(a, b, c) => Step::RegAdd(a@, b@, c@),
        Step::RegDelete(a, Some(b)) => Step::RegDelete(a@, Some(b@)),
        Step::RegDelete(a, None) => Step::RegDelete(a@, None),
        Step::Launch(a) => Step::Launch(a@),
        Step::CheckStopped => Step::CheckStopped,
        Step::RestoreIcons => Step::RestoreIcons,
        Step::RemoveFile(a) => Step::RemoveFile(a@),
        Step::RemoveDir(a) => Step::RemoveDir(a@),
        Step::ClearDir(a) => Step::ClearDir(a@),
        Step::CheckGone(a) => Step::CheckGone(a@),
        Step::Cleanup(a) => Step::Cleanup(a@),
        Step::Pause(n) => Step::Pause(n),
    }
}

/// Steps with their texts as characters.
pub open spec fn plan(v: Seq<Step<String>>) -> Seq<Step<Seq<char>>> {
    v.map_values(|s: Step<String>| plain(s))
}

fn put(out: &mut Vec<Step<String>>, s: Step<String>)
    ensures
        plan(final(out)@) == plan(old(out)@).push(plain(s)),
{
    let ghost o = out@;
    out.push(s);
    proof {
        assert(plan(out@) =~= plan(o).push(plain(s)));
    }
}

/// Where programs that start with the system are registered.
pub open spec fn run_key() -> Seq<char> {
    "HKCU\\Software\\Microsoft\\Windows\\CurrentVersion\\Run"@
}

/// Where the program is registered for being taken off.
pub open spec fn uninstall_key() -> Seq<char> {
    "HKCU\\Software\\Microsoft\\Windows\\CurrentVersion\\Uninstall\\Sylva"@
}

/// A text in quotation marks.
pub open spec fn quoted(s: Seq<char>) -> Seq<char> {
    "\""@ + s + "\""@
}

fn quote(s: &str) -> (r: String)
    ensures
        r@ == quoted(s@),
{
    let mut r = "\"".to_owned();
    r.append(s);
    r.append("\"");
    r
}

/// Everything that is registered for a program in `dest`.
pub open spec fn registration(dest: Seq<char>) -> Seq<Step<Seq<char>>> {
    let key = uninstall_key();
    let exe = paths::joined(dest, "sylva.exe"@);
    seq![
        Step::RegAdd(key, "DisplayName"@, "Sylva 桌面栅栏整理器"@),
        Step::RegAdd(key, "DisplayVersion"@, "0.1.0"@),
        Step::RegAdd(key, "Publisher"@, "Sylva"@),
        Step::RegAdd(key, "InstallLocation"@, dest),
        Step::RegAdd(key, "DisplayIcon"@, quoted(exe)),
        Step::RegAdd(
            key,
            "UninstallString"@,
            quoted(paths::joined(dest, "uninstall.exe"@)) + " --uninstall"@,
        ),
        Step::RegAdd(key, "NoModify"@, "1"@),
        Step::RegAdd(key, "NoRepair"@, "1"@),
    ]
}

/// What is done to put the program into `dest`.
pub open spec fn installation(dest: Seq<char>, autostart: bool) -> Seq<Step<Seq<char>>> {
    let exe = paths::joined(dest, "sylva.exe"@);
    seq![
        Step::Status("正在安装…"@),
        Step::Progress(5),
        Step::MakeHome(dest),
        Step::WriteProgram(exe),
        Step::Progress(35),
        Step::MakeData(paths::joined(dest, "data"@)),
        Step::CopySelf(paths::joined(dest, "uninstall.exe"@)),
        Step::Progress(45),
        Step::Shortcuts(encoded_command(shortcut_script(exe))),
        Step::Progress(60),
    ] + (if autostart {
        seq![Step::RegAdd(run_key(), "Sylva"@, quoted(exe))]
    } else {
        Seq::empty()
    }) + registration(dest) + seq![
        Step::Progress(90),
        Step::Launch(exe),
        Step::Status("安装完成，Sylva 已启动。"@),
        Step::Progress(100),
    ]
}

fn add_value(out: &mut Vec<Step<String>>, name: &str, data: String)
    ensures
        plan(final(out)@) == plan(old(out)@).push(Step::RegAdd(uninstall_key(), name@, data@)),
{
    put(
        out,
        Step::RegAdd(
            "HKCU\\Software\\Microsoft\\Windows\\CurrentVersion\\Uninstall\\Sylva".to_owned(),
            name.to_owned(),
            data,
        ),
    );
}

/// What is done to put the program into `dest`, and to have it start with the system.
pub fn run_install(dest: &str, autostart: bool) -> (out: Vec<Step<String>>)
    ensures
        plan(out@) == installation(dest@, autostart),
{
    let mut out: Vec<Step<String>> = Vec::new();
    let exe = join(dest, "sylva.exe");
    put(&mut out, Step::Status("正在安装…".to_owned()));
    put(&mut out, Step::Progress(5));
    put(&mut out, Step::MakeHome(dest.to_owned()));
    put(&mut out, Step::WriteProgram(exe.clone()));
    put(&mut out, Step::Progress(35));
    put(&mut out, Step::MakeData(join(dest, "data")));
    put(&mut out, Step::CopySelf(join(dest, "uninstall.exe")));
    put(&mut out, Step::Progress(45));
    let script = make_shortcut_script(exe.as_str());
    put(&mut out, Step::Shortcuts(encode_command(script.as_str())));
    put(&mut out, Step::Progress(60));
    let ghost first = plan(out@);
    if autostart {
        put(
            &mut out,
            Step::RegAdd(
                "HKCU\\Software\\Microsoft\\Windows\\CurrentVersion\\Run".to_owned(),
                "Sylva".to_owned(),
                quote(exe.as_str()),
            ),
        );
    }
    let ghost second = plan(out@);
    add_value(&mut out, "DisplayName", "Sylva 桌面栅栏整理器".to_owned());
    add_value(&mut out, "DisplayVersion", "0.1.0".to_owned());
    add_value(&mut out, "Publisher", "Sylva".to_owned());
    add_value(&mut out, "InstallLocation", dest.to_owned());
    add_value(&mut out, "DisplayIcon", quote(exe.as_str()));
    let remover = join(dest, "uninstall.exe");
    let mut line = quote(remover.as_str());
    line.append(" --uninstall");
    add_value(&mut out, "UninstallString", line);
    add_value(&mut out, "NoModify", "1".to_owned());
    add_value(&mut out, "NoRepair", "1".to_owned());
    let ghost third = plan(out@);
    proof {
        assert(third =~= second + registration(dest@));
    }
    put(&mut out, Step::Progress(90));
    put(&mut out, Step::Launch(exe));
    put(&mut out, Step::Status("安装完成，Sylva 已启动。".to_owned()));
    put(&mut out, Step::Progress(100));
    proof {
        assert(plan(out@) =~= installation(dest@, autostart));
    }
    out
}

/// The characters of a text, where there is one.
pub open spec fn seen(p: Option<String>) -> Option<Seq<char>> {
    match p {
        Some(s) => Some(s@),
        None => None,
    }
}

/// The first steps of taking the program off: it must not run, the real icons come back, and
/// it is registered no more.
pub open spec fn removal_start() -> Seq<Step<Seq<char>>> {
    seq![
        Step::Status("正在检查 Sylva 运行状态…"@),
        Step::Progress(8),
        Step::CheckStopped,
        Step::Progress(20),
        Step::Status("正在恢复桌面图标…"@),
        Step::RestoreIcons,
        Step::Progress(35),
        Step::Status("正在清除注册表项…"@),
        Step::RegDelete(run_key(), Some("Sylva"@)),
        Step::RegDelete(uninstall_key(), None),
        Step::Progress(55),
        Step::Status("正在删除快捷方式…"@),
    ]
}

/// Then the shortcuts go.
pub open spec fn removal_of_links(desktop: Option<Seq<char>>, profile: Option<Seq<char>>) -> Seq<Step<Seq<char>>> {
    (match desktop {
        Some(d) => seq![Step::RemoveFile(paths::joined(d, "Sylva.lnk"@))],
        None => Seq::empty(),
    }) + (match profile {
        Some(p) => seq![
            Step::RemoveFile(paths::joined(paths::joined(p, "Desktop"@), "Sylva.lnk"@)),
            Step::RemoveDir(
                paths::joined(p, "AppData\\Roaming\\Microsoft\\Windows\\Start Menu\\Programs\\Sylva"@),
            ),
        ],
        None => Seq::empty(),
    })
}

/// Then the files go, and at last, once it has ended, the running program.
pub open spec fn removal_of_files(dest: Option<Seq<char>>, pid: u32) -> Seq<Step<Seq<char>>> {
    seq![Step::Progress(70), Step::Progress(80), Step::Status("正在删除安装文件…"@)] + (match dest {
        Some(d) => seq![
            Step::ClearDir(d),
            Step::CheckGone(d),
            Step::Progress(100),
            Step::Cleanup(encoded_command(cleanup_script(d, pid))),
        ],
        None => seq![Step::Progress(100)],
    }) + seq![Step::Status("Sylva 已卸载完成。"@), Step::Pause(900)]
}

/// What is done to take the program off: where it is, where the desktop is, and where the
/// user's files are, as far as they were found.
pub open spec fn removal(
    dest: Option<Seq<char>>,
    desktop: Option<Seq<char>>,
    profile: Option<Seq<char>>,
    pid: u32,
) -> Seq<Step<Seq<char>>> {
    removal_start() + removal_of_links(desktop, profile) + removal_of_files(dest, pid)
}

fn put_removal_start(out: &mut Vec<Step<String>>)
    ensures
        plan(final(out)@) == plan(old(out)@) + removal_start(),
{
    let ghost o = plan(out@);
    put(out, Step::Status("正在检查 Sylva 运行状态…".to_owned()));
    put(out, Step::Progress(8));
    put(out, Step::CheckStopped);
    put(out, Step::Progress(20));
    put(out, Step::Status("正在恢复桌面图标…".to_owned()));
    put(out, Step::RestoreIcons);
    put(out, Step::Progress(35));
    put(out, Step::Status("正在清除注册表项…".to_owned()));
    put(
        out,
        Step::RegDelete(
            "HKCU\\Software\\Microsoft\\Windows\\CurrentVersion\\Run".to_owned(),
            Some("Sylva".to_owned()),
        ),
    );
    put(
        out,
        Step::RegDelete(
            "HKCU\\Software\\Microsoft\\Windows\\CurrentVersion\\Uninstall\\Sylva".to_owned(),
            None,
        ),
    );
    put(out, Step::Progress(55));
    put(out, Step::Status("正在删除快捷方式…".to_owned()));
    proof {
        assert(plan(out@) =~= o + removal_start());
    }
}

fn put_removal_of_links(out: &mut Vec<Step<String>>, desktop: &Option<String>, profile: &Option<String>)
    ensures
        plan(final(out)@) == plan(old(out)@) + removal_of_links(seen(*desktop), seen(*profile)),
{
    let ghost o = plan(out@);
    if let Some(d) = desktop {
        put(out, Step::RemoveFile(join(d.as_str(), "Sylva.lnk")));
    }
    if let Some(p) = profile {
        let d = join(p.as_str(), "Desktop");
        put(out, Step::RemoveFile(join(d.as_str(), "Sylva.lnk")));
        put(
            out,
            Step::RemoveDir(
                join(p.as_str(), "AppData\\Roaming\\Microsoft\\Windows\\Start Menu\\Programs\\Sylva"),
            ),
        );
    }
    proof {
        assert(plan(out@) =~= o + removal_of_links(seen(*desktop), seen(*profile)));
    }
}

fn put_removal_of_files(out: &mut Vec<Step<String>>, dest: &Option<String>, pid: u32)
    ensures
        plan(final(out)@) == plan(old(out)@) + removal_of_files(seen(*dest), pid),
{
    let ghost o = plan(out@);
    put(out, Step::Progress(70));
    put(out, Step::Progress(80));
    put(out, Step::Status("正在删除安装文件…".to_owned()));
    match dest {
        Some(d) => {
            put(out, Step::ClearDir(d.clone()));
            put(out, Step::CheckGone(d.clone()));
            put(out, Step::Progress(100));
            let script = make_cleanup_script(d.as_str(), pid);
            put(out, Step::Cleanup(encode_command(script.as_str())));
        },
        None => {
            put(out, Step::Progress(100));
        },
    }
    put(out, Step::Status("Sylva 已卸载完成。".to_owned()));
    put(out, Step::Pause(900));
    proof {
        assert(plan(out@) =~= o + removal_of_files(seen(*dest), pid));
    }
}

/// What is done to take the program off.
pub fn run_uninstall(dest: &Option<String>, desktop: &Option<String>, profile: &Option<String>, pid: u32) -> (out: Vec<
    Step<String>,
>)
    ensures
        plan(out@) == removal(seen(*dest), seen(*desktop), seen(*profile), pid),
{
    let mut out: Vec<Step<String>> = Vec::new();
    proof {
        assert(plan(out@) + removal_start() =~= removal_start());
    }
    put_removal_start(&mut out);
    put_removal_of_links(&mut out, desktop, profile);
    put_removal_of_files(&mut out, dest, pid);
    out
}

/// What is done when a step failed, for the reason `e`; none where the work goes on all the
/// same.
pub open spec fn failing(s: Step<Seq<char>>, e: Seq<char>) -> Option<Seq<Step<Seq<char>>>> {
    match s {
        Step::MakeHome(p) => Some(
            seq![
                Step::Status("安装失败"@),
                Step::Tell("Sylva 安装"@, "无法创建安装目录：\n"@ + p + "\n\n（"@ + e + "）"@, true),
            ],
        ),
        Step::WriteProgram(p) => Some(
            seq![
                Step::Status("安装失败"@),
                Step::Tell("Sylva 安装"@, "写入主程序失败：\n"@ + p + "（"@ + e + "）"@, true),
            ],
        ),
        Step::MakeData(p) => Some(
            seq![
                Step::Status("安装失败"@),
                Step::Tell("Sylva 安装"@, "无法创建数据目录：\n"@ + p + "（"@ + e + "）"@, true),
            ],
        ),
        Step::Shortcuts(_) => Some(
            seq![
                Step::Status("安装失败"@),
                Step::Tell("Sylva 安装"@, "创建快捷方式失败，请关闭安全软件后重试。"@, true),
            ],
        ),
        Step::CheckStopped => Some(
            seq![
                Step::Status("请先关闭 Sylva 再卸载"@),
                Step::Tell(
                    "Sylva 卸载"@,
                    "检测到 Sylva 正在运行。\n\n请先关闭 Sylva 窗口，再点击「卸载」。"@,
                    false,
                ),
            ],
        ),
        Step::CheckGone(p) => Some(
            seq![
                Step::Progress(100),
                Step::Status("卸载未完成：sylva.exe 仍被占用"@),
                Step::Tell(
                    "Sylva 卸载"@,
                    "无法删除主程序 sylva.exe，可能仍被其他程序占用。\n\n请关闭相关程序后重试：\n"@ + p,
                    true,
                ),
            ],
        ),
        _ => None,
    }
}

/// What is done when a step failed, for the reason `e`; none where the work goes on all the
/// same.
pub fn on_failure(s: &Step<String>, e: &str) -> (r: Option<Vec<Step<String>>>)
    ensures
        match r {
            Some(v) => failing(plain(*s), e@) == Some(plan(v@)),
            None => failing(plain(*s), e@) is None,
        },
{
    let mut out: Vec<Step<String>> = Vec::new();
    let ghost none = plan(out@);
    match s {
        Step::MakeHome(p) => {
            put(&mut out, Step::Status("安装失败".to_owned()));
            let mut t = "无法创建安装目录：\n".to_owned();
            t.append(p.as_str());
            t.append("\n\n（");
            t.append(e);
            t.append("）");
            put(&mut out, Step::Tell("Sylva 安装".to_owned(), t, true));
        },
        Step::WriteProgram(p) => {
            put(&mut out, Step::Status("安装失败".to_owned()));
            let mut t = "写入主程序失败：\n".to_owned();
            t.append(p.as_str());
            t.append("（");
            t.append(e);
            t.append("）");
            put(&mut out, Step::Tell("Sylva 安装".to_owned(), t, true));
        },
        Step::MakeData(p) => {
            put(&mut out, Step::Status("安装失败".to_owned()));
            let mut t = "无法创建数据目录：\n".to_owned();
            t.append(p.as_str());
            t.append("（");
            t.append(e);
            t.append("）");
            put(&mut out, Step::Tell("Sylva 安装".to_owned(), t, true));
        },
        Step::Shortcuts(_) => {
            put(&mut out, Step::Status("安装失败".to_owned()));
            put(
                &mut out,
                Step::Tell(
                    "Sylva 安装".to_owned(),
                    "创建快捷方式失败，请关闭安全软件后重试。".to_owned(),
                    true,
                ),
            );
        },
        Step::CheckStopped => {
            put(&mut out, Step::Status("请先关闭 Sylva 再卸载".to_owned()));
            put(
                &mut out,
                Step::Tell(
                    "Sylva 卸载".to_owned(),
                    "检测到 Sylva 正在运行。\n\n请先关闭 Sylva 窗口，再点击「卸载」。".to_owned(),
                    false,
                ),
            );
        },
        Step::CheckGone(p) => {
            put(&mut out, Step::Progress(100));
            put(&mut out, Step::Status("卸载未完成：sylva.exe 仍被占用".to_owned()));
            let mut t = "无法删除主程序 sylva.exe，可能仍被其他程序占用。\n\n请关闭相关程序后重试：\n".to_owned();
            t.append(p.as_str());
            put(&mut out, Step::Tell("Sylva 卸载".to_owned(), t, true));
        },
        _ => {
            return None;
        },
    }
    proof {
        assert(none =~= Seq::empty());
        assert(plan(out@) =~= failing(plain(*s), e@)->0);
    }
    Some(out)
}

/// Whether an entry of the program's directory is left for the last: the running program
/// cannot remove itself.
pub fn stays(name: &str) -> (r: bool)
    ensures
        r == (chars::ascii_lower(name@) == "uninstall.exe"@),
{
    let low = lower_of(name);
    same(low.as_str(), "uninstall.exe")
}

/// `p` stands in `s` at `i`.
pub open spec fn stands_at(s: Seq<char>, p: Seq<char>, i: int) -> bool {
    i + p.len() <= s.len() && s.subrange(i, i + p.len()) == p
}

/// Where `p` stands first in `s`, from `i` on; the length of `s` and one more where it does
/// not.
pub open spec fn find_text(s: Seq<char>, p: Seq<char>, i: int) -> int
    decreases s.len() + 1 - i,
{
    if i > s.len() {
        s.len() as int + 1
    } else if stands_at(s, p, i) {
        i
    } else {
        find_text(s, p, i + 1)
    }
}

/// `p` stands somewhere in `s`.
pub open spec fn holds_text(s: Seq<char>, p: Seq<char>) -> bool {
    find_text(s, p, 0) <= s.len()
}

fn at_place(v: &Vec<char>, p: &Vec<char>, i: usize) -> (r: bool)
    requires
        i <= v.len(),
    ensures
        r == stands_at(v@, p@, i as int),
{
    if p.len() > v.len() - i {
        return false;
    }
    let mut k: usize = 0;
    while k < p.len()
        invariant
            k <= p.len(),
            i + p.len() <= v.len(),
            forall|j: int| 0 <= j < k ==> v[i + j] == p[j],
        decreases p.len() - k,
    {
        if v[i + k] != p[k] {
            proof {
                assert(v@.subrange(i as int, i + p.len())[k as int] != p@[k as int]);
            }
            return false;
        }
        k += 1;
    }
    proof {
        assert(v@.subrange(i as int, i + p.len()) =~= p@);
    }
    true
}

fn search(v: &Vec<char>, p: &Vec<char>) -> (r: Option<usize>)
    ensures
        match r {
            Some(i) => find_text(v@, p@, 0) == i && stands_at(v@, p@, i as int),
            None => find_text(v@, p@, 0) == v.len() + 1,
        },
{
    let mut i: usize = 0;
    while i < v.len()
        invariant
            i <= v.len(),
            find_text(v@, p@, 0) == find_text(v@, p@, i as int),
        decreases v.len() - i,
    {
        if at_place(v, p, i) {
            return Some(i);
        }
        i += 1;
    }
    if at_place(v, p, i) {
        return Some(i);
    }
    proof {
        assert(find_text(v@, p@, i + 1) == v.len() + 1);
    }
    None
}

/// Whether a list of running programs names this one.
pub fn names_program(list: &str) -> (r: bool)
    ensures
        r == holds_text(chars::ascii_lower(list@), "sylva.exe"@),
{
    let low = lower_of(list);
    let v = chars_of(low.as_str());
    let p = chars_of("sylva.exe");
    let at = search(&v, &p);
    at.is_some()
}

/// Where the line from `i` on ends.
pub open spec fn line_end(s: Seq<char>, i: int) -> int
    decreases s.len() - i,
{
    if i >= s.len() || s[i] == '\n' {
        i
    } else {
        line_end(s, i + 1)
    }
}

/// The first line from `i` on that holds `p`.
pub open spec fn line_with(s: Seq<char>, p: Seq<char>, i: int) -> Option<Seq<char>>
    decreases s.len() + 1 - i,
    when 0 <= i
    via line_with_decreases
{
    if i >= s.len() {
        None
    } else {
        let line = s.subrange(i, line_end(s, i));
        if holds_text(line, p) {
            Some(line)
        } else {
            line_with(s, p, line_end(s, i) + 1)
        }
    }
}

#[via_fn]
proof fn line_with_decreases(s: Seq<char>, p: Seq<char>, i: int) {
    lemma_line_end(s, i);
}

proof fn lemma_line_end(s: Seq<char>, i: int)
    requires
        0 <= i,
    ensures
        i <= line_end(s, i),
        i <= s.len() ==> line_end(s, i) <= s.len(),
    decreases s.len() - i,
{
    if i < s.len() && s[i] != '\n' {
        lemma_line_end(s, i + 1);
    }
}

/// The directory in a line about it: what follows its type, without blanks around it.
pub open spec fn location_in(line: Seq<char>) -> Option<Seq<char>> {
    let i = find_text(line, "REG_SZ"@, 0);
    if i > line.len() {
        None
    } else {
        let p = chars::trimmed(line.skip(i + "REG_SZ"@.len()));
        if p.len() == 0 {
            None
        } else {
            Some(p)
        }
    }
}

/// The directory of the program in what the registry says of it.
pub open spec fn location(text: Seq<char>) -> Option<Seq<char>> {
    match line_with(text, "InstallLocation"@, 0) {
        Some(line) => location_in(line),
        None => None,
    }
}

fn location_of_line(line: &str) -> (r: Option<String>)
    ensures
        match r {
            Some(p) => location_in(line@) == Some(p@),
            None => location_in(line@) is None,
        },
{
    let v = chars_of(line);
    let p = chars_of("REG_SZ");
    let i = match search(&v, &p) {
        Some(i) => i,
        None => {
            return None;
        },
    };
    proof {
        assert(stands_at(v@, p@, i as int));
        assert(i + p.len() <= v.len());
    }
    let rest = string_of(&v, i + p.len(), v.len());
    proof {
        assert(v@.subrange(i + p.len(), v.len() as int) =~= v@.skip(i + p.len()));
    }
    let t = trim(rest.as_str());
    if chars_of(t.as_str()).len() == 0 {
        None
    } else {
        Some(t)
    }
}

/// The directory of the program in what the registry says of it.
pub fn install_location(text: &str) -> (r: Option<String>)
    ensures
        match r {
            Some(p) => location(text@) == Some(p@),
            None => location(text@) is None,
        },
{
    let v = chars_of(text);
    let p = chars_of("InstallLocation");
    let mut i: usize = 0;
    while i < v.len()
        invariant
            i <= v.len(),
            v@ == text@,
            p@ == "InstallLocation"@,
            line_with(text@, p@, 0) == line_with(text@, p@, i as int),
        decreases v.len() - i,
    {
        let mut end: usize = i;
        while end < v.len() && v[end] != '\n'
            invariant
                i <= end <= v.len(),
                line_end(v@, i as int) == line_end(v@, end as int),
            decreases v.len() - end,
        {
            end += 1;
        }
        let line = string_of(&v, i, end);
        let w = chars_of(line.as_str());
        if search(&w, &p).is_some() {
            return location_of_line(line.as_str());
        }
        if end >= v.len() {
            proof {
                assert(line_with(text@, p@, end + 1) is None);
            }
            return None;
        }
        i = end + 1;
    }
    None
}

/// Work that fails in an important step stops there: what is done instead ends with a word
/// to the user.
pub proof fn law_failure_is_told(s: Step<Seq<char>>, e: Seq<char>)
    ensures
        failing(s, e) matches Some(v) ==> v.len() > 0 && v.last() is Tell,
        s is MakeHome || s is WriteProgram || s is MakeData || s is Shortcuts ==> failing(s, e) is Some,
        s is CheckStopped || s is CheckGone ==> failing(s, e) is Some,
{
}

/// The program is put into a directory of its own, named `sylva` in any case of ASCII
/// letters: a path that leads to one is taken as it is, and so nothing changes when that is
/// asked for twice. This holds of every path but one behind which `sylva` names a share or a
/// device, as it does behind `\\server` alone.
pub proof fn law_home_is_own(path: Seq<char>)
    requires
        paths::prefix_len(home_in(path)) == paths::prefix_len(path),
    ensures
        paths::file_name(home_in(path)) matches Some(n) && chars::ascii_lower(n) == "sylva"@,
        home_in(home_in(path)) == home_in(path),
        home_in(path) == path || home_in(path) == paths::joined(path, "sylva"@),
{
    reveal_strlit("sylva");
    let name = "sylva"@;
    assert(chars::ascii_lower(name) =~= name);
    assert(paths::is_plain(name)) by {
        assert(name[1] == 'y' && name.len() == 5);
        assert(seq!['.'].len() == 1 && seq!['.', '.'].len() == 2);
    }
    if !(paths::file_name(path) matches Some(n) && chars::ascii_lower(n) == name) {
        paths::law_joined_is_called(path, name);
    }
}

/// Nothing is removed before it was made sure that the program does not run, and the
/// program's directory is cleaned up only after it was made sure that the program is gone.
pub proof fn law_removal_is_careful(
    dest: Option<Seq<char>>,
    desktop: Option<Seq<char>>,
    profile: Option<Seq<char>>,
    pid: u32,
    i: int,
)
    requires
        0 <= i < removal(dest, desktop, profile, pid).len(),
    ensures
        ({
            let s = removal(dest, desktop, profile, pid);
            &&& (s[i] is RegDelete || s[i] is RemoveFile || s[i] is RemoveDir || s[i] is ClearDir || s[i] is Cleanup)
                ==> 2 < i && s[2] is CheckStopped
            &&& s[i] is Cleanup ==> 2 <= i && s[i - 2] is CheckGone
        }),
{
}

/// The two buttons stand side by side in the lower right corner, both within a window that is
/// large enough, with the one that cancels at the right.
pub proof fn law_buttons_stand_in_the_corner<S: Scalar>(cw: i32, ch: i32, dpi: u32)
    requires
        0 <= in_pixels::<S>(24, dpi) <= 0x1_0000,
        0 <= in_pixels::<S>(12, dpi) <= 0x1_0000,
        0 <= in_pixels::<S>(36, dpi) <= 0x1_0000,
        0 <= in_pixels::<S>(96, dpi) <= 0x1_0000,
        in_pixels::<S>(24, dpi) + 2 * in_pixels::<S>(96, dpi) + in_pixels::<S>(12, dpi) <= cw,
        in_pixels::<S>(24, dpi) + in_pixels::<S>(36, dpi) <= ch,
    ensures
        ({
            let v = button_slots::<S>(cw, ch, dpi);
            let edge = in_pixels::<S>(24, dpi);
            let cancel = v[0];
            let install = v[1];
            &&& v.len() == 2
            &&& cancel.control is Cancel
            &&& install.control is Install
            &&& cancel.x + cancel.w + edge == cw
            &&& cancel.y + cancel.h + edge == ch
            &&& install.x + install.w + in_pixels::<S>(12, dpi) == cancel.x
            &&& install.y == cancel.y
            &&& install.h == cancel.h
            &&& 0 <= install.x
            &&& 0 <= install.y
        }),
{
}

/// What is started, registered and shown in menus is what was written: one program in the
/// directory asked for, which starts with the system only if that was asked for.
pub proof fn law_installed_is_registered(dest: Seq<char>, autostart: bool)
    ensures
        ({
            let v = installation(dest, autostart);
            let exe = paths::joined(dest, "sylva.exe"@);
            &&& v.contains(Step::MakeHome(dest))
            &&& v.contains(Step::WriteProgram(exe))
            &&& v.contains(Step::Launch(exe))
            &&& v.contains(Step::RegAdd(uninstall_key(), "InstallLocation"@, dest))
            &&& v.contains(Step::RegAdd(uninstall_key(), "DisplayIcon"@, "\""@ + exe + "\""@))
            &&& v.contains(Step::MakeData(paths::joined(dest, "data"@)))
            &&& v.contains(Step::CopySelf(paths::joined(dest, "uninstall.exe"@)))
            &&& autostart ==> v.contains(Step::RegAdd(run_key(), "Sylva"@, "\""@ + exe + "\""@))
            &&& !autostart ==> forall|i: int|
                0 <= i < v.len() ==> !((#[trigger] v[i]) is RegAdd && v[i]->RegAdd_0 == run_key())
            &&& v.last() == Step::<Seq<char>>::Progress(100)
            &&& forall|i: int, j: int|
                0 <= i < j < v.len() && #[trigger] v[i] is Progress && #[trigger] v[j] is Progress ==> v[i]->Progress_0
                    < v[j]->Progress_0
        }),
{
    let v = installation(dest, autostart);
    let exe = paths::joined(dest, "sylva.exe"@);
    let k: int = if autostart {
        11
    } else {
        10
    };
    assert(v.len() == k + 12);
    assert(v[2] == Step::MakeHome(dest));
    assert(v[3] == Step::WriteProgram(exe));
    assert(v[5] == Step::MakeData(paths::joined(dest, "data"@)));
    assert(v[6] == Step::CopySelf(paths::joined(dest, "uninstall.exe"@)));
    assert(v[k + 3] == Step::RegAdd(uninstall_key(), "InstallLocation"@, dest));
    assert(v[k + 4] == Step::RegAdd(uninstall_key(), "DisplayIcon"@, "\""@ + exe + "\""@));
    assert(v[k + 9] == Step::Launch(exe));
    if autostart {
        assert(v[10] == Step::RegAdd(run_key(), "Sylva"@, "\""@ + exe + "\""@));
    }
    assert(run_key() != uninstall_key()) by {
        reveal_strlit("HKCU\\Software\\Microsoft\\Windows\\CurrentVersion\\Run");
        reveal_strlit("HKCU\\Software\\Microsoft\\Windows\\CurrentVersion\\Uninstall\\Sylva");
        assert(run_key().len() != uninstall_key().len());
    }
}

proof fn lemma_found_at(s: Seq<char>, p: Seq<char>, from: int, k: int)
    requires
        0 <= from <= k <= s.len(),
        stands_at(s, p, k),
        forall|i: int| from <= i < k ==> !#[trigger] stands_at(s, p, i),
    ensures
        find_text(s, p, from) == k,
    decreases k - from,
{
    if from < k {
        assert(!stands_at(s, p, from));
        lemma_found_at(s, p, from + 1, k);
    }
}

/// The directory is read out of the line that the registry gives for it: what stands behind
/// the type of the value, without the blanks around it.
pub proof fn law_location_is_read(a: Seq<char>, b: Seq<char>, dir: Seq<char>, c: Seq<char>)
    requires
        dir.len() > 0,
        !chars::is_white(dir[0]),
        !chars::is_white(dir.last()),
        forall|i: int| 0 <= i < b.len() ==> chars::is_white(#[trigger] b[i]),
        forall|i: int| 0 <= i < c.len() ==> chars::is_white(#[trigger] c[i]),
        forall|i: int| 0 <= i < a.len() ==> !#[trigger] stands_at(a + "REG_SZ"@ + b + dir + c, "REG_SZ"@, i),
    ensures
        location_in(a + "REG_SZ"@ + b + dir + c) == Some(dir),
{
    let p = "REG_SZ"@;
    let line = a + p + b + dir + c;
    assert(line.subrange(a.len() as int, a.len() as int + p.len()) =~= p);
    assert(stands_at(line, p, a.len() as int));
    lemma_found_at(line, p, 0, a.len() as int);
    assert(line.skip(a.len() as int + p.len()) =~= b + dir + c);
    chars::law_trimmed_is_the_middle(b, dir, c);
}

/// Lengths grow with the resolution of the screen: at 96 dots per inch a length is its number
/// of pixels, and at a multiple of that the same multiple of it.
pub proof fn law_lengths_follow_the_screen(dip: i32, k: u32)
    requires
        0 <= dip <= 0x1_0000,
        k <= 0x1000,
    ensures
        in_pixels::<i64>(dip, (96 * k) as u32) == dip * k,
{
    assert(scalar::num::<i64>(96) == 96);
    assert(scalar::num::<i64>(dip as int) == dip);
    assert(scalar::num::<i64>(96 * k as int) == 96 * k);
    assert(0 <= dip * k <= 0x1_0000 * 0x1000 && dip * (96 * k) == 96 * (dip * k)) by (nonlinear_arith)
        requires
            0 <= dip <= 0x1_0000,
            0 <= k <= 0x1000,
    ;
    assert((96 * (dip * k)) / 96 == dip * k);
}

} // verus!
