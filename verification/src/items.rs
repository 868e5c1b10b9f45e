//! Items of the desktop and of fences: what kind they are, how they are told apart, and what
//! is known of their files.

use vstd::prelude::*;
use vstd::string::*;

use crate::chars;
use crate::chars::{chars_of, lower_of, same, string_of};
use crate::details;
use crate::details::{find_last, type_label};
use crate::model::{Icon, ItemId, ItemKind};
use crate::paths;
use crate::paths::file_name_of;

verus! {

/// Attribute of a shell item that is a link.
pub const SFGAO_LINK: u32 = 0x0001_0000;

/// Attribute of a shell item that is a folder.
pub const SFGAO_FOLDER: u32 = 0x2000_0000;

/// Attributes of files that are not shown.
pub const FILE_ATTRIBUTE_HIDDEN: u32 = 0x2;

pub const FILE_ATTRIBUTE_SYSTEM: u32 = 0x4;

/// Stands for the attributes of a file that could not be read.
pub const INVALID_FILE_ATTRIBUTES: u32 = 0xFFFF_FFFF;

/// An item of the desktop or of a fence.
#[derive(Debug, PartialEq)]
pub struct DesktopItem {
    pub id: ItemId,
    pub display_name: String,
    pub kind: ItemKind,
    /// File system path; `None` for virtual items.
    pub path: Option<String>,
}

/// The extension of the name at the end of a path. A dot at the start of the name does not
/// begin one.
pub open spec fn raw_extension(path: Seq<char>) -> Option<Seq<char>> {
    match paths::file_name(path) {
        Some(n) => {
            let dot = details::last_index(n, '.');
            if dot <= 0 {
                None
            } else {
                Some(n.skip(dot + 1))
            }
        },
        None => None,
    }
}

/// The extension of the name at the end of a path, in lower case.
pub open spec fn path_extension(path: Seq<char>) -> Option<Seq<char>> {
    match raw_extension(path) {
        Some(e) => Some(chars::ascii_lower(e)),
        None => None,
    }
}

/// The extension of the name at the end of a path.
pub fn extension_at(path: &str) -> (r: Option<String>)
    ensures
        match r {
            Some(e) => raw_extension(path@) == Some(e@),
            None => raw_extension(path@) is None,
        },
{
    match file_name_of(path) {
        Some(n) => {
            let v = chars_of(n.as_str());
            proof {
                assert(v@.skip(0) =~= v@);
            }
            match find_last(&v, 0, '.') {
                Some(i) => {
                    if i == 0 {
                        None
                    } else {
                        proof {
                            assert(v@.subrange(i + 1, v.len() as int) =~= v@.skip(i + 1));
                        }
                        Some(string_of(&v, i + 1, v.len()))
                    }
                },
                None => None,
            }
        },
        None => None,
    }
}

/// The kind of an item: by its attributes where they are known, then by the extension of its
/// path, and else by whether the path is a folder.
pub open spec fn kind_by(attrs: u32, attrs_ok: bool, path: Option<Seq<char>>, is_dir: bool) -> ItemKind {
    if attrs_ok && attrs & SFGAO_FOLDER != 0 {
        ItemKind::Folder
    } else if attrs_ok && attrs & SFGAO_LINK != 0 {
        ItemKind::Link
    } else {
        match path {
            Some(p) => {
                let ext = path_extension(p);
                if ext == Some("exe"@) || ext == Some("appref-ms"@) || ext == Some("url"@) {
                    ItemKind::App
                } else if ext == Some("lnk"@) {
                    ItemKind::Link
                } else if is_dir {
                    ItemKind::Folder
                } else {
                    ItemKind::Doc
                }
            },
            None => ItemKind::Unknown,
        }
    }
}

/// The kind of an item. `is_dir` tells whether there is a folder at the path.
pub fn kind_from(attrs: u32, attrs_ok: bool, path: Option<&str>, is_dir: bool) -> (k: ItemKind)
    ensures
        k == kind_by(
            attrs,
            attrs_ok,
            match path {
                Some(p) => Some(p@),
                None => None,
            },
            is_dir,
        ),
{
    if attrs_ok {
        if attrs & SFGAO_FOLDER != 0 {
            return ItemKind::Folder;
        }
        if attrs & SFGAO_LINK != 0 {
            return ItemKind::Link;
        }
    }
    match path {
        Some(p) => {
            if let Some(x) = extension_at(p) {
                let e = lower_of(x.as_str());
                if same(e.as_str(), "exe") || same(e.as_str(), "appref-ms") || same(e.as_str(), "url") {
                    return ItemKind::App;
                }
                if same(e.as_str(), "lnk") {
                    return ItemKind::Link;
                }
            }
            if is_dir {
                ItemKind::Folder
            } else {
                ItemKind::Doc
            }
        },
        None => ItemKind::Unknown,
    }
}

/// What an item is told apart by: its path in lower case, or its name where it has none.
pub open spec fn identity(path: Option<Seq<char>>, name: Seq<char>) -> Seq<char> {
    match path {
        Some(p) => chars::ascii_lower(p),
        None => "shell:"@ + name,
    }
}

/// What an item is told apart by.
pub fn item_id(path: Option<&str>, display_name: &str) -> (r: ItemId)
    ensures
        r@ == identity(
            match path {
                Some(p) => Some(p@),
                None => None,
            },
            display_name@,
        ),
{
    match path {
        Some(p) => lower_of(p),
        None => {
            let mut s = "shell:".to_owned();
            s.append(display_name);
            s
        },
    }
}

/// Paths that differ in the case of ASCII letters alone are one item.
pub proof fn law_identity_ignores_case(a: Seq<char>, b: Seq<char>, name: Seq<char>)
    ensures
        chars::ascii_lower(a) == chars::ascii_lower(b) <==> identity(Some(a), name) == identity(Some(b), name),
{
}

/// Whether a file is shown in the fence that mirrors its folder.
pub open spec fn is_shown(attrs: u32) -> bool {
    attrs != INVALID_FILE_ATTRIBUTES && attrs & (FILE_ATTRIBUTE_HIDDEN | FILE_ATTRIBUTE_SYSTEM) == 0
}

/// Whether a file with the given attributes is shown in the fence that mirrors its folder:
/// hidden files and files of the system are not, nor is one that cannot be read.
pub fn should_mirror(attrs: u32) -> (r: bool)
    ensures
        r == is_shown(attrs),
{
    attrs != INVALID_FILE_ATTRIBUTES && attrs & (FILE_ATTRIBUTE_HIDDEN | FILE_ATTRIBUTE_SYSTEM) == 0
}

/// What the file system tells of a file.
#[derive(Debug, Clone, Copy, PartialEq)]
pub struct FileMeta {
    pub is_file: bool,
    pub is_dir: bool,
    pub len: u64,
    /// Whether the time of the last change could be read.
    pub dated: bool,
    /// The time of the last change, in seconds since the epoch; none before it.
    pub modified: Option<i64>,
}

/// `b` is `a` with what the file system tells.
pub open spec fn enriched(a: Icon, b: Icon, meta: Option<FileMeta>) -> bool {
    &&& b.id == a.id
    &&& b.display_name == a.display_name
    &&& b.kind == a.kind
    &&& b.path == a.path
    &&& b.added == a.added
    &&& if a.type_label@.len() == 0 {
        b.type_label@ == details::label_text(a.kind, a.display_name@)
    } else {
        b.type_label == a.type_label
    }
    &&& b.size_bytes == match meta {
        Some(m) => if m.is_file {
            Some(m.len)
        } else if m.is_dir {
            None
        } else {
            a.size_bytes
        },
        None => a.size_bytes,
    }
    &&& b.modified_secs == match meta {
        Some(m) => if m.dated {
            m.modified
        } else {
            a.modified_secs
        },
        None => a.modified_secs,
    }
}

/// Adds the type, the size and the time of the last change. What the file system does not
/// tell stays as it was.
pub fn enrich(icon: &mut Icon, meta: Option<FileMeta>)
    ensures
        enriched(*old(icon), *final(icon), meta),
{
    if chars_of(icon.type_label.as_str()).len() == 0 {
        icon.type_label = type_label(icon.kind, icon.display_name.as_str());
    }
    if let Some(m) = meta {
        if m.is_file {
            icon.size_bytes = Some(m.len);
        } else if m.is_dir {
            icon.size_bytes = None;
        }
        if m.dated {
            icon.modified_secs = m.modified;
        }
    }
}

proof fn lemma_extension(path: Seq<char>, stem: Seq<char>, ext: Seq<char>)
    requires
        paths::file_name(path) == Some(stem + seq!['.'] + ext),
        stem.len() > 0,
        !ext.contains('.'),
    ensures
        path_extension(path) == Some(chars::ascii_lower(ext)),
{
    let n = stem + seq!['.'] + ext;
    details::lemma_last_index(n, '.');
    let k = details::last_index(n, '.');
    assert(n[stem.len() as int] == '.');
    if k > stem.len() {
        assert(n[k] == ext[k - stem.len() - 1]);
    }
    assert(n.skip(stem.len() as int + 1) =~= ext);
}

/// Where the attributes do not tell, the kind of a file goes by the extension of its name
/// alone, whatever the case of its letters and wherever the file lies.
pub proof fn law_kind_goes_by_extension(
    p: Seq<char>,
    stem: Seq<char>,
    ext: Seq<char>,
    q: Seq<char>,
    other: Seq<char>,
    same: Seq<char>,
    is_dir: bool,
)
    requires
        paths::file_name(p) == Some(stem + seq!['.'] + ext),
        paths::file_name(q) == Some(other + seq!['.'] + same),
        stem.len() > 0,
        other.len() > 0,
        !ext.contains('.'),
        !same.contains('.'),
        chars::ascii_lower(ext) == chars::ascii_lower(same),
    ensures
        kind_by(0, false, Some(p), is_dir) == kind_by(0, false, Some(q), is_dir),
        chars::ascii_lower(ext) == "exe"@ || chars::ascii_lower(ext) == "url"@ || chars::ascii_lower(ext)
            == "appref-ms"@ ==> kind_by(0, false, Some(p), is_dir) is App,
        chars::ascii_lower(ext) == "lnk"@ ==> kind_by(0, false, Some(p), is_dir) is Link,
        !(kind_by(0, false, Some(p), false) is Folder),
{
    lemma_extension(p, stem, ext);
    lemma_extension(q, other, same);
    reveal_strlit("exe");
    reveal_strlit("url");
    reveal_strlit("lnk");
    reveal_strlit("appref-ms");
    assert("lnk"@[0] == 'l' && "exe"@[0] == 'e' && "url"@[0] == 'u');
    assert("lnk"@.len() == 3 && "appref-ms"@.len() == 9);
}

/// The files of the system and hidden ones are not shown, and only they.
pub proof fn law_hidden_files_are_not_shown(attrs: u32)
    requires
        attrs != INVALID_FILE_ATTRIBUTES,
    ensures
        is_shown(attrs) <==> attrs & FILE_ATTRIBUTE_HIDDEN == 0 && attrs & FILE_ATTRIBUTE_SYSTEM == 0,
{
    assert(attrs & (0x2u32 | 0x4u32) == 0 <==> attrs & 0x2u32 == 0 && attrs & 0x4u32 == 0) by (bit_vector);
}

} // verus!
