//! Editing a text in place: the caret, typing, pasting and input methods.

use vstd::prelude::*;
use vstd::string::*;

use crate::chars;
use crate::chars::{chars_of, string_of};
use crate::messages;
use crate::messages::to_word;
use crate::overlay::RectF;
use crate::scalar;
use crate::scalar::{count, whole_number, Scalar};
use crate::text;
use crate::text::estimate_width;
use crate::theme::Theme;

verus! {

/// What is being renamed.
#[derive(Debug, Clone, Copy, PartialEq, Eq, Structural)]
pub enum EditTarget {
    Item { fence: usize, icon: usize },
    FenceTitle { fence: usize },
}

/// A text being edited in place.
#[derive(Debug, PartialEq)]
pub struct InlineEdit<S> {
    pub target: EditTarget,
    pub rect: RectF<S>,
    pub lines: Vec<String>,
    /// Line of the caret.
    pub line: usize,
    /// Characters before the caret in its line.
    pub col: usize,
    pub placeholder: String,
    pub single_line: bool,
    pub focused: bool,
    /// Whether an input method is composing.
    pub composing: bool,
    /// What it has composed so far.
    pub comp: String,
    /// Whether its result is just being taken over.
    pub committing: bool,
}

/// What a key leads to.
#[derive(Debug, Clone, Copy, PartialEq, Eq, Structural)]
pub enum KeyAction {
    /// Nothing.
    Ignore,
    /// The edit is done and to be carried out.
    Commit,
    /// The edit is given up.
    Cancel,
    /// The text or the caret has changed.
    Edited,
    /// The clipboard is to be pasted.
    Paste,
}

pub const VK_BACK: u32 = 0x08;

pub const VK_RETURN: u32 = 0x0D;

pub const VK_ESCAPE: u32 = 0x1B;

pub const VK_END: u32 = 0x23;

pub const VK_HOME: u32 = 0x24;

pub const VK_LEFT: u32 = 0x25;

pub const VK_UP: u32 = 0x26;

pub const VK_RIGHT: u32 = 0x27;

pub const VK_DOWN: u32 = 0x28;

pub const VK_DELETE: u32 = 0x2E;

pub const VK_V: u32 = 0x56;

pub open spec fn least(a: int, b: int) -> int {
    if a < b {
        a
    } else {
        b
    }
}

/// A text with a caret.
pub struct EditText {
    pub lines: Seq<Seq<char>>,
    pub line: int,
    pub col: int,
}

impl EditText {
    /// The line of the caret.
    pub open spec fn here(self) -> Seq<char> {
        self.lines[self.line]
    }

    /// Characters before the caret that there are.
    pub open spec fn at(self) -> int {
        least(self.col, self.here().len() as int)
    }

    /// The caret is within the text.
    pub open spec fn valid(self) -> bool {
        0 <= self.line < self.lines.len() && 0 <= self.col <= self.here().len()
    }

    /// `text` put in at the caret, which then stands behind it.
    pub open spec fn inserted(self, text: Seq<char>) -> EditText {
        let a = self.at();
        EditText {
            lines: self.lines.update(self.line, self.here().take(a) + text + self.here().skip(a)),
            line: self.line,
            col: a + text.len(),
        }
    }

    /// The lines `k` and `k + 1` made one.
    pub open spec fn merged(lines: Seq<Seq<char>>, k: int) -> Seq<Seq<char>> {
        lines.remove(k + 1).update(k, lines[k] + lines[k + 1])
    }

    /// The character before the caret taken out; at the start of a line of many, the line
    /// made one with the line before.
    pub open spec fn erased_before(self, single: bool) -> EditText {
        if self.col > 0 {
            let a = self.at();
            if a > 0 {
                EditText {
                    lines: self.lines.update(self.line, self.here().take(a - 1) + self.here().skip(a)),
                    line: self.line,
                    col: self.col - 1,
                }
            } else {
                EditText { col: self.col - 1, ..self }
            }
        } else if !single && self.line > 0 {
            EditText {
                lines: Self::merged(self.lines, self.line - 1),
                line: self.line - 1,
                col: self.lines[self.line - 1].len() as int,
            }
        } else {
            self
        }
    }

    /// The character behind the caret taken out; at the end of a line of many, the line made
    /// one with the next line.
    pub open spec fn erased_after(self, single: bool) -> EditText {
        let a = self.at();
        if a < self.here().len() {
            EditText {
                lines: self.lines.update(self.line, self.here().take(a) + self.here().skip(a + 1)),
                ..self
            }
        } else if !single && self.line + 1 < self.lines.len() {
            EditText { lines: Self::merged(self.lines, self.line), ..self }
        } else {
            self
        }
    }

    pub open spec fn moved_left(self, single: bool) -> EditText {
        if self.col > 0 {
            EditText { col: self.col - 1, ..self }
        } else if !single && self.line > 0 {
            EditText { line: self.line - 1, col: self.lines[self.line - 1].len() as int, ..self }
        } else {
            self
        }
    }

    pub open spec fn moved_right(self, single: bool) -> EditText {
        if self.col < self.here().len() {
            EditText { col: self.col + 1, ..self }
        } else if !single && self.line + 1 < self.lines.len() {
            EditText { line: self.line + 1, col: 0, ..self }
        } else {
            self
        }
    }

    pub open spec fn moved_vertically(self, single: bool, down: bool) -> EditText {
        let k = if down {
            self.line + 1
        } else {
            self.line - 1
        };
        if single || k < 0 || k >= self.lines.len() {
            self
        } else {
            EditText { line: k, col: least(self.col, self.lines[k].len() as int), ..self }
        }
    }

    pub open spec fn moved_to_edge(self, end: bool) -> EditText {
        EditText {
            col: if end {
                self.here().len() as int
            } else {
                0
            },
            ..self
        }
    }

    /// The line broken in two at the caret.
    pub open spec fn broken(self) -> EditText {
        let a = self.at();
        EditText {
            lines: self.lines.update(self.line, self.here().take(a)).insert(self.line + 1, self.here().skip(a)),
            line: self.line + 1,
            col: 0,
        }
    }

    /// The `k`-th line of what is put in: `tail` goes behind the last.
    pub open spec fn part(parts: Seq<Seq<char>>, tail: Seq<char>, k: int) -> Seq<char> {
        if k + 1 == parts.len() {
            parts[k] + tail
        } else {
            parts[k]
        }
    }

    /// The lines `parts` put in at the caret, with what stood behind it after the last of
    /// them, at whose end the caret then stands.
    pub open spec fn pasted(self, parts: Seq<Seq<char>>) -> EditText {
        let a = self.at();
        let tail = self.here().skip(a);
        let lines = self.lines.take(self.line).push(self.here().take(a) + Self::part(parts, tail, 0)) + Seq::new(
            (parts.len() - 1) as nat,
            |j: int| Self::part(parts, tail, j + 1),
        ) + self.lines.skip(self.line + 1);
        let line = self.line + parts.len() - 1;
        EditText { lines, line, col: lines[line].len() as int }
    }
}

impl<S> InlineEdit<S> {
    pub open spec fn view(self) -> EditText {
        EditText { lines: chars::texts(self.lines@), line: self.line as int, col: self.col as int }
    }

    /// The caret is in a line that there is, and a single line has no others.
    pub open spec fn wf(self) -> bool {
        self.line < self.lines.len() && (self.single_line ==> self.lines.len() == 1)
    }

    /// Nothing but the text and its caret differs.
    pub open spec fn same_frame(self, o: InlineEdit<S>) -> bool {
        &&& self.target == o.target
        &&& self.rect == o.rect
        &&& self.placeholder == o.placeholder
        &&& self.single_line == o.single_line
        &&& self.focused == o.focused
        &&& self.composing == o.composing
        &&& self.comp == o.comp
        &&& self.committing == o.committing
    }

    /// The characters of the line of the caret.
    fn here(&self) -> (v: Vec<char>)
        requires
            self.wf(),
        ensures
            v@ == self@.here(),
    {
        proof {
            assert(self@.lines[self.line as int] == self.lines@[self.line as int]@);
        }
        chars_of(self.lines[self.line].as_str())
    }

    fn at(&self, len: usize) -> (a: usize)
        requires
            self.wf(),
            len == self@.here().len(),
        ensures
            a == self@.at(),
            a <= len,
    {
        if self.col < len {
            self.col
        } else {
            len
        }
    }

    /// Replaces the line of the caret.
    fn put(&mut self, text: String)
        requires
            old(self).wf(),
        ensures
            final(self).wf(),
            final(self).same_frame(*old(self)),
            final(self).line == old(self).line,
            final(self).col == old(self).col,
            final(self)@.lines == old(self)@.lines.update(old(self).line as int, text@),
    {
        self.lines.set(self.line, text);
        proof {
            assert(self@.lines =~= old(self)@.lines.update(old(self).line as int, text@));
        }
    }

    /// Puts `text` in at the caret.
    pub fn insert(&mut self, text: &str)
        requires
            old(self).wf(),
        ensures
            final(self).wf(),
            final(self).same_frame(*old(self)),
            final(self)@ == old(self)@.inserted(text@),
    {
        let v = self.here();
        let a = self.at(v.len());
        let mut s = string_of(&v, 0, a);
        s.append(text);
        let mid = chars_of(s.as_str());
        proof {
            assert(v@.subrange(0, a as int) =~= v@.take(a as int));
            assert(v@.subrange(a as int, v.len() as int) =~= v@.skip(a as int));
        }
        s.append(string_of(&v, a, v.len()).as_str());
        self.put(s);
        self.col = mid.len();
        proof {
            assert(self@.lines =~= old(self)@.inserted(text@).lines);
        }
    }

    /// Puts one character in at the caret.
    pub fn insert_char(&mut self, ch: char)
        requires
            old(self).wf(),
        ensures
            final(self).wf(),
            final(self).same_frame(*old(self)),
            final(self)@ == old(self)@.inserted(seq![ch]),
    {
        let mut s = String::new();
        s.push(ch);
        proof {
            assert(s@ =~= seq![ch]);
        }
        self.insert(s.as_str());
    }

    /// Takes out the character before the caret.
    pub fn backspace(&mut self)
        requires
            old(self).wf(),
        ensures
            final(self).wf(),
            final(self).same_frame(*old(self)),
            final(self)@ == old(self)@.erased_before(old(self).single_line),
    {
        if self.col > 0 {
            let v = self.here();
            let a = self.at(v.len());
            if a > 0 {
                let mut s = string_of(&v, 0, a - 1);
                s.append(string_of(&v, a, v.len()).as_str());
                proof {
                    assert(v@.subrange(0, a - 1) =~= v@.take(a - 1));
                    assert(v@.subrange(a as int, v.len() as int) =~= v@.skip(a as int));
                }
                self.put(s);
            }
            self.col = self.col - 1;
            proof {
                assert(self@.lines =~= old(self)@.erased_before(old(self).single_line).lines);
            }
        } else if !self.single_line && self.line > 0 {
            let k = self.line - 1;
            let before = chars_of(self.lines[k].as_str());
            self.merge(k);
            self.line = k;
            self.col = before.len();
            proof {
                assert(old(self)@.lines[k as int] == old(self).lines@[k as int]@);
            }
        }
    }

    /// Makes the lines `k` and `k + 1` one.
    fn merge(&mut self, k: usize)
        requires
            k + 1 < old(self).lines.len(),
        ensures
            final(self).same_frame(*old(self)),
            final(self).line == old(self).line,
            final(self).col == old(self).col,
            final(self).lines.len() == old(self).lines.len() - 1,
            final(self)@.lines == EditText::merged(old(self)@.lines, k as int),
    {
        let next = self.lines.remove(k + 1);
        let mut s = self.lines[k].clone();
        s.append(next.as_str());
        self.lines.set(k, s);
        proof {
            assert(self@.lines =~= EditText::merged(old(self)@.lines, k as int));
        }
    }

    /// Takes out the character behind the caret.
    pub fn delete_at(&mut self)
        requires
            old(self).wf(),
        ensures
            final(self).wf(),
            final(self).same_frame(*old(self)),
            final(self)@ == old(self)@.erased_after(old(self).single_line),
    {
        let v = self.here();
        let a = self.at(v.len());
        if a < v.len() {
            let mut s = string_of(&v, 0, a);
            s.append(string_of(&v, a + 1, v.len()).as_str());
            proof {
                assert(v@.subrange(0, a as int) =~= v@.take(a as int));
                assert(v@.subrange(a + 1, v.len() as int) =~= v@.skip(a + 1));
            }
            self.put(s);
            proof {
                assert(self@.lines =~= old(self)@.erased_after(old(self).single_line).lines);
            }
        } else if !self.single_line && self.line + 1 < self.lines.len() {
            self.merge(self.line);
        }
    }

    pub fn cursor_left(&mut self)
        requires
            old(self).wf(),
        ensures
            final(self).wf(),
            final(self).same_frame(*old(self)),
            final(self)@ == old(self)@.moved_left(old(self).single_line),
    {
        if self.col > 0 {
            self.col = self.col - 1;
        } else if !self.single_line && self.line > 0 {
            self.line = self.line - 1;
            self.col = self.here().len();
        }
    }

    pub fn cursor_right(&mut self)
        requires
            old(self).wf(),
        ensures
            final(self).wf(),
            final(self).same_frame(*old(self)),
            final(self)@ == old(self)@.moved_right(old(self).single_line),
    {
        let len = self.here().len();
        if self.col < len {
            self.col = self.col + 1;
        } else if !self.single_line && self.line + 1 < self.lines.len() {
            self.line = self.line + 1;
            self.col = 0;
        }
    }

    pub fn cursor_up_down(&mut self, down: bool)
        requires
            old(self).wf(),
        ensures
            final(self).wf(),
            final(self).same_frame(*old(self)),
            final(self)@ == old(self)@.moved_vertically(old(self).single_line, down),
    {
        if self.single_line {
            return;
        }
        if down {
            if self.line + 1 >= self.lines.len() {
                return;
            }
            self.line = self.line + 1;
        } else {
            if self.line == 0 {
                return;
            }
            self.line = self.line - 1;
        }
        let len = self.here().len();
        if self.col > len {
            self.col = len;
        }
    }

    /// Moves the caret to the start or the end of its line.
    pub fn home_end(&mut self, end: bool)
        requires
            old(self).wf(),
        ensures
            final(self).wf(),
            final(self).same_frame(*old(self)),
            final(self)@ == old(self)@.moved_to_edge(end),
    {
        self.col = if end {
            self.here().len()
        } else {
            0
        };
    }

    /// The enter key: whether the edit is done, which a single line then is; among many it
    /// breaks the line.
    pub fn enter(&mut self) -> (done: bool)
        requires
            old(self).wf(),
        ensures
            final(self).wf(),
            final(self).same_frame(*old(self)),
            done == old(self).single_line,
            final(self)@ == if old(self).single_line {
                old(self)@
            } else {
                old(self)@.broken()
            },
    {
        if self.single_line {
            return true;
        }
        let v = self.here();
        let a = self.at(v.len());
        proof {
            assert(v@.subrange(0, a as int) =~= v@.take(a as int));
            assert(v@.subrange(a as int, v.len() as int) =~= v@.skip(a as int));
        }
        let rest = string_of(&v, a, v.len());
        self.put(string_of(&v, 0, a));
        let ghost mid = self@;
        self.line = self.line + 1;
        self.lines.insert(self.line, rest);
        self.col = 0;
        proof {
            assert(self@.lines =~= mid.lines.insert(self.line as int, rest@));
        }
        false
    }

    /// Takes over what an input method has composed.
    pub fn commit_ime(&mut self, text: &str)
        requires
            old(self).wf(),
        ensures
            final(self).wf(),
            final(self)@ == old(self)@.inserted(text@),
            !final(self).composing,
            final(self).comp@ == Seq::<char>::empty(),
            final(self).target == old(self).target,
            final(self).rect == old(self).rect,
            final(self).placeholder == old(self).placeholder,
            final(self).single_line == old(self).single_line,
            final(self).focused == old(self).focused,
            final(self).committing == old(self).committing,
    {
        self.insert(text);
        self.composing = false;
        self.comp = String::new();
    }
}

/// The text and the caret after the key `vk`, and what it leads to.
pub open spec fn keyed(t: EditText, single: bool, vk: u32, ctrl: bool) -> (EditText, KeyAction) {
    if vk == VK_RETURN {
        if single {
            (t, KeyAction::Commit)
        } else {
            (t.broken(), KeyAction::Edited)
        }
    } else if vk == VK_ESCAPE {
        (t, KeyAction::Cancel)
    } else if vk == VK_BACK {
        (t.erased_before(single), KeyAction::Edited)
    } else if vk == VK_DELETE {
        (t.erased_after(single), KeyAction::Edited)
    } else if vk == VK_LEFT {
        (
            if ctrl {
                t.moved_to_edge(false)
            } else {
                t.moved_left(single)
            },
            KeyAction::Edited,
        )
    } else if vk == VK_RIGHT {
        (
            if ctrl {
                t.moved_to_edge(true)
            } else {
                t.moved_right(single)
            },
            KeyAction::Edited,
        )
    } else if vk == VK_UP {
        (t.moved_vertically(single, false), KeyAction::Edited)
    } else if vk == VK_DOWN {
        (t.moved_vertically(single, true), KeyAction::Edited)
    } else if vk == VK_HOME {
        (t.moved_to_edge(false), KeyAction::Edited)
    } else if vk == VK_END {
        (t.moved_to_edge(true), KeyAction::Edited)
    } else if vk == VK_V && ctrl {
        (t, KeyAction::Paste)
    } else {
        (t, KeyAction::Ignore)
    }
}

pub open spec fn is_high(u: u16) -> bool {
    0xD800 <= u <= 0xDBFF
}

pub open spec fn is_low(u: u16) -> bool {
    0xDC00 <= u <= 0xDFFF
}

/// The code of the character that two surrogates stand for.
pub open spec fn pair_code(hi: u16, lo: u16) -> int {
    0x1_0000 + (hi - 0xD800) * 0x400 + (lo - 0xDC00)
}

/// What a UTF-16 unit typed after the high surrogate `high`, if any, puts in.
pub open spec fn typed_text(high: Option<u16>, unit: u16) -> Seq<char> {
    if is_low(unit) {
        match high {
            Some(hi) => seq![pair_code(hi, unit) as char],
            None => Seq::empty(),
        }
    } else if is_high(unit) || unit < 32 {
        Seq::empty()
    } else {
        seq![unit as char]
    }
}

/// The high surrogate that is kept after a UTF-16 unit was typed.
pub open spec fn kept_high(unit: u16) -> Option<u16> {
    if is_high(unit) {
        Some(unit)
    } else {
        None
    }
}

/// `s` with a space in place of each line break.
pub open spec fn on_one_line(s: Seq<char>) -> Seq<char> {
    s.map_values(
        |c: char|
            if c == '\r' || c == '\n' {
                ' '
            } else {
                c
            },
    )
}

/// The lines of the first `n` characters of `s`; a line feed ends a line, with a carriage
/// return before it if there is one.
pub open spec fn lines_of(s: Seq<char>, n: int) -> Seq<Seq<char>>
    decreases n,
{
    if n <= 0 {
        seq![Seq::empty()]
    } else {
        let before = lines_of(s, n - 1);
        let c = s[n - 1];
        if c == '\n' {
            before.push(Seq::empty())
        } else if c == '\r' && n < s.len() && s[n] == '\n' {
            before
        } else {
            before.drop_last().push(before.last().push(c))
        }
    }
}

/// The lines of a text.
pub fn split_lines(text: &str) -> (r: Vec<String>)
    ensures
        chars::texts(r@) == lines_of(text@, text@.len() as int),
        r.len() > 0,
{
    let v = chars_of(text);
    let mut out: Vec<String> = Vec::new();
    let mut cur = String::new();
    let mut i: usize = 0;
    proof {
        assert(chars::texts(out@).push(cur@) =~= lines_of(text@, 0));
    }
    while i < v.len()
        invariant
            i <= v.len(),
            v@ == text@,
            chars::texts(out@).push(cur@) == lines_of(text@, i as int),
        decreases v.len() - i,
    {
        let c = v[i];
        let ghost before = lines_of(text@, i as int);
        proof {
            assert(before.last() == cur@);
            assert(before.drop_last() =~= chars::texts(out@));
        }
        if c == '\n' {
            let ghost o = out@;
            out.push(cur);
            cur = String::new();
            proof {
                assert(chars::texts(out@) =~= before);
            }
        } else if c == '\r' && i + 1 < v.len() && v[i + 1] == '\n' {
        } else {
            cur.push(c);
        }
        i += 1;
    }
    let ghost all = chars::texts(out@).push(cur@);
    out.push(cur);
    proof {
        assert(chars::texts(out@) =~= all);
    }
    out
}

fn to_one_line(text: &str) -> (r: String)
    ensures
        r@ == on_one_line(text@),
{
    let mut r = String::new();
    for c in it: text.chars()
        invariant
            it.seq() == text@,
            r@ == on_one_line(text@.take(it.index() as int)),
    {
        proof {
            let k = it.index() as int;
            assert(on_one_line(text@.take(k + 1)) =~= on_one_line(text@.take(k)).push(
                if c == '\r' || c == '\n' {
                    ' '
                } else {
                    c
                },
            ));
        }
        r.push(
            if c == '\r' || c == '\n' {
                ' '
            } else {
                c
            },
        );
    }
    proof {
        assert(text@.take(text@.len() as int) =~= text@);
    }
    r
}

/// The column in `line` that a click at the distance `rel` from its start belongs to, tried
/// from column `k`, which starts at `acc`: from the middle of a character on it is the next.
pub open spec fn column_at<S: Scalar>(line: Seq<char>, font: S, rel: S, k: int, acc: S) -> int
    decreases line.len() - k,
{
    if k < 0 || k >= line.len() {
        k
    } else {
        let w = text::width_of(line.take(k + 1), font).sub(text::width_of(line.take(k), font));
        if rel.le(acc.add(w.div(scalar::num(2)))) {
            k
        } else {
            column_at(line, font, rel, k + 1, acc.add(w))
        }
    }
}

/// Where the caret of a text stands on the screen that is edited at `rect`, `comp` being
/// composed.
pub open spec fn caret_of<S: Scalar>(t: EditText, rect: RectF<S>, comp: Seq<char>, th: Theme<S>) -> (i32, i32) {
    let s = th.scale;
    let font = th.label.size;
    let w = text::width_of(t.here().take(t.at()), font).add(text::width_of(comp, font));
    (
        messages::word(rect.x.add(scalar::num::<S>(10).mul(s)).add(w).whole()),
        messages::word(
            rect.y.add(scalar::num::<S>(4).mul(s)).add(
                scalar::num::<S>(t.line).mul(font.mul(S::lit(15, 10))),
            ).add(font.mul(S::lit(8, 10))).whole(),
        ),
    )
}

impl<S: Scalar> InlineEdit<S> {
    /// Where the caret stands on the screen.
    pub open spec fn caret(self, t: Theme<S>) -> (i32, i32) {
        caret_of(self@, self.rect, self.comp@, t)
    }

    /// The column that a click at `x` belongs to.
    pub open spec fn clicked(self, t: Theme<S>, x: S) -> int {
        let left = self.rect.x.add(scalar::num::<S>(10).mul(t.scale));
        column_at(self@.here(), t.label.size, x.sub(left).max(scalar::num(0)), 0, scalar::num(0))
    }

    /// Starts editing `name` in a single line, with the caret before it.
    pub fn rename(target: EditTarget, rect: RectF<S>, name: String) -> (e: Self)
        ensures
            e.wf(),
            e.target == target,
            e.rect == rect,
            e@ == (EditText { lines: seq![name@], line: 0, col: 0 }),
            e.placeholder@ == Seq::<char>::empty(),
            e.single_line,
            e.focused,
            !e.composing,
            e.comp@ == Seq::<char>::empty(),
            !e.committing,
    {
        let mut lines: Vec<String> = Vec::new();
        lines.push(name);
        proof {
            assert(chars::texts(lines@) =~= seq![name@]);
        }
        InlineEdit {
            target,
            rect,
            lines,
            line: 0,
            col: 0,
            placeholder: String::new(),
            single_line: true,
            focused: true,
            composing: false,
            comp: String::new(),
            committing: false,
        }
    }

    /// The text as it is to be carried out: all lines together, without white space at the
    /// ends.
    pub fn result(&self) -> (r: String)
        ensures
            r@ == chars::trimmed(chars::joined(self@.lines)),
    {
        chars::trim(chars::join_all(&self.lines).as_str())
    }

    /// The key `vk`, with or without the control key.
    pub fn key(&mut self, vk: u32, ctrl: bool) -> (r: KeyAction)
        requires
            old(self).wf(),
        ensures
            final(self).wf(),
            final(self).same_frame(*old(self)),
            (final(self)@, r) == keyed(old(self)@, old(self).single_line, vk, ctrl),
    {
        if vk == VK_RETURN {
            if self.enter() {
                return KeyAction::Commit;
            }
        } else if vk == VK_ESCAPE {
            return KeyAction::Cancel;
        } else if vk == VK_BACK {
            self.backspace();
        } else if vk == VK_DELETE {
            self.delete_at();
        } else if vk == VK_LEFT {
            if ctrl {
                self.home_end(false);
            } else {
                self.cursor_left();
            }
        } else if vk == VK_RIGHT {
            if ctrl {
                self.home_end(true);
            } else {
                self.cursor_right();
            }
        } else if vk == VK_UP {
            self.cursor_up_down(false);
        } else if vk == VK_DOWN {
            self.cursor_up_down(true);
        } else if vk == VK_HOME {
            self.home_end(false);
        } else if vk == VK_END {
            self.home_end(true);
        } else if vk == VK_V && ctrl {
            return KeyAction::Paste;
        } else {
            return KeyAction::Ignore;
        }
        KeyAction::Edited
    }

    /// A UTF-16 unit typed after the high surrogate `high`, if one waits for its other half.
    /// Gives the high surrogate that waits from now on, and whether the caret is to be shown
    /// anew.
    pub fn type_unit(&mut self, high: Option<u16>, unit: u16) -> (r: (Option<u16>, bool))
        requires
            old(self).wf(),
            high matches Some(hi) ==> is_high(hi),
        ensures
            final(self).wf(),
            final(self).same_frame(*old(self)),
            old(self).committing ==> r == (high, false) && final(self)@ == old(self)@,
            !old(self).committing ==> {
                &&& r.0 == kept_high(unit)
                &&& r.1 == (!is_high(unit) && unit >= 32)
                &&& final(self)@ == if typed_text(high, unit).len() > 0 {
                    old(self)@.inserted(typed_text(high, unit))
                } else {
                    old(self)@
                }
            },
    {
        if self.committing {
            return (high, false);
        }
        if 0xD800 <= unit && unit <= 0xDBFF {
            return (Some(unit), false);
        }
        if 0xDC00 <= unit && unit <= 0xDFFF {
            if let Some(hi) = high {
                let code: u32 = 0x1_0000 + (hi as u32 - 0xD800) * 0x400 + (unit as u32 - 0xDC00);
                if let Some(c) = char::from_u32(code) {
                    proof {
                        assert(c == pair_code(hi, unit) as char);
                        assert(seq![c] =~= typed_text(high, unit));
                    }
                    self.insert_char(c);
                }
            }
            return (None, true);
        }
        if unit < 32 {
            return (None, false);
        }
        if let Some(c) = char::from_u32(unit as u32) {
            proof {
                assert(c == unit as char);
                assert(seq![c] =~= typed_text(high, unit));
            }
            self.insert_char(c);
        }
        (None, true)
    }

    /// Puts in a text from the clipboard: a single line takes it on one line, and many take
    /// it line by line, after which the caret stands at the end of its line.
    pub fn paste(&mut self, text: &str)
        requires
            old(self).wf(),
        ensures
            final(self).wf(),
            final(self).same_frame(*old(self)),
            final(self)@ == if old(self).single_line {
                old(self)@.inserted(on_one_line(text@))
            } else {
                old(self)@.pasted(lines_of(text@, text@.len() as int))
            },
    {
        if self.single_line {
            let s = to_one_line(text);
            self.insert(s.as_str());
            return;
        }
        let parts = split_lines(text);
        let ghost ps = chars::texts(parts@);
        let v = self.here();
        let a = self.at(v.len());
        proof {
            assert(v@.subrange(0, a as int) =~= v@.take(a as int));
            assert(v@.subrange(a as int, v.len() as int) =~= v@.skip(a as int));
            assert(ps[0] == parts@[0]@);
            assert(ps.last() == parts@.last()@);
        }
        let tail = string_of(&v, a, v.len());
        let ghost tl = tail@;
        let mut head = string_of(&v, 0, a);
        head.append(parts[0].as_str());
        let n = parts.len();
        if n == 1 {
            head.append(tail.as_str());
        }
        proof {
            assert(head@ =~= v@.take(a as int) + EditText::part(ps, tl, 0));
        }
        self.put(head);
        let at: usize = self.line;
        let ghost start = self@.lines;
        let mut k: usize = 1;
        while k < n
            invariant
                1 <= k <= n,
                n == parts.len(),
                chars::texts(parts@) == ps,
                tail@ == tl,
                at < old(self).lines.len(),
                start.len() == old(self).lines.len(),
                self.same_frame(*old(self)),
                self.line == at,
                !self.single_line,
                self.lines.len() == start.len() + k - 1,
                self@.lines == start.take(at + 1) + Seq::new(
                    (k - 1) as nat,
                    |j: int| EditText::part(ps, tl, j + 1),
                ) + start.skip(at + 1),
            decreases n - k,
        {
            let mut s = parts[k].clone();
            proof {
                assert(ps[k as int] == parts@[k as int]@);
            }
            if k + 1 == n {
                s.append(tail.as_str());
            }
            let ghost prev = self@.lines;
            self.lines.insert(at + k, s);
            proof {
                assert(s@ == EditText::part(ps, tl, k as int));
                assert(self@.lines =~= prev.insert(at + k, s@));
                assert(self@.lines =~= start.take(at + 1) + Seq::new(
                    k as nat,
                    |j: int| EditText::part(ps, tl, j + 1),
                ) + start.skip(at + 1));
            }
            k += 1;
        }
        self.line = at + n - 1;
        self.col = self.here().len();
        proof {
            let want = old(self)@.pasted(ps);
            assert(self@.lines =~= want.lines);
        }
    }

    /// Where the caret stands on the screen.
    pub fn caret_point(&self, theme: &Theme<S>) -> (r: (i32, i32))
        requires
            self.wf(),
            self.line <= i64::MAX,
        ensures
            r == self.caret(*theme),
    {
        let s = theme.scale;
        let font = theme.label.size;
        let v = self.here();
        let a = self.at(v.len());
        proof {
            assert(v@.subrange(0, a as int) =~= v@.take(a as int));
        }
        let before = string_of(&v, 0, a);
        let w = estimate_width(before.as_str(), font).plus(estimate_width(self.comp.as_str(), font));
        let x = self.rect.x.plus(whole_number::<S>(10).times(s)).plus(w);
        let y = self.rect.y.plus(whole_number::<S>(4).times(s)).plus(
            count::<S>(self.line).times(font.times(S::ratio(15, 10))),
        ).plus(font.times(S::ratio(8, 10)));
        (to_word(x.cut()), to_word(y.cut()))
    }

    /// A click at `x`: puts the caret of a single line where it belongs.
    pub fn click(&mut self, theme: &Theme<S>, x: S)
        requires
            old(self).wf(),
        ensures
            final(self).wf(),
            final(self).same_frame(*old(self)),
            final(self)@ == if old(self).single_line {
                EditText { col: old(self).clicked(*theme, x), ..old(self)@ }
            } else {
                old(self)@
            },
    {
        if !self.single_line {
            return;
        }
        let font = theme.label.size;
        let left = self.rect.x.plus(whole_number::<S>(10).times(theme.scale));
        let rel = x.minus(left).greatest(whole_number(0));
        let v = self.here();
        let mut k: usize = 0;
        let mut acc = whole_number::<S>(0);
        while k < v.len()
            invariant_except_break
                k <= v.len(),
            invariant
                k <= v.len(),
                column_at(v@, font, rel, k as int, acc) == column_at(v@, font, rel, 0, scalar::num(0)),
            ensures
                k == column_at(v@, font, rel, 0, scalar::num(0)),
            decreases v.len() - k,
        {
            proof {
                assert(v@.subrange(0, k as int) =~= v@.take(k as int));
                assert(v@.subrange(0, k + 1) =~= v@.take(k + 1));
            }
            let w = estimate_width(string_of(&v, 0, k + 1).as_str(), font).minus(
                estimate_width(string_of(&v, 0, k).as_str(), font),
            );
            if rel.at_most(acc.plus(w.over(whole_number(2)))) {
                break;
            }
            acc = acc.plus(w);
            k += 1;
        }
        self.col = k;
    }
}

/// Inserting a character and taking it out again leaves the text as it was.
pub proof fn law_backspace_undoes_insert(t: EditText, ch: char, single: bool)
    requires
        t.valid(),
    ensures
        t.inserted(seq![ch]).erased_before(single) == t,
{
    let u = t.inserted(seq![ch]);
    let a = t.at();
    assert(u.lines[t.line] == t.here().take(a) + seq![ch] + t.here().skip(a));
    assert(u.here().take(a) =~= t.here().take(a));
    assert(u.here().skip(a + 1) =~= t.here().skip(a));
    assert(t.here().take(a) + t.here().skip(a) =~= t.here());
    assert(u.erased_before(single).lines =~= t.lines);
}

/// Breaking a line and making it one again leaves the text as it was.
pub proof fn law_backspace_undoes_enter(t: EditText)
    requires
        t.valid(),
    ensures
        t.broken().erased_before(false) == t,
{
    let u = t.broken();
    let a = t.at();
    assert(u.lines[t.line] == t.here().take(a));
    assert(u.lines[t.line + 1] == t.here().skip(a));
    assert(t.here().take(a) + t.here().skip(a) =~= t.here());
    assert(u.erased_before(false).lines =~= t.lines);
}

/// Every operation keeps the caret within the text.
pub proof fn law_edits_keep_caret_valid(t: EditText, text: Seq<char>, single: bool, flag: bool)
    requires
        t.valid(),
    ensures
        t.inserted(text).valid(),
        t.erased_before(single).valid(),
        t.erased_after(single).valid(),
        t.moved_left(single).valid(),
        t.moved_right(single).valid(),
        t.moved_vertically(single, flag).valid(),
        t.moved_to_edge(flag).valid(),
        t.broken().valid(),
{
}

/// Moving the caret changes no text.
pub proof fn law_moves_keep_text(t: EditText, single: bool, flag: bool)
    ensures
        t.moved_left(single).lines == t.lines,
        t.moved_right(single).lines == t.lines,
        t.moved_vertically(single, flag).lines == t.lines,
        t.moved_to_edge(flag).lines == t.lines,
{
}

/// What is put in stands between what was before the caret and what was behind it, and the
/// caret stands behind it; no other line changes.
pub proof fn law_insert_is_at_the_caret(t: EditText, x: Seq<char>, k: int)
    requires
        t.valid(),
        0 <= k < t.lines.len(),
    ensures
        ({
            let u = t.inserted(x);
            let n = x.len() as int;
            &&& u.lines.len() == t.lines.len()
            &&& u.line == t.line
            &&& u.col == t.col + n
            &&& u.lines[u.line].take(t.col) =~= t.lines[t.line].take(t.col)
            &&& u.lines[u.line].subrange(t.col, t.col + n) =~= x
            &&& u.lines[u.line].skip(t.col + n) =~= t.lines[t.line].skip(t.col)
            &&& k != t.line ==> u.lines[k] == t.lines[k]
        }),
{
}

/// Delete takes out what one step to the right and backspace would: the character behind the
/// caret, and at the end of a line the break. The caret stays.
pub proof fn law_delete_is_right_and_backspace(t: EditText, single: bool)
    requires
        t.valid(),
        t.col < t.lines[t.line].len() || (!single && t.line + 1 < t.lines.len()),
    ensures
        t.erased_after(single) == t.moved_right(single).erased_before(single),
        t.erased_after(single).line == t.line,
        t.erased_after(single).col == t.col,
{
    let u = t.moved_right(single);
    if t.col < t.here().len() {
        assert(u.here() == t.here());
        assert(u.erased_before(single).lines =~= t.erased_after(single).lines);
    } else {
        assert(u.erased_before(single).lines =~= t.erased_after(single).lines);
    }
}

/// Backspace takes out the character before the caret and no other: what was before that and
/// what is behind the caret stay, and the caret goes one back. At the start of the text
/// nothing happens.
pub proof fn law_backspace_takes_one(t: EditText, single: bool)
    requires
        t.valid(),
    ensures
        ({
            let u = t.erased_before(single);
            &&& t.col > 0 ==> u.line == t.line && u.col == t.col - 1 && u.lines[u.line].len() == t.lines[t.line].len() - 1
                && u.lines[u.line].take(u.col) =~= t.lines[t.line].take(t.col - 1) && u.lines[u.line].skip(u.col)
                =~= t.lines[t.line].skip(t.col)
            &&& t.col == 0 && (single || t.line == 0) ==> u == t
        }),
{
}

/// Moving the caret to the right and back, or down and up within lines that are long enough,
/// leaves it where it was; one step moves it by one character.
pub proof fn law_moves_undo_each_other(t: EditText, single: bool)
    requires
        t.valid(),
    ensures
        t.col < t.lines[t.line].len() ==> t.moved_right(single).col == t.col + 1 && t.moved_right(single).line == t.line,
        t.col > 0 ==> t.moved_left(single).col == t.col - 1 && t.moved_left(single).line == t.line,
        t.moved_right(single) != t ==> t.moved_right(single).moved_left(single) == t,
        t.moved_left(single) != t ==> t.moved_left(single).moved_right(single) == t,
        !single && t.line + 1 < t.lines.len() ==> t.moved_vertically(single, true).line == t.line + 1,
        !single && t.line > 0 ==> t.moved_vertically(single, false).line == t.line - 1,
        !single && t.line + 1 < t.lines.len() && t.col <= t.lines[t.line + 1].len() ==> t.moved_vertically(
            single,
            true,
        ).moved_vertically(single, false) == t,
        t.moved_to_edge(false).col == 0,
        t.moved_to_edge(true).col == t.lines[t.line].len(),
{
}

/// The keys do what they are for: by their effect on a single line and its caret.
pub proof fn law_keys_do_what_they_are_for(t: EditText, ctrl: bool)
    requires
        t.valid(),
        t.lines.len() == 1,
    ensures
        // return takes the text over and escape gives it up
        keyed(t, true, 0x0D, ctrl) == (t, KeyAction::Commit),
        keyed(t, true, 0x1B, ctrl).1 is Cancel,
        // backspace and delete take a character out, before the caret and behind it
        t.col > 0 ==> keyed(t, true, 0x08, ctrl).0.lines[0] =~= t.lines[0].take(t.col - 1) + t.lines[0].skip(t.col),
        t.col < t.lines[0].len() ==> keyed(t, true, 0x2E, ctrl).0.lines[0] =~= t.lines[0].take(t.col) + t.lines[0].skip(
            t.col + 1,
        ),
        // the arrows move the caret, home and end take it to the ends
        t.col > 0 ==> keyed(t, true, 0x25, false).0.col == t.col - 1,
        t.col < t.lines[0].len() ==> keyed(t, true, 0x27, false).0.col == t.col + 1,
        keyed(t, true, 0x24, ctrl).0.col == 0 && keyed(t, true, 0x25, true).0.col == 0,
        keyed(t, true, 0x23, ctrl).0.col == t.lines[0].len() && keyed(t, true, 0x27, true).0.col == t.lines[0].len(),
        // control and V pastes, and V alone is typed
        keyed(t, true, 0x56, true).1 is Paste,
        keyed(t, true, 0x56, false).1 is Ignore,
{
}

/// Typing the UTF-16 units of a character one after the other puts in that character: at once
/// where it is one unit, and with the second where it is two.
pub proof fn law_typed_units_give_character(c: char)
    requires
        c as int >= 32,
    ensures
        ({
            let u = crate::wide::utf16(seq![c]);
            &&& u.len() == 1 || u.len() == 2
            &&& u.len() == 1 ==> typed_text(None, u[0]) =~= seq![c] && kept_high(u[0]) is None
            &&& u.len() == 2 ==> typed_text(None, u[0]).len() == 0 && typed_text(kept_high(u[0]), u[1]) =~= seq![c]
                && kept_high(u[1]) is None
        }),
{
    reveal_with_fuel(crate::wide::utf16, 2);
}

/// No line of a text holds a line feed, and there is one line more than there are line feeds.
pub proof fn law_lines_hold_no_feed(s: Seq<char>, n: int)
    requires
        0 <= n <= s.len(),
    ensures
        lines_of(s, n).len() == 1 + s.take(n).filter(|c: char| c == '\n').len(),
        forall|k: int| 0 <= k < lines_of(s, n).len() ==> !(#[trigger] lines_of(s, n)[k]).contains('\n'),
    decreases n,
{
    reveal(Seq::filter);
    if n > 0 {
        law_lines_hold_no_feed(s, n - 1);
        let before = lines_of(s, n - 1);
        let now = lines_of(s, n);
        assert(s.take(n).drop_last() =~= s.take(n - 1));
        assert forall|k: int| 0 <= k < now.len() implies !(#[trigger] now[k]).contains('\n') by {
            if k < before.len() - 1 {
                assert(now[k] == before[k]);
            } else if k < before.len() {
                assert(!before[k].contains('\n'));
                let c = s[n - 1];
                if c != '\n' && now != before {
                    let w = before[k].push(c);
                    assert(now[k] == w);
                    if w.contains('\n') {
                        let j = choose|j: int| 0 <= j < w.len() && w[j] == '\n';
                        assert(before[k][j] == '\n');
                    }
                }
            }
        }
    } else {
        assert(s.take(0).filter(|c: char| c == '\n').len() == 0);
    }
}

/// A click into a text sets the caret before the character whose left half it hits, or behind
/// the one whose right half: no other place between two characters is nearer.
pub proof fn law_click_sets_nearest_caret(line: Seq<char>, font: i64, rel: i64)
    requires
        line.len() <= 0x1_0000,
        0 <= font <= 0x1_0000,
        0 <= rel,
    ensures
        ({
            let c = column_at(line, font, rel, 0, 0i64);
            let a = |k: int| text::units::<i64>(line.take(k)) * font;
            &&& 0 <= c <= line.len()
            &&& c < line.len() ==> rel <= a(c) + (a(c + 1) - a(c)) / 2
            &&& c > 0 ==> a(c - 1) + (a(c) - a(c - 1)) / 2 < rel
        }),
{
    text::law_widths_add_up(line.take(0), Seq::empty());
    assert(line.take(0).len() == 0);
    assert(0 * font == 0) by (nonlinear_arith);
    lemma_column(line, font, rel, 0, 0);
}

proof fn lemma_column(line: Seq<char>, font: i64, rel: i64, k: int, acc: i64)
    requires
        line.len() <= 0x1_0000,
        0 <= font <= 0x1_0000,
        0 <= k <= line.len(),
        acc == text::units::<i64>(line.take(k)) * font,
    ensures
        ({
            let c = column_at(line, font, rel, k, acc);
            let a = |k: int| text::units::<i64>(line.take(k)) * font;
            &&& k <= c <= line.len()
            &&& c < line.len() ==> rel <= a(c) + (a(c + 1) - a(c)) / 2
            &&& c > k ==> a(c - 1) + (a(c) - a(c - 1)) / 2 < rel
        }),
    decreases line.len() - k,
{
    if k < line.len() {
        assert(scalar::num::<i64>(2) == 2);
        let s = line.take(k);
        let t = line.take(k + 1);
        text::law_widths_add_up(s, Seq::empty());
        text::law_widths_add_up(t, Seq::empty());
        let u = text::units::<i64>(s);
        let v = text::units::<i64>(t);
        assert(0 <= u * font <= 0x1_0000 * 0x1_0000 && 0 <= v * font <= 0x1_0000 * 0x1_0000) by (nonlinear_arith)
            requires
                0 <= u <= 0x1_0000,
                0 <= v <= 0x1_0000,
                0 <= font <= 0x1_0000,
        ;
        assert(text::width_of(s, font) == u * font);
        assert(text::width_of(t, font) == v * font);
        let w = (v * font - u * font) as i64;
        assert(acc.add(w) == v * font);
        lemma_column(line, font, rel, k + 1, acc.add(w));
    }
}

} // verus!
