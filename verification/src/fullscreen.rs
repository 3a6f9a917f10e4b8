//! State of the full-screen terminal interface: transcript, input line,
//! status and scrolling. Drawing happens elsewhere.
use vstd::prelude::*;
use crate::text::{
    chars_of, concat, is_blank, is_blank_chars, lines, lines_of, owned, push_all, push_str,
    slice_chars, string_of, trim, trim_chars, views, words, words_of,
};

verus! {

/// What the header and footer show.
#[derive(Debug)]
pub struct FullscreenSnapshot {
    pub version: String,
    pub provider: String,
    pub model: String,
    pub effort: String,
    pub permissions: String,
    pub mode: String,
    pub workspace: String,
    pub branch: String,
    pub repo_state: String,
    pub session: String,
    pub context_files: usize,
}

/// What the user asked for at the input line.
#[derive(Debug, PartialEq, Eq)]
pub enum FullscreenInput {
    Submit(String),
    Exit,
}

/// The keys the interface reacts to.
#[derive(Debug, Clone, Copy, PartialEq, Eq, Structural)]
pub enum KeyCode {
    Char(char),
    Backspace,
    Delete,
    Left,
    Right,
    Home,
    End,
    Esc,
    Enter,
    PageUp,
    PageDown,
    Up,
    Down,
    Other,
}

/// One key press: the key and whether Control was held.
#[derive(Debug, Clone, Copy, PartialEq, Eq, Structural)]
pub struct KeyPress {
    pub code: KeyCode,
    pub control: bool,
}

/// One transcript entry.
#[derive(Debug)]
pub struct TranscriptEntry {
    pub role: &'static str,
    pub content: String,
}

/// The editable input line: its characters and the cursor position.
#[derive(Debug)]
pub struct InputBuffer {
    pub chars: Vec<char>,
    pub cursor: usize,
}

/// Views of the input-line operations.
pub open spec fn buffer_insert(s: (Seq<char>, nat), c: char) -> (Seq<char>, nat) {
    (s.0.insert(s.1 as int, c), s.1 + 1)
}

pub open spec fn buffer_backspace(s: (Seq<char>, nat)) -> (Seq<char>, nat) {
    if s.1 > 0 {
        (s.0.remove(s.1 - 1), (s.1 - 1) as nat)
    } else {
        s
    }
}

pub open spec fn buffer_delete(s: (Seq<char>, nat)) -> (Seq<char>, nat) {
    if s.1 < s.0.len() {
        (s.0.remove(s.1 as int), s.1)
    } else {
        s
    }
}

impl Default for InputBuffer {
    fn default() -> (r: InputBuffer)
        ensures
            r.wf(),
            r.view() == (Seq::<char>::empty(), 0nat),
    {
        InputBuffer::new()
    }
}

impl InputBuffer {
    pub open spec fn view(&self) -> (Seq<char>, nat) {
        (self.chars@, self.cursor as nat)
    }

    /// The cursor lies within the text.
    pub open spec fn wf(&self) -> bool {
        self.cursor <= self.chars@.len()
    }

    pub fn new() -> (r: InputBuffer)
        ensures
            r.wf(),
            r.view() == (Seq::<char>::empty(), 0nat),
    {
        InputBuffer { chars: Vec::new(), cursor: 0 }
    }

    pub fn value(&self) -> (r: String)
        ensures
            r@ == self.chars@,
    {
        string_of(&self.chars)
    }

    pub fn is_empty(&self) -> (r: bool)
        ensures
            r == (self.chars@.len() == 0),
    {
        self.chars.len() == 0
    }

    pub fn clear(&mut self)
        ensures
            final(self).wf(),
            final(self).view() == (Seq::<char>::empty(), 0nat),
    {
        self.chars.clear();
        self.cursor = 0;
    }

    /// Inserts a character at the cursor and moves the cursor past it.
    pub fn insert(&mut self, ch: char)
        requires
            old(self).wf(),
        ensures
            final(self).wf(),
            final(self).view() == buffer_insert(old(self).view(), ch),
    {
        self.chars.insert(self.cursor, ch);
        assert(self.cursor < self.chars.len());
        self.cursor = self.cursor + 1;
    }

    /// Removes the character before the cursor.
    pub fn backspace(&mut self)
        requires
            old(self).wf(),
        ensures
            final(self).wf(),
            final(self).view() == buffer_backspace(old(self).view()),
    {
        if self.cursor > 0 {
            self.cursor = self.cursor - 1;
            self.chars.remove(self.cursor);
        }
    }

    /// Removes the character at the cursor.
    pub fn delete(&mut self)
        requires
            old(self).wf(),
        ensures
            final(self).wf(),
            final(self).view() == buffer_delete(old(self).view()),
    {
        if self.cursor < self.chars.len() {
            self.chars.remove(self.cursor);
        }
    }

    pub fn move_left(&mut self)
        requires
            old(self).wf(),
        ensures
            final(self).wf(),
            final(self).chars@ == old(self).chars@,
            final(self).cursor == if old(self).cursor > 0 {
                (old(self).cursor - 1) as usize
            } else {
                0
            },
    {
        self.cursor = if self.cursor > 0 {
            self.cursor - 1
        } else {
            0
        };
    }

    pub fn move_right(&mut self)
        requires
            old(self).wf(),
        ensures
            final(self).wf(),
            final(self).chars@ == old(self).chars@,
            final(self).cursor == if old(self).cursor < old(self).chars@.len() {
                old(self).cursor + 1
            } else {
                old(self).chars@.len() as int
            },
    {
        self.cursor = if self.cursor < self.chars.len() {
            self.cursor + 1
        } else {
            self.chars.len()
        };
    }

    pub fn move_home(&mut self)
        requires
            old(self).wf(),
        ensures
            final(self).wf(),
            final(self).chars@ == old(self).chars@,
            final(self).cursor == 0,
    {
        self.cursor = 0;
    }

    pub fn move_end(&mut self)
        requires
            old(self).wf(),
        ensures
            final(self).wf(),
            final(self).chars@ == old(self).chars@,
            final(self).cursor == old(self).chars@.len(),
    {
        self.cursor = self.chars.len();
    }
}

/// Inserting a character and then erasing it restores the input line.
pub proof fn law_insert_then_backspace(s: (Seq<char>, nat), c: char)
    requires
        s.1 <= s.0.len(),
    ensures
        buffer_backspace(buffer_insert(s, c)) == s,
{
    assert(s.0.insert(s.1 as int, c).remove(s.1 as int) =~= s.0);
}

/// The column of the cursor on screen: two columns in, within the width.
pub open spec fn cursor_column(cursor: nat, width: u16) -> u16 {
    let max_x: int = if width >= 1 {
        width - 1
    } else {
        0
    };
    let x: int = 2 + (cursor % 65536) as int;
    if x < max_x {
        x as u16
    } else {
        max_x as u16
    }
}

pub fn cursor_x(input: &InputBuffer, width: u16) -> (r: u16)
    requires
        input.cursor % 65536 + 2 <= u16::MAX,
    ensures
        r == cursor_column(input.cursor as nat, width),
{
    let max_x: u16 = if width >= 1 {
        width - 1
    } else {
        0
    };
    let c: u16 = (input.cursor % 65536) as u16;
    let x: u16 = 2 + c;
    if x < max_x {
        x
    } else {
        max_x
    }
}

/// The first `width` characters.
pub fn truncate_to_width(value: &str, width: usize) -> (r: String)
    ensures
        r@ == value@.take(if width <= value@.len() {
            width as int
        } else {
            value@.len() as int
        }),
{
    let v = chars_of(value);
    let n = if width <= v.len() {
        width
    } else {
        v.len()
    };
    let t = slice_chars(&v, 0, n);
    assert(t@ =~= v@.take(n as int));
    string_of(&t)
}

/// `value` cut or padded with spaces to exactly `width` characters.
pub open spec fn filled(value: Seq<char>, width: nat) -> Seq<char> {
    if value.len() >= width {
        value.take(width as int)
    } else {
        value + Seq::new((width - value.len()) as nat, |_i: int| ' ')
    }
}

pub fn fill_line(value: &str, width: u16) -> (r: String)
    ensures
        r@ == filled(value@, width as nat),
{
    let v = chars_of(value);
    let w = width as usize;
    if v.len() >= w {
        let t = slice_chars(&v, 0, w);
        assert(t@ =~= v@.take(w as int));
        string_of(&t)
    } else {
        let mut t = v.clone();
        let ghost base = v@;
        assert(t@ == base);
        let mut i: usize = v.len();
        while i < w
            invariant
                v.len() <= i <= w,
                base == v@,
                t@ == base + Seq::new((i - v.len()) as nat, |_i: int| ' '),
            decreases w - i,
        {
            t.push(' ');
            i = i + 1;
            assert(t@ =~= base + Seq::new((i - v.len()) as nat, |_i: int| ' '));
        }
        string_of(&t)
    }
}

// ---------------------------------------------------------------------------
// Word wrapping
// ---------------------------------------------------------------------------

/// One greedy wrapping step: emitted lines and the line being filled.
pub open spec fn wrap_step(state: (Seq<Seq<char>>, Seq<char>), word: Seq<char>, width: nat) -> (
    Seq<Seq<char>>,
    Seq<char>,
) {
    let (out, current) = state;
    let needs_space: nat = if current.len() > 0 {
        1
    } else {
        0
    };
    if current.len() + word.len() + needs_space > width && current.len() > 0 {
        (out.push(current), word)
    } else if current.len() > 0 {
        (out, current + seq![' '] + word)
    } else {
        (out, current + word)
    }
}

pub open spec fn wrap_fold(ws: Seq<Seq<char>>, width: nat) -> (Seq<Seq<char>>, Seq<char>)
    decreases ws.len(),
{
    if ws.len() == 0 {
        (seq![], seq![])
    } else {
        wrap_step(wrap_fold(ws.drop_last(), width), ws.last(), width)
    }
}

/// The wrapped lines of one input line.
pub open spec fn wrap_line(line: Seq<char>, width: nat) -> Seq<Seq<char>> {
    let (out, current) = wrap_fold(words(line), width);
    out.push(current)
}

pub open spec fn wrap_lines(ls: Seq<Seq<char>>, width: nat) -> Seq<Seq<char>>
    decreases ls.len(),
{
    if ls.len() == 0 {
        seq![]
    } else {
        wrap_lines(ls.drop_last(), width) + wrap_line(ls.last(), width)
    }
}

/// Greedy word wrapping of every line of `value` to `width` columns (at
/// least one); a word longer than the width stands on a line of its own.
pub open spec fn wrapped(value: Seq<char>, width: nat) -> Seq<Seq<char>> {
    let w: nat = if width >= 1 {
        width
    } else {
        1
    };
    let out = wrap_lines(lines(value), w);
    if out.len() == 0 {
        seq![seq![]]
    } else {
        out
    }
}

/// A wrapped line fits `width`, or is one of the words it was made from.
pub open spec fn fits_or_word(l: Seq<char>, width: nat, ws: Seq<Seq<char>>) -> bool {
    l.len() <= width || exists|j: int| 0 <= j < ws.len() && l == #[trigger] ws[j]
}

proof fn lemma_fold_fits(ws: Seq<Seq<char>>, width: nat)
    ensures
        forall|k: int| 0 <= k < wrap_fold(ws, width).0.len() ==> fits_or_word(#[trigger] wrap_fold(ws, width).0[k], width, ws),
        fits_or_word(wrap_fold(ws, width).1, width, ws),
    decreases ws.len(),
{
    if ws.len() > 0 {
        let prev = ws.drop_last();
        lemma_fold_fits(prev, width);
        let (out, current) = wrap_fold(prev, width);
        assert forall|l: Seq<char>| fits_or_word(l, width, prev) implies fits_or_word(l, width, ws) by {
            if l.len() > width {
                let j = choose|j: int| 0 <= j < prev.len() && l == #[trigger] prev[j];
                assert(ws[j] == prev[j]);
            }
        }
        assert(ws[ws.len() - 1] == ws.last());
        let r = wrap_fold(ws, width);
        assert forall|k: int| 0 <= k < r.0.len() implies fits_or_word(#[trigger] r.0[k], width, ws) by {
            if k < out.len() {
                assert(r.0[k] == out[k]);
                assert(fits_or_word(out[k], width, prev));
            } else {
                assert(r.0[k] == current);
            }
        }
    }
}

proof fn lemma_lines_fit(ls: Seq<Seq<char>>, width: nat)
    ensures
        forall|k: int|
            0 <= k < wrap_lines(ls, width).len() ==> (#[trigger] wrap_lines(ls, width)[k]).len() <= width
                || exists|i: int, j: int|
                0 <= i < ls.len() && 0 <= j < words(ls[i]).len() && wrap_lines(ls, width)[k] == words(ls[i])[j],
    decreases ls.len(),
{
    if ls.len() > 0 {
        let prev = ls.drop_last();
        lemma_lines_fit(prev, width);
        let last = ls.last();
        lemma_fold_fits(words(last), width);
        let a = wrap_lines(prev, width);
        let b = wrap_line(last, width);
        assert(wrap_lines(ls, width) == a + b);
        assert forall|k: int| 0 <= k < (a + b).len() implies (#[trigger] (a + b)[k]).len() <= width || exists|i: int, j: int|
            0 <= i < ls.len() && 0 <= j < words(ls[i]).len() && (a + b)[k] == words(ls[i])[j] by {
            if k < a.len() {
                assert((a + b)[k] == a[k]);
                if a[k].len() > width {
                    let (i, j) = choose|i: int, j: int|
                        0 <= i < prev.len() && 0 <= j < words(prev[i]).len() && a[k] == words(prev[i])[j];
                    assert(ls[i] == prev[i]);
                }
            } else {
                let m = k - a.len();
                assert((a + b)[k] == b[m]);
                let f = wrap_fold(words(last), width);
                assert(b == f.0.push(f.1));
                let l = b[m];
                if m < f.0.len() {
                    assert(l == f.0[m]);
                    assert(fits_or_word(f.0[m], width, words(last)));
                } else {
                    assert(l == f.1);
                }
                if l.len() > width {
                    let j = choose|j: int| 0 <= j < words(last).len() && l == #[trigger] words(last)[j];
                    assert(ls[ls.len() - 1] == last);
                    assert(0 <= ls.len() - 1 < ls.len() && 0 <= j < words(ls[ls.len() - 1]).len() && (a + b)[k]
                        == words(ls[ls.len() - 1])[j]);
                }
            }
        }
    }
}

/// Every wrapped line fits the width (at least one column), unless it is a
/// single word of the text that is wider than that.
pub proof fn lemma_wrapped_lines_fit(value: Seq<char>, width: nat)
    ensures
        forall|k: int|
            0 <= k < wrapped(value, width).len() ==> (#[trigger] wrapped(value, width)[k]).len() <= (if width
                >= 1 {
                width
            } else {
                1
            }) || exists|i: int, j: int|
                0 <= i < lines(value).len() && 0 <= j < words(lines(value)[i]).len() && wrapped(value, width)[k]
                    == words(lines(value)[i])[j],
{
    let w: nat = if width >= 1 {
        width
    } else {
        1
    };
    lemma_lines_fit(lines(value), w);
}

pub open spec fn string_views(v: Seq<String>) -> Seq<Seq<char>> {
    v.map_values(|s: String| s@)
}

fn wrap_line_exec(line: &Vec<char>, width: usize) -> (r: Vec<Vec<char>>)
    ensures
        views(r@) == wrap_line(line@, width as nat),
{
    let ws = words_of(line);
    let ghost wv = views(ws@);
    let mut out: Vec<Vec<char>> = Vec::new();
    let mut current: Vec<char> = Vec::new();
    let mut i: usize = 0;
    while i < ws.len()
        invariant
            i <= ws.len(),
            wv == views(ws@),
            wv == words(line@),
            wrap_fold(wv.take(i as int), width as nat) == (views(out@), current@),
        decreases ws.len() - i,
    {
        let word = &ws[i];
        assert(wv.take(i + 1).drop_last() =~= wv.take(i as int));
        assert(wv[i as int] == word@);
        let needs_space: usize = if current.len() > 0 {
            1
        } else {
            0
        };
        let ghost old_out = views(out@);
        let ghost old_cur = current@;
        if current.len() as u128 + word.len() as u128 + needs_space as u128 > width as u128
            && current.len() > 0 {
            out.push(current);
            assert(views(out@) =~= old_out.push(old_cur));
            current = word.clone();
        } else {
            if current.len() > 0 {
                current.push(' ');
            }
            push_all(&mut current, word);
        }
        i = i + 1;
    }
    assert(wv.take(ws.len() as int) =~= wv);
    let ghost old_out = views(out@);
    out.push(current);
    assert(views(out@) =~= old_out.push(current@));
    out
}

/// Wraps text to a width, word by word.
pub fn wrap_text(value: &str, width: usize) -> (r: Vec<String>)
    ensures
        string_views(r@) == wrapped(value@, width as nat),
{
    let w = if width >= 1 {
        width
    } else {
        1
    };
    let all = lines_of(&chars_of(value));
    let ghost lv = views(all@);
    let mut out: Vec<Vec<char>> = Vec::new();
    let mut i: usize = 0;
    while i < all.len()
        invariant
            i <= all.len(),
            lv == views(all@),
            lv == lines(value@),
            views(out@) == wrap_lines(lv.take(i as int), w as nat),
        decreases all.len() - i,
    {
        assert(lv.take(i + 1).drop_last() =~= lv.take(i as int));
        let wl = wrap_line_exec(&all[i], w);
        let mut k: usize = 0;
        let ghost base = views(out@);
        while k < wl.len()
            invariant
                k <= wl.len(),
                views(out@) == base + views(wl@).take(k as int),
            decreases wl.len() - k,
        {
            let ghost prev = views(out@);
            let line = slice_chars(&wl[k], 0, wl[k].len());
            assert(line@ =~= wl@[k as int]@);
            out.push(line);
            assert(views(out@) =~= prev.push(wl@[k as int]@));
            assert(views(wl@).take(k + 1) =~= views(wl@).take(k as int).push(wl@[k as int]@));
            k = k + 1;
            assert(views(out@) =~= base + views(wl@).take(k as int));
        }
        assert(views(wl@).take(wl.len() as int) =~= views(wl@));
        i = i + 1;
    }
    assert(lv.take(all.len() as int) =~= lv);
    if out.len() == 0 {
        out.push(Vec::new());
        assert(views(out@) =~= seq![seq![]]);
    }
    let mut r: Vec<String> = Vec::new();
    let mut k: usize = 0;
    while k < out.len()
        invariant
            k <= out.len(),
            string_views(r@) == views(out@).take(k as int),
        decreases out.len() - k,
    {
        let ghost prev = string_views(r@);
        r.push(string_of(&out[k]));
        assert(string_views(r@) =~= prev.push(out@[k as int]@));
        assert(views(out@).take(k + 1) =~= views(out@).take(k as int).push(out@[k as int]@));
        k = k + 1;
        assert(string_views(r@) =~= views(out@).take(k as int));
    }
    assert(views(out@).take(out.len() as int) =~= views(out@));
    r
}

/// The full-screen interface state.
#[derive(Debug)]
pub struct FullscreenUi {
    pub entries: Vec<TranscriptEntry>,
    pub input: InputBuffer,
    pub status: String,
    pub scroll: usize,
    pub active: bool,
}

pub open spec fn entry_view(e: TranscriptEntry) -> (Seq<char>, Seq<char>) {
    (e.role@, e.content@)
}

pub open spec fn entries_view(es: Seq<TranscriptEntry>) -> Seq<(Seq<char>, Seq<char>)> {
    es.map_values(|e: TranscriptEntry| entry_view(e))
}

/// `n + k`, stopping at `usize::MAX`.
pub open spec fn sat_add(n: usize, k: usize) -> usize {
    if n + k > usize::MAX {
        usize::MAX
    } else {
        (n + k) as usize
    }
}

/// `n - k`, stopping at 0.
pub open spec fn sat_sub(n: usize, k: usize) -> usize {
    if n >= k {
        (n - k) as usize
    } else {
        0
    }
}

impl FullscreenUi {
    pub open spec fn wf(&self) -> bool {
        self.input.wf()
    }

    /// A fresh interface: no entries, an empty input line, status `idle`.
    pub fn new() -> (r: FullscreenUi)
        ensures
            r.wf(),
            r.entries@.len() == 0,
            r.input.view() == (Seq::<char>::empty(), 0nat),
            r.status@ == "idle"@,
            r.scroll == 0,
            r.active,
    {
        FullscreenUi {
            entries: Vec::new(),
            input: InputBuffer::new(),
            status: owned("idle"),
            scroll: 0,
            active: true,
        }
    }

    /// Adds an entry unless its content is blank; a new entry scrolls to the bottom.
    fn push(&mut self, role: &'static str, value: String)
        ensures
            final(self).input == old(self).input,
            final(self).status == old(self).status,
            final(self).active == old(self).active,
            if is_blank(value@) {
                final(self).entries@ == old(self).entries@ && final(self).scroll == old(self).scroll
            } else {
                &&& entries_view(final(self).entries@) == entries_view(old(self).entries@).push(
                    (role@, value@),
                )
                &&& final(self).scroll == 0
            },
    {
        let v = chars_of(value.as_str());
        if !is_blank_chars(&v) {
            let ghost before = entries_view(self.entries@);
            self.entries.push(TranscriptEntry { role, content: value });
            assert(entries_view(self.entries@) =~= before.push((role@, v@)));
            self.scroll = 0;
        }
    }

    pub fn push_user(&mut self, value: String)
        ensures
            final(self).input == old(self).input,
            final(self).status == old(self).status,
            final(self).active == old(self).active,
            if is_blank(value@) {
                final(self).entries@ == old(self).entries@ && final(self).scroll == old(self).scroll
            } else {
                &&& entries_view(final(self).entries@) == entries_view(old(self).entries@).push(
                    ("user"@, value@),
                )
                &&& final(self).scroll == 0
            },
    {
        self.push("user", value);
    }

    pub fn push_assistant(&mut self, value: String)
        ensures
            final(self).input == old(self).input,
            final(self).status == old(self).status,
            final(self).active == old(self).active,
            if is_blank(value@) {
                final(self).entries@ == old(self).entries@ && final(self).scroll == old(self).scroll
            } else {
                &&& entries_view(final(self).entries@) == entries_view(old(self).entries@).push(
                    ("assistant"@, value@),
                )
                &&& final(self).scroll == 0
            },
    {
        self.push("assistant", value);
    }

    pub fn push_system(&mut self, value: String)
        ensures
            final(self).input == old(self).input,
            final(self).status == old(self).status,
            final(self).active == old(self).active,
            if is_blank(value@) {
                final(self).entries@ == old(self).entries@ && final(self).scroll == old(self).scroll
            } else {
                &&& entries_view(final(self).entries@) == entries_view(old(self).entries@).push(
                    ("system"@, value@),
                )
                &&& final(self).scroll == 0
            },
    {
        self.push("system", value);
    }

    pub fn clear_entries(&mut self)
        ensures
            final(self).entries@.len() == 0,
            final(self).scroll == 0,
            final(self).input == old(self).input,
            final(self).status == old(self).status,
            final(self).active == old(self).active,
    {
        self.entries.clear();
        self.scroll = 0;
    }

    pub fn set_status(&mut self, value: String)
        ensures
            final(self).status == value,
            final(self).entries == old(self).entries,
            final(self).input == old(self).input,
            final(self).scroll == old(self).scroll,
            final(self).active == old(self).active,
    {
        self.status = value;
    }

    /// Applies one key press. Ctrl+C exits; characters and editing keys change
    /// the input line; Esc clears a non-empty line or exits on an empty one;
    /// Enter submits the trimmed line unless it is blank; page and arrow keys
    /// scroll the transcript by eight and one lines.
    pub fn handle_key(&mut self, key: KeyPress) -> (r: Option<FullscreenInput>)
        requires
            old(self).wf(),
        ensures
            final(self).wf(),
            final(self).entries == old(self).entries,
            final(self).status == old(self).status,
            final(self).active == old(self).active,
            match key.code {
                KeyCode::Char(c) => if key.control && c == 'c' {
                    r == Some(FullscreenInput::Exit) && final(self).input == old(self).input
                        && final(self).scroll == old(self).scroll
                } else {
                    r is None && final(self).input.view() == buffer_insert(old(self).input.view(), c)
                        && final(self).scroll == old(self).scroll
                },
                KeyCode::Backspace => r is None && final(self).input.view() == buffer_backspace(
                    old(self).input.view(),
                ) && final(self).scroll == old(self).scroll,
                KeyCode::Delete => r is None && final(self).input.view() == buffer_delete(
                    old(self).input.view(),
                ) && final(self).scroll == old(self).scroll,
                KeyCode::Left => r is None && final(self).input.chars@ == old(self).input.chars@
                    && final(self).input.cursor == sat_sub(old(self).input.cursor, 1)
                    && final(self).scroll == old(self).scroll,
                KeyCode::Right => r is None && final(self).input.chars@ == old(self).input.chars@
                    && final(self).input.cursor == (if old(self).input.cursor
                    < old(self).input.chars@.len() {
                    old(self).input.cursor + 1
                } else {
                    old(self).input.chars@.len() as int
                }) && final(self).scroll == old(self).scroll,
                KeyCode::Home => r is None && final(self).input.chars@ == old(self).input.chars@
                    && final(self).input.cursor == 0 && final(self).scroll == old(self).scroll,
                KeyCode::End => r is None && final(self).input.chars@ == old(self).input.chars@
                    && final(self).input.cursor == old(self).input.chars@.len()
                    && final(self).scroll == old(self).scroll,
                KeyCode::Esc => final(self).scroll == old(self).scroll && if old(
                    self,
                ).input.chars@.len() == 0 {
                    r == Some(FullscreenInput::Exit) && final(self).input == old(self).input
                } else {
                    r is None && final(self).input.view() == (Seq::<char>::empty(), 0nat)
                },
                KeyCode::Enter => final(self).input == old(self).input && final(self).scroll == old(
                    self,
                ).scroll && if is_blank(old(self).input.chars@) {
                    r is None
                } else {
                    r matches Some(FullscreenInput::Submit(v)) && v@ == trim(old(self).input.chars@)
                },
                KeyCode::PageUp => r is None && final(self).input == old(self).input
                    && final(self).scroll == sat_add(old(self).scroll, 8),
                KeyCode::PageDown => r is None && final(self).input == old(self).input
                    && final(self).scroll == sat_sub(old(self).scroll, 8),
                KeyCode::Up => r is None && final(self).input == old(self).input
                    && final(self).scroll == sat_add(old(self).scroll, 1),
                KeyCode::Down => r is None && final(self).input == old(self).input
                    && final(self).scroll == sat_sub(old(self).scroll, 1),
                KeyCode::Other => r is None && final(self).input == old(self).input
                    && final(self).scroll == old(self).scroll,
            },
    {
        match key.code {
            KeyCode::Char(c) => {
                if key.control && c == 'c' {
                    Some(FullscreenInput::Exit)
                } else {
                    self.input.insert(c);
                    None
                }
            },
            KeyCode::Backspace => {
                self.input.backspace();
                None
            },
            KeyCode::Delete => {
                self.input.delete();
                None
            },
            KeyCode::Left => {
                self.input.move_left();
                None
            },
            KeyCode::Right => {
                self.input.move_right();
                None
            },
            KeyCode::Home => {
                self.input.move_home();
                None
            },
            KeyCode::End => {
                self.input.move_end();
                None
            },
            KeyCode::Esc => {
                if self.input.is_empty() {
                    Some(FullscreenInput::Exit)
                } else {
                    self.input.clear();
                    None
                }
            },
            KeyCode::Enter => {
                let value = trim_chars(&self.input.chars);
                proof {
                    crate::text::lemma_trim_empty(self.input.chars@);
                    crate::text::lemma_trim_start_empty(self.input.chars@);
                }
                if value.len() == 0 {
                    None
                } else {
                    Some(FullscreenInput::Submit(string_of(&value)))
                }
            },
            KeyCode::PageUp => {
                self.scroll = if self.scroll > usize::MAX - 8 {
                    usize::MAX
                } else {
                    self.scroll + 8
                };
                None
            },
            KeyCode::PageDown => {
                self.scroll = if self.scroll >= 8 {
                    self.scroll - 8
                } else {
                    0
                };
                None
            },
            KeyCode::Up => {
                self.scroll = if self.scroll == usize::MAX {
                    usize::MAX
                } else {
                    self.scroll + 1
                };
                None
            },
            KeyCode::Down => {
                self.scroll = if self.scroll >= 1 {
                    self.scroll - 1
                } else {
                    0
                };
                None
            },
            KeyCode::Other => None,
        }
    }

    /// The transcript as display lines wrapped to `width`.
    pub fn transcript_lines(&self, width: usize) -> (r: Vec<String>)
        ensures
            string_views(r@) == transcript_text(entries_view(self.entries@), width as nat),
    {
        if self.entries.len() == 0 {
            let mut r: Vec<String> = Vec::new();
            r.push(owned("system  Ready. Type /help for commands, /exit to quit, Ctrl+C to leave."));
            assert(string_views(r@) =~= transcript_text(entries_view(self.entries@), width as nat));
            return r;
        }
        let ghost ev = entries_view(self.entries@);
        let mut out: Vec<String> = Vec::new();
        let mut i: usize = 0;
        while i < self.entries.len()
            invariant
                i <= self.entries@.len(),
                ev == entries_view(self.entries@),
                ev.len() > 0,
                string_views(out@) == entry_lines_all(ev.take(i as int), width as nat),
            decreases self.entries.len() - i,
        {
            assert(ev.take(i + 1).drop_last() =~= ev.take(i as int));
            let entry = &self.entries[i];
            let role = chars_of(entry.role);
            let prefix = pad_right(&role, 9);
            let wrap_width = if width >= prefix.len() && width - prefix.len() >= 16 {
                width - prefix.len()
            } else {
                16
            };
            let wrapped_lines = wrap_text(entry.content.as_str(), wrap_width);
            let blank = pad_right(&Vec::new(), 9);
            let ghost base = string_views(out@);
            let mut k: usize = 0;
            while k < wrapped_lines.len()
                invariant
                    k <= wrapped_lines.len(),
                    string_views(out@) == base + prefixed(
                        string_views(wrapped_lines@).take(k as int),
                        prefix@,
                        blank@,
                    ),
                decreases wrapped_lines.len() - k,
            {
                let lead = if k == 0 {
                    &prefix
                } else {
                    &blank
                };
                let line = concat(lead, &chars_of(wrapped_lines[k].as_str()));
                let ghost prev = string_views(out@);
                out.push(string_of(&line));
                assert(string_views(out@) =~= prev.push(line@));
                assert(string_views(wrapped_lines@).take(k + 1).drop_last() =~= string_views(
                    wrapped_lines@,
                ).take(k as int));
                k = k + 1;
            }
            assert(string_views(wrapped_lines@).take(wrapped_lines.len() as int) =~= string_views(
                wrapped_lines@,
            ));
            let ghost prev = string_views(out@);
            out.push(String::new());
            assert(string_views(out@) =~= prev.push(seq![]));
            i = i + 1;
        }
        assert(ev.take(self.entries.len() as int) =~= ev);
        out
    }
}

/// `s` padded with spaces on the right to at least `n` characters.
pub open spec fn padded(s: Seq<char>, n: nat) -> Seq<char> {
    if s.len() >= n {
        s
    } else {
        s + Seq::new((n - s.len()) as nat, |_i: int| ' ')
    }
}

pub fn pad_right(s: &Vec<char>, n: usize) -> (r: Vec<char>)
    ensures
        r@ == padded(s@, n as nat),
{
    let mut r = slice_chars(s, 0, s.len());
    assert(r@ =~= s@);
    let ghost base = s@;
    let mut i = s.len();
    while i < n
        invariant
            s.len() <= i <= n || (s.len() >= n && i == s.len()),
            base == s@,
            r@ == base + Seq::new((i - s.len()) as nat, |_i: int| ' '),
        decreases n - i,
    {
        r.push(' ');
        i = i + 1;
        assert(r@ =~= base + Seq::new((i - s.len()) as nat, |_i: int| ' '));
    }
    if s.len() >= n {
        assert(r@ =~= s@);
    }
    r
}

/// Wrapped lines, the first after `first` and the others after `rest`.
pub open spec fn prefixed(ls: Seq<Seq<char>>, first: Seq<char>, rest: Seq<char>) -> Seq<Seq<char>>
    decreases ls.len(),
{
    if ls.len() == 0 {
        seq![]
    } else if ls.len() == 1 {
        seq![first + ls[0]]
    } else {
        prefixed(ls.drop_last(), first, rest).push(rest + ls.last())
    }
}

/// The display lines of one entry: its role padded to nine columns before
/// the first wrapped line, nine spaces before the others, then a blank line.
pub open spec fn entry_lines(role: Seq<char>, content: Seq<char>, width: nat) -> Seq<Seq<char>> {
    let prefix = padded(role, 9);
    let w: nat = if width >= prefix.len() && width - prefix.len() >= 16 {
        (width - prefix.len()) as nat
    } else {
        16
    };
    prefixed(wrapped(content, w), prefix, padded(seq![], 9)).push(seq![])
}

pub open spec fn entry_lines_all(es: Seq<(Seq<char>, Seq<char>)>, width: nat) -> Seq<Seq<char>>
    decreases es.len(),
{
    if es.len() == 0 {
        seq![]
    } else {
        entry_lines_all(es.drop_last(), width) + entry_lines(es.last().0, es.last().1, width)
    }
}

/// The transcript display: a ready message when empty, else every entry's lines.
pub open spec fn transcript_text(es: Seq<(Seq<char>, Seq<char>)>, width: nat) -> Seq<Seq<char>> {
    if es.len() == 0 {
        seq!["system  Ready. Type /help for commands, /exit to quit, Ctrl+C to leave."@]
    } else {
        entry_lines_all(es, width)
    }
}

/// The rows of a transcript of `total` lines shown in `visible` rows when
/// scrolled `scroll` lines up from the bottom.
pub fn visible_range(total: usize, scroll: usize, visible: usize) -> (r: (usize, usize))
    ensures
        r.1 == sat_sub(total, scroll),
        r.0 == sat_sub(r.1, visible),
        r.0 <= r.1 <= total,
{
    let end = if total >= scroll {
        total - scroll
    } else {
        0
    };
    let start = if end >= visible {
        end - visible
    } else {
        0
    };
    (start, end)
}

} // verus!
