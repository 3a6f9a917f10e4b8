//! Exact search/replace edits and a guarded unified-diff subset.
use vstd::prelude::*;
use crate::text::{
    chars_of, concat, contains, contains_chars, decimal, find, find_chars, join, join_chars, lines,
    lines_of, push_all, push_str, slice_chars, starts_with, starts_with_str, string_of, usize_to_chars,
    views,
};

verus! {

/// Why an edit or a patch could not be applied.
#[derive(Debug, Clone, Copy, PartialEq, Eq, Structural)]
pub enum EditError {
    MissingOld,
    MissingNew,
    OldNotFound,
    NoHunks,
    HunkContextNotFound,
}

impl EditError {
    pub open spec fn text(self) -> Seq<char> {
        match self {
            EditError::MissingOld => "missing `old` text or `patch`"@,
            EditError::MissingNew => "missing `new` text"@,
            EditError::OldNotFound => "old text was not found"@,
            EditError::NoHunks => "patch did not contain any hunks"@,
            EditError::HunkContextNotFound => "patch hunk context was not found"@,
        }
    }

    /// The message the error is reported with.
    pub fn message(&self) -> (r: &'static str)
        ensures
            r@ == self.text(),
    {
        match self {
            EditError::MissingOld => "missing `old` text or `patch`",
            EditError::MissingNew => "missing `new` text",
            EditError::OldNotFound => "old text was not found",
            EditError::NoHunks => "patch did not contain any hunks",
            EditError::HunkContextNotFound => "patch hunk context was not found",
        }
    }
}

/// `s` with its first occurrence of `old` replaced by `new` (`str::replacen(old, new, 1)`).
pub open spec fn replace_first(s: Seq<char>, old: Seq<char>, new: Seq<char>) -> Seq<char> {
    match find(s, old) {
        Some(i) => s.take(i) + new + s.skip(i + old.len()),
        None => s,
    }
}

pub fn replace_first_exec(s: &Vec<char>, old: &Vec<char>, new: &Vec<char>) -> (r: Vec<char>)
    ensures
        r@ == replace_first(s@, old@, new@),
{
    match find_chars(s, old) {
        Some(i) => {
            proof {
                crate::text::lemma_find_from(s@, old@, 0);
                assert(find(s@, old@) == Some(i as int));
                assert(crate::text::matches_at(s@, old@, i as int));
            }
            let mut r = slice_chars(s, 0, i);
            push_all(&mut r, new);
            let rest = slice_chars(s, i + old.len(), s.len());
            push_all(&mut r, &rest);
            assert(s@.take(i as int) =~= s@.subrange(0, i as int));
            assert(s@.skip(i + old.len()) =~= s@.subrange(i + old.len(), s.len() as int));
            r
        },
        None => s.clone(),
    }
}

/// What [`apply_edit`] gives for an exact search/replace edit.
pub open spec fn edit_result(original: Seq<char>, old: Option<Seq<char>>, new: Option<Seq<char>>) -> Result<
    Seq<char>,
    EditError,
> {
    match old {
        None => Err(EditError::MissingOld),
        Some(o) => match new {
            None => Err(EditError::MissingNew),
            Some(n) => if contains(original, o) {
                Ok(replace_first(original, o, n))
            } else {
                Err(EditError::OldNotFound)
            },
        },
    }
}

pub open spec fn opt_view(o: Option<&str>) -> Option<Seq<char>> {
    match o {
        Some(s) => Some(s@),
        None => None,
    }
}

pub open spec fn result_view(r: Result<String, EditError>) -> Result<Seq<char>, EditError> {
    match r {
        Ok(s) => Ok(s@),
        Err(e) => Err(e),
    }
}

/// Applies an edit: the unified patch when one is given, otherwise the
/// replacement of the first occurrence of `old` by `new`.
pub fn apply_edit(original: &str, old: Option<&str>, new: Option<&str>, patch: Option<&str>) -> (r:
    Result<String, EditError>)
    ensures
        result_view(r) == match patch {
            Some(p) => patch_result(original@, p@),
            None => edit_result(original@, opt_view(old), opt_view(new)),
        },
{
    if let Some(patch) = patch {
        return apply_unified_patch(original, patch);
    }
    let old = match old {
        Some(o) => o,
        None => return Err(EditError::MissingOld),
    };
    let new = match new {
        Some(n) => n,
        None => return Err(EditError::MissingNew),
    };
    let original_chars = chars_of(original);
    let old_chars = chars_of(old);
    if !contains_chars(&original_chars, &old_chars) {
        return Err(EditError::OldNotFound);
    }
    let new_chars = chars_of(new);
    let updated = replace_first_exec(&original_chars, &old_chars, &new_chars);
    Ok(string_of(&updated))
}

// ---------------------------------------------------------------------------
// Unified patches
// ---------------------------------------------------------------------------

#[derive(Debug, Clone, Copy, PartialEq, Eq, Structural)]
pub enum HunkLineKind {
    Context,
    Add,
    Remove,
}

/// One line of a hunk.
#[derive(Debug)]
pub struct HunkLine {
    pub kind: HunkLineKind,
    pub text: Vec<char>,
}

/// One hunk of a unified patch.
#[derive(Debug)]
pub struct Hunk {
    pub lines: Vec<HunkLine>,
}

/// A hunk as a sequence of (kind, text) pairs.
pub type SpecHunk = Seq<(HunkLineKind, Seq<char>)>;

pub open spec fn hunk_view(h: Hunk) -> SpecHunk {
    h.lines@.map_values(|l: HunkLine| (l.kind, l.text@))
}

pub open spec fn hunks_view(hs: Seq<Hunk>) -> Seq<SpecHunk> {
    hs.map_values(|h: Hunk| hunk_view(h))
}

/// The hunk line a patch line gives, if any (`' '`, `'-'`, `'+'` markers;
/// an empty line is an empty context line).
pub open spec fn hunk_line_of(raw: Seq<char>) -> Option<(HunkLineKind, Seq<char>)> {
    if raw.len() == 0 {
        Some((HunkLineKind::Context, seq![]))
    } else if raw[0] == ' ' {
        Some((HunkLineKind::Context, raw.drop_first()))
    } else if raw[0] == '-' {
        Some((HunkLineKind::Remove, raw.drop_first()))
    } else if raw[0] == '+' {
        Some((HunkLineKind::Add, raw.drop_first()))
    } else {
        None
    }
}

/// One step of hunk parsing: the finished hunks and the hunk being read.
pub open spec fn hunk_step(state: (Seq<SpecHunk>, Option<SpecHunk>), raw: Seq<char>) -> (
    Seq<SpecHunk>,
    Option<SpecHunk>,
) {
    let (done, current) = state;
    if starts_with(raw, "@@"@) {
        match current {
            Some(h) => (done.push(h), Some(seq![])),
            None => (done, Some(seq![])),
        }
    } else if starts_with(raw, "---"@) || starts_with(raw, "+++"@) || starts_with(raw, "diff "@) {
        state
    } else {
        match current {
            None => state,
            Some(h) => match hunk_line_of(raw) {
                Some(line) => (done, Some(h.push(line))),
                None => state,
            },
        }
    }
}

pub open spec fn hunk_fold(raws: Seq<Seq<char>>) -> (Seq<SpecHunk>, Option<SpecHunk>)
    decreases raws.len(),
{
    if raws.len() == 0 {
        (seq![], None)
    } else {
        hunk_step(hunk_fold(raws.drop_last()), raws.last())
    }
}

/// The hunks of a unified patch: each starts at an `@@` line; file headers
/// and lines before the first hunk are ignored.
pub open spec fn parse_hunks_spec(patch: Seq<char>) -> Seq<SpecHunk> {
    let (done, current) = hunk_fold(lines(patch));
    match current {
        Some(h) => done.push(h),
        None => done,
    }
}

pub fn parse_hunks(patch: &str) -> (r: Vec<Hunk>)
    ensures
        hunks_view(r@) == parse_hunks_spec(patch@),
{
    let raw_lines = lines_of(&chars_of(patch));
    let ghost raws = views(raw_lines@);
    let mut hunks: Vec<Hunk> = Vec::new();
    let mut current: Option<Hunk> = None;
    let mut i: usize = 0;
    while i < raw_lines.len()
        invariant
            i <= raw_lines.len(),
            raws == views(raw_lines@),
            raws == lines(patch@),
            hunk_fold(raws.take(i as int)) == (hunks_view(hunks@), match current {
                Some(h) => Some(hunk_view(h)),
                None => None,
            }),
        decreases raw_lines.len() - i,
    {
        let raw = &raw_lines[i];
        assert(raws.take(i + 1).drop_last() =~= raws.take(i as int));
        assert(raws[i as int] == raw@);
        let ghost old_done = hunks_view(hunks@);
        if starts_with_str(raw, "@@") {
            match current {
                Some(h) => {
                    hunks.push(h);
                    assert(hunks_view(hunks@) =~= old_done.push(hunk_view(h)));
                },
                None => {},
            }
            current = Some(Hunk { lines: Vec::new() });
            assert(hunk_view(current.unwrap()) =~= seq![]);
        } else if starts_with_str(raw, "---") || starts_with_str(raw, "+++") || starts_with_str(
            raw,
            "diff ",
        ) {
        } else {
            match current {
                None => {},
                Some(mut h) => {
                    let ghost hv = hunk_view(h);
                    if raw.len() == 0 {
                        h.lines.push(HunkLine { kind: HunkLineKind::Context, text: Vec::new() });
                        assert(hunk_view(h) =~= hv.push((HunkLineKind::Context, seq![])));
                    } else {
                        let marker = raw[0];
                        let text = slice_chars(raw, 1, raw.len());
                        assert(raw@.drop_first() =~= raw@.subrange(1, raw.len() as int));
                        if marker == ' ' {
                            h.lines.push(HunkLine { kind: HunkLineKind::Context, text });
                            assert(hunk_view(h) =~= hv.push((HunkLineKind::Context, raw@.drop_first())));
                        } else if marker == '-' {
                            h.lines.push(HunkLine { kind: HunkLineKind::Remove, text });
                            assert(hunk_view(h) =~= hv.push((HunkLineKind::Remove, raw@.drop_first())));
                        } else if marker == '+' {
                            h.lines.push(HunkLine { kind: HunkLineKind::Add, text });
                            assert(hunk_view(h) =~= hv.push((HunkLineKind::Add, raw@.drop_first())));
                        }
                    }
                    current = Some(h);
                },
            }
        }
        i = i + 1;
    }
    assert(raws.take(raw_lines.len() as int) =~= raws);
    match current {
        Some(h) => {
            let ghost old_done = hunks_view(hunks@);
            hunks.push(h);
            assert(hunks_view(hunks@) =~= old_done.push(hunk_view(h)));
        },
        None => {},
    }
    hunks
}

/// The texts of the lines of a hunk whose kind is kept, in order.
pub open spec fn block_lines(h: SpecHunk, keep_add: bool) -> Seq<Seq<char>>
    decreases h.len(),
{
    if h.len() == 0 {
        seq![]
    } else {
        let rest = block_lines(h.drop_last(), keep_add);
        let (kind, text) = h.last();
        if kind == HunkLineKind::Context || (keep_add && kind == HunkLineKind::Add) || (!keep_add
            && kind == HunkLineKind::Remove) {
            rest.push(text)
        } else {
            rest
        }
    }
}

/// The text a hunk expects (context and removed lines) or produces
/// (context and added lines), joined by newlines.
pub open spec fn hunk_block(h: SpecHunk, keep_add: bool) -> Seq<char> {
    join(block_lines(h, keep_add), "\n"@)
}

pub fn hunk_block_exec(h: &Hunk, keep_add: bool) -> (r: Vec<char>)
    ensures
        r@ == hunk_block(hunk_view(*h), keep_add),
{
    let mut parts: Vec<Vec<char>> = Vec::new();
    let mut i: usize = 0;
    let ghost hv = hunk_view(*h);
    while i < h.lines.len()
        invariant
            i <= h.lines.len(),
            hv == hunk_view(*h),
            views(parts@) == block_lines(hv.take(i as int), keep_add),
        decreases h.lines.len() - i,
    {
        assert(hv.take(i + 1).drop_last() =~= hv.take(i as int));
        let line = &h.lines[i];
        let ghost old_parts = views(parts@);
        if line.kind == HunkLineKind::Context || (keep_add && line.kind == HunkLineKind::Add) || (
        !keep_add && line.kind == HunkLineKind::Remove) {
            parts.push(line.text.clone());
            assert(views(parts@) =~= old_parts.push(line.text@));
        }
        i = i + 1;
    }
    assert(hv.take(h.lines.len() as int) =~= hv);
    join_chars(&parts, "\n")
}

/// Applies the hunks in order to `output`.
pub open spec fn apply_hunks(output: Seq<char>, hunks: Seq<SpecHunk>) -> Result<Seq<char>, EditError>
    decreases hunks.len(),
{
    if hunks.len() == 0 {
        Ok(output)
    } else {
        let old_block = hunk_block(hunks[0], false);
        let new_block = hunk_block(hunks[0], true);
        if !contains(output, old_block) {
            Err(EditError::HunkContextNotFound)
        } else {
            apply_hunks(replace_first(output, old_block, new_block), hunks.drop_first())
        }
    }
}

/// What [`apply_unified_patch`] gives.
pub open spec fn patch_result(original: Seq<char>, patch: Seq<char>) -> Result<Seq<char>, EditError> {
    let hunks = parse_hunks_spec(patch);
    if hunks.len() == 0 {
        Err(EditError::NoHunks)
    } else {
        apply_hunks(original, hunks)
    }
}

/// Applies each hunk of a unified patch in turn: the hunk's context and
/// removed lines must occur in the text, and their first occurrence is
/// replaced by the context and added lines.
pub fn apply_unified_patch(original: &str, patch: &str) -> (r: Result<String, EditError>)
    ensures
        result_view(r) == patch_result(original@, patch@),
{
    let mut output = chars_of(original);
    let hunks = parse_hunks(patch);
    if hunks.len() == 0 {
        return Err(EditError::NoHunks);
    }
    let ghost hv = hunks_view(hunks@);
    let mut i: usize = 0;
    assert(hv.skip(0) =~= hv);
    while i < hunks.len()
        invariant
            i <= hunks.len(),
            hv == hunks_view(hunks@),
            hv == parse_hunks_spec(patch@),
            hv.len() > 0,
            apply_hunks(original@, hv) == apply_hunks(output@, hv.skip(i as int)),
        decreases hunks.len() - i,
    {
        let old_block = hunk_block_exec(&hunks[i], false);
        let new_block = hunk_block_exec(&hunks[i], true);
        assert(hv.skip(i as int)[0] == hunk_view(hunks@[i as int]));
        assert(hv.skip(i as int).drop_first() =~= hv.skip(i + 1));
        if !contains_chars(&output, &old_block) {
            return Err(EditError::HunkContextNotFound);
        }
        output = replace_first_exec(&output, &old_block, &new_block);
        i = i + 1;
    }
    assert(hv.skip(hunks.len() as int) =~= seq![]);
    Ok(string_of(&output))
}

/// Texts `ts` that show the hunks applied one after another: each hunk's
/// expected block occurs in the text before it, and the next text is that
/// text with the block's first occurrence replaced by what the hunk
/// produces.
pub open spec fn applied_in_turn(ts: Seq<Seq<char>>, hunks: Seq<SpecHunk>) -> bool {
    &&& ts.len() == hunks.len() + 1
    &&& forall|i: int|
        0 <= i < hunks.len() ==> contains(ts[i], hunk_block(#[trigger] hunks[i], false)) && ts[i + 1]
            == replace_first(ts[i], hunk_block(hunks[i], false), hunk_block(hunks[i], true))
}

proof fn lemma_chain_exists(t: Seq<char>, hunks: Seq<SpecHunk>) -> (ts: Seq<Seq<char>>)
    requires
        apply_hunks(t, hunks) is Ok,
    ensures
        applied_in_turn(ts, hunks),
        ts[0] == t,
        apply_hunks(t, hunks) == Ok::<Seq<char>, EditError>(ts.last()),
    decreases hunks.len(),
{
    if hunks.len() == 0 {
        seq![t]
    } else {
        let next = replace_first(t, hunk_block(hunks[0], false), hunk_block(hunks[0], true));
        let rest = lemma_chain_exists(next, hunks.drop_first());
        let ts = seq![t] + rest;
        assert forall|i: int| 0 <= i < hunks.len() implies contains(ts[i], hunk_block(#[trigger] hunks[i], false))
            && ts[i + 1] == replace_first(ts[i], hunk_block(hunks[i], false), hunk_block(hunks[i], true)) by {
            if i > 0 {
                assert(hunks.drop_first()[i - 1] == hunks[i]);
                assert(ts[i] == rest[i - 1]);
                assert(ts[i + 1] == rest[i]);
            }
        }
        ts
    }
}

proof fn lemma_chain_gives(t: Seq<char>, hunks: Seq<SpecHunk>, ts: Seq<Seq<char>>)
    requires
        applied_in_turn(ts, hunks),
        ts[0] == t,
    ensures
        apply_hunks(t, hunks) == Ok::<Seq<char>, EditError>(ts.last()),
    decreases hunks.len(),
{
    if hunks.len() > 0 {
        let rest = ts.drop_first();
        assert(contains(ts[0], hunk_block(hunks[0], false)));
        assert forall|i: int| 0 <= i < hunks.drop_first().len() implies contains(
            rest[i],
            hunk_block(#[trigger] hunks.drop_first()[i], false),
        ) && rest[i + 1] == replace_first(
            rest[i],
            hunk_block(hunks.drop_first()[i], false),
            hunk_block(hunks.drop_first()[i], true),
        ) by {
            assert(hunks.drop_first()[i] == hunks[i + 1]);
        }
        lemma_chain_gives(ts[1], hunks.drop_first(), rest);
    }
}

/// A unified patch applies every one of its hunks, in order: it succeeds
/// with `u` exactly when there are texts from the original to `u` in which
/// each hunk in turn finds its expected lines and replaces their first
/// occurrence; a patch without hunks is refused.
pub proof fn law_patch_applies_every_hunk(original: Seq<char>, patch: Seq<char>, u: Seq<char>)
    ensures
        parse_hunks_spec(patch).len() == 0 ==> patch_result(original, patch) == Err::<Seq<char>, EditError>(
            EditError::NoHunks,
        ),
        parse_hunks_spec(patch).len() > 0 ==> (patch_result(original, patch) == Ok::<Seq<char>, EditError>(u)
            <==> exists|ts: Seq<Seq<char>>|
            #![trigger applied_in_turn(ts, parse_hunks_spec(patch))]
            applied_in_turn(ts, parse_hunks_spec(patch)) && ts[0] == original && ts.last() == u),
{
    let hunks = parse_hunks_spec(patch);
    if hunks.len() > 0 {
        if patch_result(original, patch) == Ok::<Seq<char>, EditError>(u) {
            let ts = lemma_chain_exists(original, hunks);
        }
        if exists|ts: Seq<Seq<char>>| #![trigger applied_in_turn(ts, hunks)] applied_in_turn(ts, hunks) && ts[0]
            == original && ts.last() == u {
            let ts = choose|ts: Seq<Seq<char>>| #![trigger applied_in_turn(ts, hunks)] applied_in_turn(ts, hunks)
                && ts[0] == original && ts.last() == u;
            lemma_chain_gives(original, hunks, ts);
        }
    }
}

/// Replacing the first occurrence: where `old` first occurs at `i`, the
/// text is the part before `i`, then `new`, then the part after that
/// occurrence; where `old` does not occur, the text is unchanged.
pub proof fn law_replace_first(s: Seq<char>, old: Seq<char>, new: Seq<char>, i: int)
    ensures
        crate::text::matches_at(s, old, i) && (forall|k: int| 0 <= k < i ==> !#[trigger] crate::text::matches_at(s, old, k))
            ==> replace_first(s, old, new) == s.take(i) + new + s.skip(i + old.len()),
        (forall|k: int| !#[trigger] crate::text::matches_at(s, old, k)) ==> replace_first(s, old, new) == s,
{
    crate::text::lemma_find_from(s, old, 0);
    if crate::text::matches_at(s, old, i) && (forall|k: int| 0 <= k < i ==> !#[trigger] crate::text::matches_at(s, old, k)) {
        match find(s, old) {
            Some(j) => {
                if j < i {
                    assert(crate::text::matches_at(s, old, j));
                } else if j > i {
                    assert(!crate::text::matches_at(s, old, i));
                }
            },
            None => {
                assert(!crate::text::matches_at(s, old, i));
            },
        }
    }
    if forall|k: int| !#[trigger] crate::text::matches_at(s, old, k) {
        match find(s, old) {
            Some(j) => {
                assert(crate::text::matches_at(s, old, j));
            },
            None => {},
        }
    }
}

/// Hunks compose: applying the hunks `a` and then `b` is applying `a`, then
/// `b` to what `a` gave; a failure stops at once.
pub proof fn law_hunks_compose(t: Seq<char>, a: Seq<SpecHunk>, b: Seq<SpecHunk>)
    ensures
        apply_hunks(t, a + b) == match apply_hunks(t, a) {
            Ok(u) => apply_hunks(u, b),
            Err(e) => Err(e),
        },
    decreases a.len(),
{
    if a.len() > 0 {
        assert((a + b).drop_first() =~= a.drop_first() + b);
        assert((a + b)[0] == a[0]);
        let next = replace_first(t, hunk_block(a[0], false), hunk_block(a[0], true));
        law_hunks_compose(next, a.drop_first(), b);
    } else {
        assert(a + b =~= b);
    }
}

// ---------------------------------------------------------------------------
// Diff summary
// ---------------------------------------------------------------------------

/// The number of indices below `n` at which the two line lists differ.
pub open spec fn differing(a: Seq<Seq<char>>, b: Seq<Seq<char>>, n: int) -> nat
    decreases n,
{
    if n <= 0 {
        0
    } else {
        differing(a, b, n - 1) + if a[n - 1] != b[n - 1] {
            1nat
        } else {
            0nat
        }
    }
}

pub open spec fn abs_diff(a: nat, b: nat) -> nat {
    if a >= b {
        (a - b) as nat
    } else {
        (b - a) as nat
    }
}

/// The number of changed lines: differing lines over the common length,
/// plus the difference in length.
pub open spec fn changed_lines(original: Seq<char>, updated: Seq<char>) -> nat {
    let a = lines(original);
    let b = lines(updated);
    let common = if a.len() <= b.len() {
        a.len()
    } else {
        b.len()
    };
    differing(a, b, common as int) + abs_diff(a.len(), b.len())
}

/// The text of [`diff_summary`].
pub open spec fn diff_summary_text(original: Seq<char>, updated: Seq<char>) -> Seq<char> {
    let changed = changed_lines(original, updated);
    "changed "@ + decimal(changed) + " line"@ + (if changed == 1 {
        Seq::<char>::empty()
    } else {
        "s"@
    }) + "\n"@ + decimal(lines(original).len()) + " -> "@ + decimal(lines(updated).len())
        + " lines"@
}

pub fn lines_equal(a: &Vec<char>, b: &Vec<char>) -> (r: bool)
    ensures
        r == (a@ == b@),
{
    if a.len() != b.len() {
        return false;
    }
    let mut i: usize = 0;
    while i < a.len()
        invariant
            i <= a.len() == b.len(),
            forall|k: int| 0 <= k < i ==> a@[k] == b@[k],
        decreases a.len() - i,
    {
        if a[i] != b[i] {
            return false;
        }
        i = i + 1;
    }
    assert(a@ =~= b@);
    true
}

/// A short summary of how many lines changed between two texts.
pub fn diff_summary(original: &str, updated: &str) -> (r: String)
    ensures
        r@ == diff_summary_text(original@, updated@),
{
    let a = lines_of(&chars_of(original));
    let b = lines_of(&chars_of(updated));
    let common = if a.len() <= b.len() {
        a.len()
    } else {
        b.len()
    };
    let mut changed: usize = 0;
    let mut i: usize = 0;
    while i < common
        invariant
            i <= common <= a.len(),
            common <= b.len(),
            changed as nat == differing(views(a@), views(b@), i as int),
            changed <= i,
        decreases common - i,
    {
        if !lines_equal(&a[i], &b[i]) {
            changed = changed + 1;
        }
        i = i + 1;
    }
    let extra = if a.len() >= b.len() {
        a.len() - b.len()
    } else {
        b.len() - a.len()
    };
    assert(changed + extra <= a.len() + b.len());
    let total = changed + extra;
    let mut out = chars_of("changed ");
    push_all(&mut out, &usize_to_chars(total));
    push_str(&mut out, " line");
    if total != 1 {
        push_str(&mut out, "s");
    }
    push_str(&mut out, "\n");
    push_all(&mut out, &usize_to_chars(a.len()));
    push_str(&mut out, " -> ");
    push_all(&mut out, &usize_to_chars(b.len()));
    push_str(&mut out, " lines");
    string_of(&out)
}

} // verus!
