//! Background tasks: how they are listed and how their logs are tailed.
use vstd::prelude::*;
use crate::text::{chars_of, join, lines, owned, push_str, string_of};

verus! {

/// The last `n` lines of a log, joined by line breaks.
pub open spec fn tail_text(content: Seq<char>, n: nat) -> Seq<char> {
    let ls = lines(content);
    join(ls.skip(if ls.len() < n { 0 } else { ls.len() - n }), "\n"@)
}

pub fn tail_lines(content: &str, n: usize) -> (r: String)
    ensures
        r@ == tail_text(content@, n as nat),
{
    let ls = crate::text::lines_of(&chars_of(content));
    let start: usize = if ls.len() < n {
        0
    } else {
        ls.len() - n
    };
    let mut kept: Vec<Vec<char>> = Vec::new();
    let mut i = start;
    while i < ls.len()
        invariant
            start <= i <= ls@.len(),
            crate::text::views(kept@) == crate::text::views(ls@).subrange(start as int, i as int),
        decreases ls.len() - i,
    {
        let piece = crate::text::slice_chars(&ls[i], 0, ls[i].len());
        assert(piece@ =~= ls@[i as int]@);
        let ghost before = crate::text::views(kept@);
        kept.push(piece);
        assert(crate::text::views(kept@) =~= before.push(ls@[i as int]@));
        assert(crate::text::views(ls@).subrange(start as int, i + 1) =~= crate::text::views(ls@).subrange(
            start as int,
            i as int,
        ).push(ls@[i as int]@));
        i = i + 1;
    }
    assert(crate::text::views(ls@).subrange(start as int, ls@.len() as int) =~= crate::text::views(
        ls@,
    ).skip(start as int));
    string_of(&crate::text::join_chars(&kept, "\n"))
}

/// How a task is listed: id, status and task, two spaces apart; a task
/// asked to stop shows `cancel-requested`.
pub open spec fn task_line_text(id: Seq<char>, status: Seq<char>, task: Seq<char>, cancel_requested: bool) -> Seq<char> {
    id + "  "@ + (if cancel_requested {
        "cancel-requested"@
    } else {
        status
    }) + "  "@ + task
}

pub fn task_line(id: &str, status: &str, task: &str, cancel_requested: bool) -> (r: String)
    ensures
        r@ == task_line_text(id@, status@, task@, cancel_requested),
{
    let mut out = chars_of(id);
    push_str(&mut out, "  ");
    if cancel_requested {
        push_str(&mut out, "cancel-requested");
    } else {
        push_str(&mut out, status);
    }
    push_str(&mut out, "  ");
    push_str(&mut out, task);
    string_of(&out)
}

/// The status a finished worker records.
pub fn finished_status(success: bool) -> (r: &'static str)
    ensures
        r@ == if success {
            "complete"@
        } else {
            "failed"@
        },
{
    if success {
        "complete"
    } else {
        "failed"
    }
}

/// A task id starts with the given prefix.
pub fn matches_task(stem: &str, id_prefix: &str) -> (r: bool)
    ensures
        r == crate::text::starts_with(stem@, id_prefix@),
{
    crate::text::starts_with_str(&chars_of(stem), id_prefix)
}

pub open spec fn no_task_text(prefix: Seq<char>) -> Seq<char> {
    "no task found for `"@ + prefix + "`"@
}

pub fn no_task_message(id_prefix: &str) -> (r: String)
    ensures
        r@ == no_task_text(id_prefix@),
{
    let mut out = chars_of("no task found for `");
    push_str(&mut out, id_prefix);
    push_str(&mut out, "`");
    string_of(&out)
}

} // verus!
