//! Session listings.
use vstd::prelude::*;
use crate::json::{pairs_view, string_member, string_member_exec};
use crate::text::{chars_of, push_all, push_str, same_text, string_of};

verus! {

/// How a session is listed: its id and the start of its first request
/// (96 characters, line breaks as spaces).
pub open spec fn session_line_text(id: Seq<char>, first_user: Seq<char>) -> Seq<char> {
    id + "  "@ + crate::text::replace_char(
        first_user.take(if first_user.len() < 96 { first_user.len() as int } else { 96 }),
        '\n',
        ' ',
    )
}

pub fn session_line(id: &str, first_user: &str) -> (r: String)
    ensures
        r@ == session_line_text(id@, first_user@),
{
    let f = chars_of(first_user);
    let n: usize = if f.len() < 96 {
        f.len()
    } else {
        96
    };
    let head = crate::text::slice_chars(&f, 0, n);
    assert(head@ =~= f@.take(n as int));
    let mut out = chars_of(id);
    push_str(&mut out, "  ");
    push_all(&mut out, &crate::text::replace_char_exec(&head, '\n', ' '));
    string_of(&out)
}

/// The start of a session's first request: the `text` of the first `user`
/// event whose payload holds one, cut to 96 characters; empty when no event
/// holds one. Events are given as their kind and compact payload.
pub open spec fn first_user_text(events: Seq<(Seq<char>, Seq<char>)>) -> Seq<char>
    decreases events.len(),
{
    if events.len() == 0 {
        seq![]
    } else if events[0].0 == "user"@ && string_member(events[0].1, "text"@) is Some {
        let t = string_member(events[0].1, "text"@).unwrap();
        t.take(if t.len() < 96 { t.len() as int } else { 96 })
    } else {
        first_user_text(events.drop_first())
    }
}

pub fn first_user_message(events: &Vec<(String, String)>) -> (r: String)
    ensures
        r@ == first_user_text(pairs_view(events@)),
{
    let ghost pv = pairs_view(events@);
    let mut i: usize = 0;
    assert(pv.skip(0) =~= pv);
    while i < events.len()
        invariant
            i <= events@.len(),
            pv == pairs_view(events@),
            first_user_text(pv) == first_user_text(pv.skip(i as int)),
        decreases events.len() - i,
    {
        assert(pv.skip(i as int).drop_first() =~= pv.skip(i + 1));
        let (kind, payload) = (&events[i].0, &events[i].1);
        if same_text(kind.as_str(), "user") {
            match string_member_exec(payload.as_str(), "text") {
                Some(t) => {
                    let tv = chars_of(t.as_str());
                    let n: usize = if tv.len() < 96 {
                        tv.len()
                    } else {
                        96
                    };
                    let head = crate::text::slice_chars(&tv, 0, n);
                    assert(head@ =~= tv@.take(n as int));
                    return string_of(&head);
                },
                None => {},
            }
        }
        i = i + 1;
    }
    assert(pv.skip(i as int).len() == 0);
    String::new()
}

/// Whether a session id is shown under a filter.
pub fn session_matches(id: &str, filter: Option<&str>) -> (r: bool)
    ensures
        r == match filter {
            Some(f) => crate::text::contains(id@, f@),
            None => true,
        },
{
    match filter {
        Some(f) => crate::text::contains_str(&chars_of(id), f),
        None => true,
    }
}

} // verus!
