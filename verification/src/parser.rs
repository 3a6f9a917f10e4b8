//! Reading tool calls out of model output: `<tool_call>` blocks, fenced
//! JSON, bare JSON objects, and a lossy recovery of malformed
//! `write_file` actions.
use vstd::prelude::*;
use crate::json::{entry_lookup, json_inspect, json_top, pairs_view, JsonTop, JsonTopView};
use crate::text::{
    trim_end_matches, trim_end_matches_exec,
    matches_at_exec,
    opt_index, find,
    chars_of, contains, find_chars_from, find_from, find_str_from, lemma_find_from, matches_at, owned, push_all, push_str,
    slice_chars, string_of, trim, trim_chars, views,
};
use crate::tools::{call_view, calls_view, opt_text, CallView, ToolCall};

verus! {

// ---------------------------------------------------------------------------
// Brace-balanced JSON object candidates
// ---------------------------------------------------------------------------

/// Scanner state: candidate ranges found, where the open object started,
/// nesting depth, inside a string, after a backslash in a string.
pub type CandState = (Seq<(int, int)>, Option<int>, nat, bool, bool);

pub open spec fn cand_step(st: CandState, ch: char, i: int) -> CandState {
    let (found, start, depth, in_string, escaped) = st;
    if in_string {
        if escaped {
            (found, start, depth, true, false)
        } else if ch == '\\' {
            (found, start, depth, true, true)
        } else if ch == '"' {
            (found, start, depth, false, false)
        } else {
            st
        }
    } else if ch == '"' {
        (found, start, depth, true, escaped)
    } else if ch == '{' {
        (found, if depth == 0 {
            Some(i)
        } else {
            start
        }, depth + 1, false, escaped)
    } else if ch == '}' {
        if depth > 0 {
            let d = (depth - 1) as nat;
            if d == 0 {
                match start {
                    Some(s) => (found.push((s, i)), None, d, false, escaped),
                    None => (found, None, d, false, escaped),
                }
            } else {
                (found, start, d, false, escaped)
            }
        } else {
            st
        }
    } else {
        st
    }
}

pub open spec fn cand_fold(text: Seq<char>, n: int) -> CandState
    decreases n,
{
    if n <= 0 {
        (seq![], None, 0, false, false)
    } else {
        cand_step(cand_fold(text, n - 1), text[n - 1], n - 1)
    }
}

pub open spec fn range_texts(text: Seq<char>, ranges: Seq<(int, int)>) -> Seq<Seq<char>> {
    ranges.map_values(|r: (int, int)| text.subrange(r.0, r.1 + 1))
}

/// The outermost brace-balanced `{...}` spans of `text`, in order; braces
/// inside JSON strings do not count.
pub open spec fn object_candidates(text: Seq<char>) -> Seq<Seq<char>> {
    range_texts(text, cand_fold(text, text.len() as int).0)
}

pub open spec fn cand_state_ok(st: CandState, n: int) -> bool {
    &&& (st.1 matches Some(s) ==> 0 <= s < n)
    &&& st.2 <= n
    &&& forall|k: int| 0 <= k < st.0.len() ==> 0 <= (#[trigger] st.0[k]).0 <= st.0[k].1 < n
}

pub proof fn lemma_cand_fold_ok(text: Seq<char>, n: int)
    requires
        0 <= n <= text.len(),
    ensures
        cand_state_ok(cand_fold(text, n), n),
    decreases n,
{
    if n > 0 {
        lemma_cand_fold_ok(text, n - 1);
        let st = cand_fold(text, n - 1);
        let st2 = cand_fold(text, n);
        assert forall|k: int| 0 <= k < st2.0.len() implies 0 <= (#[trigger] st2.0[k]).0 <= st2.0[k].1 < n by {
            if k < st.0.len() {
                assert(st2.0[k] == st.0[k]);
            }
        }
    }
}

pub fn json_object_candidates(text: &Vec<char>) -> (r: Vec<Vec<char>>)
    ensures
        views(r@) == object_candidates(text@),
{
    let mut found: Vec<Vec<char>> = Vec::new();
    let ghost mut ranges: Seq<(int, int)> = seq![];
    let mut start: Option<usize> = None;
    let mut depth: usize = 0;
    let mut in_string = false;
    let mut escaped = false;
    let mut i: usize = 0;
    while i < text.len()
        invariant
            i <= text.len(),
            cand_fold(text@, i as int) == (ranges, match start {
                Some(s) => Some(s as int),
                None => None,
            }, depth as nat, in_string, escaped),
            cand_state_ok(cand_fold(text@, i as int), i as int),
            views(found@) == range_texts(text@, ranges),
        decreases text.len() - i,
    {
        proof {
            lemma_cand_fold_ok(text@, i + 1);
        }
        let ch = text[i];
        if in_string {
            if escaped {
                escaped = false;
            } else if ch == '\\' {
                escaped = true;
            } else if ch == '"' {
                in_string = false;
            }
        } else if ch == '"' {
            in_string = true;
        } else if ch == '{' {
            if depth == 0 {
                start = Some(i);
            }
            depth = depth + 1;
        } else if ch == '}' {
            if depth > 0 {
                depth = depth - 1;
                if depth == 0 {
                    match start {
                        Some(s) => {
                            let piece = slice_chars(text, s, i + 1);
                            let ghost old_found = found@;
                            let ghost old_ranges = ranges;
                            found.push(piece);
                            proof {
                                ranges = ranges.push((s as int, i as int));
                                assert(found@ == old_found.push(piece));
                                assert(views(found@) =~= views(old_found).push(piece@));
                                assert(range_texts(text@, ranges) =~= range_texts(
                                    text@,
                                    old_ranges,
                                ).push(text@.subrange(s as int, i + 1)));
                            }
                        },
                        None => {},
                    }
                    start = None;
                }
            }
        }
        i = i + 1;
    }
    found
}

// ---------------------------------------------------------------------------
// From JSON values to tool calls
// ---------------------------------------------------------------------------

/// The entries without any stored under `key`.
pub open spec fn without(entries: Seq<(Seq<char>, Seq<char>)>, key: Seq<char>) -> Seq<(Seq<char>, Seq<char>)>
    decreases entries.len(),
{
    if entries.len() == 0 {
        entries
    } else if entries.last().0 == key {
        without(entries.drop_last(), key)
    } else {
        without(entries.drop_last(), key).push(entries.last())
    }
}

/// The string a JSON text holds, if it is a JSON string.
pub open spec fn json_str(v: Option<Seq<char>>) -> Option<Seq<char>> {
    match v {
        Some(t) => match json_top(t) {
            Some(JsonTopView::Str(s)) => Some(s),
            _ => None,
        },
        None => None,
    }
}

/// The tool call a JSON value describes: an object with a string `tool`
/// (its `arguments`, `{}` when absent, and string `call_id`), or else one
/// with a string `action`, whose other members (but `tool`) are the arguments.
/// The members of a JSON object as fields holding their JSON texts.
pub open spec fn text_fields(entries: Seq<(Seq<char>, Seq<char>)>) -> Seq<(Seq<char>, crate::json::JsonFieldView)> {
    entries.map_values(|e: (Seq<char>, Seq<char>)| (e.0, crate::json::JsonFieldView::Text(e.1)))
}

/// The object holding the given members, written with `serde_json`; there
/// is none when a member's text is not JSON.
pub fn object_of_members(entries: &Vec<(String, String)>) -> (r: Option<String>)
    ensures
        r is Some <==> crate::json::texts_read(text_fields(pairs_view(entries@))),
        r matches Some(t) ==> t@ == crate::json::object_text_of(text_fields(pairs_view(entries@))),
{
    let ghost want = text_fields(pairs_view(entries@));
    let mut fields: Vec<(String, crate::json::JsonField)> = Vec::new();
    let mut i: usize = 0;
    while i < entries.len()
        invariant
            i <= entries@.len(),
            want == text_fields(pairs_view(entries@)),
            crate::json::fields_view(fields@) == want.take(i as int),
        decreases entries.len() - i,
    {
        let ghost before = crate::json::fields_view(fields@);
        fields.push((entries[i].0.clone(), crate::json::JsonField::Text(entries[i].1.clone())));
        assert(crate::json::fields_view(fields@) =~= before.push(want[i as int]));
        assert(want.take(i + 1) =~= want.take(i as int).push(want[i as int]));
        i = i + 1;
    }
    assert(want.take(entries@.len() as int) =~= want);
    crate::json::json_object(&fields)
}

pub open spec fn call_from_json(top: Option<JsonTopView>) -> Option<CallView> {
    match top {
        Some(JsonTopView::Object(entries)) => {
            let tool = json_str(entry_lookup(entries, "tool"@));
            if tool is Some {
                let args = match entry_lookup(entries, "arguments"@) {
                    Some(a) => a,
                    None => "{}"@,
                };
                Some((tool->0, args, json_str(entry_lookup(entries, "call_id"@))))
            } else {
                let rest = without(entries, "tool"@);
                let action = json_str(entry_lookup(rest, "action"@));
                if action is Some {
                    let fields = text_fields(without(rest, "action"@));
                    if crate::json::texts_read(fields) {
                        Some((action->0, crate::json::object_text_of(fields), None))
                    } else {
                        None
                    }
                } else {
                    None
                }
            }
        },
        _ => None,
    }
}

fn without_exec(entries: &Vec<(String, String)>, key: &str) -> (r: Vec<(String, String)>)
    ensures
        pairs_view(r@) == without(pairs_view(entries@), key@),
{
    let ghost pv = pairs_view(entries@);
    let k = chars_of(key);
    let mut r: Vec<(String, String)> = Vec::new();
    let mut i: usize = 0;
    while i < entries.len()
        invariant
            i <= entries@.len(),
            pv == pairs_view(entries@),
            k@ == key@,
            pairs_view(r@) == without(pv.take(i as int), key@),
        decreases entries.len() - i,
    {
        assert(pv.take(i + 1).drop_last() =~= pv.take(i as int));
        let name = chars_of(entries[i].0.as_str());
        if !crate::map::text_eq(&name, &k) {
            let ghost prev = pairs_view(r@);
            r.push((entries[i].0.clone(), entries[i].1.clone()));
            assert(pairs_view(r@) =~= prev.push(pv[i as int]));
        }
        i = i + 1;
    }
    assert(pv.take(entries@.len() as int) =~= pv);
    r
}

fn json_str_exec(v: Option<String>) -> (r: Option<String>)
    ensures
        opt_text(r) == json_str(opt_text(v)),
{
    match v {
        Some(t) => match json_inspect(t.as_str()) {
            Some(JsonTop::Str(s)) => Some(s),
            _ => None,
        },
        None => None,
    }
}

pub fn value_to_tool_call(top: Option<JsonTop>) -> (r: Option<ToolCall>)
    ensures
        match r {
            Some(c) => call_from_json(opt_top(top)) == Some(call_view(c)),
            None => call_from_json(opt_top(top)) is None,
        },
{
    match top {
        Some(JsonTop::Object(entries)) => {
            let tool = json_str_exec(crate::json::entry_get(&entries, "tool"));
            match tool {
                Some(t) => {
                    let arguments = match crate::json::entry_get(&entries, "arguments") {
                        Some(a) => a,
                        None => owned("{}"),
                    };
                    let call_id = json_str_exec(crate::json::entry_get(&entries, "call_id"));
                    Some(ToolCall { tool: t, arguments, call_id })
                },
                None => {
                    let rest = without_exec(&entries, "tool");
                    match json_str_exec(crate::json::entry_get(&rest, "action")) {
                        Some(action) => {
                            let args = without_exec(&rest, "action");
                            match object_of_members(&args) {
                                Some(arguments) => Some(ToolCall { tool: action, arguments, call_id: None }),
                                None => None,
                            }
                        },
                        None => None,
                    }
                },
            }
        },
        _ => None,
    }
}

pub open spec fn opt_top(t: Option<JsonTop>) -> Option<JsonTopView> {
    match t {
        Some(x) => Some(crate::json::top_view(x)),
        None => None,
    }
}

/// The tool call a JSON text describes.
pub open spec fn call_from_text(raw: Seq<char>) -> Option<CallView> {
    call_from_json(json_top(raw))
}

pub fn call_from_text_exec(raw: &Vec<char>) -> (r: Option<ToolCall>)
    ensures
        match r {
            Some(c) => call_from_text(raw@) == Some(call_view(c)),
            None => call_from_text(raw@) is None,
        },
{
    let s = string_of(raw);
    value_to_tool_call(json_inspect(s.as_str()))
}

/// The first candidate that parses as JSON.
pub open spec fn first_json(cands: Seq<Seq<char>>) -> Option<Seq<char>>
    decreases cands.len(),
{
    if cands.len() == 0 {
        None
    } else if json_top(cands[0]) is Some {
        Some(cands[0])
    } else {
        first_json(cands.drop_first())
    }
}

/// The tool call in a `<tool_call>` block's content: that of the first
/// object candidate that parses.
pub open spec fn block_call(raw: Seq<char>) -> Option<CallView> {
    match first_json(object_candidates(raw)) {
        Some(v) => call_from_text(v),
        None => None,
    }
}

pub fn block_call_exec(raw: &Vec<char>) -> (r: Option<ToolCall>)
    ensures
        match r {
            Some(c) => block_call(raw@) == Some(call_view(c)),
            None => block_call(raw@) is None,
        },
{
    let cands = json_object_candidates(raw);
    let ghost cv = views(cands@);
    let mut i: usize = 0;
    assert(cv.skip(0) =~= cv);
    while i < cands.len()
        invariant
            i <= cands@.len(),
            cv == views(cands@),
            cv == object_candidates(raw@),
            first_json(cv) == first_json(cv.skip(i as int)),
        decreases cands.len() - i,
    {
        assert(cv.skip(i as int)[0] == cands@[i as int]@);
        assert(cv.skip(i as int).drop_first() =~= cv.skip(i + 1));
        let s = string_of(&cands[i]);
        let top = json_inspect(s.as_str());
        if top.is_some() {
            return value_to_tool_call(top);
        }
        i = i + 1;
    }
    None
}

// ---------------------------------------------------------------------------
// `<tool_call>` blocks
// ---------------------------------------------------------------------------

pub open spec fn ranges_view(v: Seq<(usize, usize)>) -> Seq<(int, int)> {
    v.map_values(|r: (usize, usize)| (r.0 as int, r.1 as int))
}

pub open spec fn open_tag() -> Seq<char> {
    "<tool_call>"@
}

pub open spec fn close_tag() -> Seq<char> {
    "</tool_call>"@
}

/// The next `<tool_call>` block at or after `offset`: where it starts,
/// where its content starts and ends, and where the block ends; an unclosed
/// block runs to the end of the text.
pub open spec fn xml_block(t: Seq<char>, offset: int) -> Option<(int, int, int, int)> {
    match find_from(t, open_tag(), offset) {
        None => None,
        Some(start) => {
            let cs = start + open_tag().len();
            match find_from(t, close_tag(), cs) {
                Some(e) => Some((start, cs, e, e + close_tag().len())),
                None => Some((start, cs, t.len() as int, t.len() as int)),
            }
        },
    }
}

/// The calls of the `<tool_call>` blocks from `offset` on, with the spans
/// of the blocks that held one.
pub open spec fn xml_scan(t: Seq<char>, offset: int) -> (Seq<CallView>, Seq<(int, int)>)
    decreases t.len() - offset,
    via xml_scan_decreases
{
    match xml_block(t, offset) {
        None => (seq![], seq![]),
        Some((start, cs, ce, be)) => {
            let rest = xml_scan(t, be);
            match block_call(t.subrange(cs, ce)) {
                Some(c) => (seq![c] + rest.0, seq![(start, be)] + rest.1),
                None => rest,
            }
        },
    }
}

pub proof fn lemma_xml_block(t: Seq<char>, offset: int)
    requires
        0 <= offset,
    ensures
        match xml_block(t, offset) {
            Some((start, cs, ce, be)) => offset <= start && start + 11 == cs && cs <= ce <= be
                <= t.len() && (be == t.len() || be == ce + 12),
            None => true,
        },
{
    reveal_strlit("<tool_call>");
    reveal_strlit("</tool_call>");
    lemma_find_from(t, open_tag(), offset);
    if let Some(start) = find_from(t, open_tag(), offset) {
        lemma_find_from(t, close_tag(), start + 11);
    }
}

#[via_fn]
proof fn xml_scan_decreases(t: Seq<char>, offset: int) {
    if offset >= 0 {
        lemma_xml_block(t, offset);
    } else {
        lemma_find_from(t, open_tag(), 0);
        assert(find_from(t, open_tag(), offset) is None);
    }
}

fn collect_xml_calls(text: &Vec<char>, calls: &mut Vec<ToolCall>, consumed: &mut Vec<(usize, usize)>)
    ensures
        calls_view(final(calls)@) == calls_view(old(calls)@) + xml_scan(text@, 0).0,
        ranges_view(final(consumed)@) == ranges_view(old(consumed)@) + xml_scan(text@, 0).1,
{
    let ghost c0 = calls_view(calls@);
    let ghost r0 = ranges_view(consumed@);
    let ghost all = xml_scan(text@, 0);
    let mut offset: usize = 0;
    proof {
        reveal_strlit("<tool_call>");
        reveal_strlit("</tool_call>");
    }
    loop
        invariant
            offset <= text.len(),
            c0 == calls_view(old(calls)@),
            r0 == ranges_view(old(consumed)@),
            all == xml_scan(text@, 0),
            c0 + all.0 == calls_view(calls@) + xml_scan(text@, offset as int).0,
            r0 + all.1 == ranges_view(consumed@) + xml_scan(text@, offset as int).1,
            open_tag().len() == 11,
            close_tag().len() == 12,
        decreases text.len() - offset,
    {
        proof {
            lemma_xml_block(text@, offset as int);
        }
        let start = match find_str_from(text, "<tool_call>", offset) {
            Some(s) => s,
            None => {
                assert(calls_view(calls@) =~= c0 + all.0);
                assert(ranges_view(consumed@) =~= r0 + all.1);
                return ;
            },
        };
        let cs = start + 11;
        let (ce, be) = match find_str_from(text, "</tool_call>", cs) {
            Some(e) => (e, e + 12),
            None => (text.len(), text.len()),
        };
        let raw = slice_chars(text, cs, ce);
        let ghost rest = xml_scan(text@, be as int);
        match block_call_exec(&raw) {
            Some(c) => {
                let ghost cv = calls_view(calls@);
                let ghost rv = ranges_view(consumed@);
                calls.push(c);
                consumed.push((start, be));
                assert(calls_view(calls@) =~= cv.push(call_view(c)));
                assert(ranges_view(consumed@) =~= rv.push((start as int, be as int)));
                assert(c0 + all.0 =~= calls_view(calls@) + rest.0);
                assert(r0 + all.1 =~= ranges_view(consumed@) + rest.1);
            },
            None => {},
        }
        offset = be;
    }
}

// ---------------------------------------------------------------------------
// Fenced blocks
// ---------------------------------------------------------------------------

pub open spec fn fence() -> Seq<char> {
    "```"@
}

/// The next fenced block at or after `offset`: where its opening fence
/// starts, where its body starts (after the rest of the fence line) and
/// where the closing fence starts. `None` when no fence, no line break
/// after it, or no closing fence follows.
pub open spec fn fence_block(t: Seq<char>, offset: int) -> Option<(int, int, int)> {
    match find_from(t, fence(), offset) {
        None => None,
        Some(start) => match find_from(t, seq!['\n'], start + fence().len()) {
            None => None,
            Some(nl) => match find_from(t, fence(), nl + 1) {
                None => None,
                Some(end) => Some((start, nl + 1, end)),
            },
        },
    }
}

/// The calls of the fenced blocks whose trimmed body is a JSON tool call,
/// from `offset` on, with the spans of those blocks.
pub open spec fn fence_scan(t: Seq<char>, offset: int) -> (Seq<CallView>, Seq<(int, int)>)
    decreases t.len() - offset,
    via fence_scan_decreases
{
    match fence_block(t, offset) {
        None => (seq![], seq![]),
        Some((start, bs, end)) => {
            let rest = fence_scan(t, end + fence().len());
            match call_from_text(trim(t.subrange(bs, end))) {
                Some(c) => (seq![c] + rest.0, seq![(start, end + fence().len())] + rest.1),
                None => rest,
            }
        },
    }
}

pub proof fn lemma_fence_block(t: Seq<char>, offset: int)
    requires
        0 <= offset,
    ensures
        match fence_block(t, offset) {
            Some((start, bs, end)) => offset <= start && start + 3 < bs <= end && end + 3 <= t.len(),
            None => true,
        },
{
    reveal_strlit("```");
    lemma_find_from(t, fence(), offset);
    if let Some(start) = find_from(t, fence(), offset) {
        lemma_find_from(t, seq!['\n'], start + 3);
        if let Some(nl) = find_from(t, seq!['\n'], start + 3) {
            lemma_find_from(t, fence(), nl + 1);
        }
    }
}

#[via_fn]
proof fn fence_scan_decreases(t: Seq<char>, offset: int) {
    reveal_strlit("```");
    if offset >= 0 {
        lemma_fence_block(t, offset);
    } else {
        lemma_find_from(t, fence(), 0);
        assert(find_from(t, fence(), offset) is None);
    }
}

fn collect_fenced_json_calls(
    text: &Vec<char>,
    calls: &mut Vec<ToolCall>,
    consumed: &mut Vec<(usize, usize)>,
)
    ensures
        calls_view(final(calls)@) == calls_view(old(calls)@) + fence_scan(text@, 0).0,
        ranges_view(final(consumed)@) == ranges_view(old(consumed)@) + fence_scan(text@, 0).1,
{
    let ghost c0 = calls_view(calls@);
    let ghost r0 = ranges_view(consumed@);
    let ghost all = fence_scan(text@, 0);
    let mut offset: usize = 0;
    let newline = vec!['\n'];
    proof {
        reveal_strlit("```");
    }
    loop
        invariant
            offset <= text.len(),
            newline@ == seq!['\n'],
            c0 == calls_view(old(calls)@),
            r0 == ranges_view(old(consumed)@),
            all == fence_scan(text@, 0),
            c0 + all.0 == calls_view(calls@) + fence_scan(text@, offset as int).0,
            r0 + all.1 == ranges_view(consumed@) + fence_scan(text@, offset as int).1,
            fence().len() == 3,
        decreases text.len() - offset,
    {
        proof {
            lemma_fence_block(text@, offset as int);
            lemma_find_from(text@, fence(), offset as int);
        }
        let found = match find_str_from(text, "```", offset) {
            Some(start) => {
                proof {
                    lemma_find_from(text@, seq!['\n'], start + 3);
                }
                match find_chars_from(text, &newline, start + 3) {
                    Some(nl) => {
                        proof {
                            lemma_find_from(text@, fence(), nl + 1);
                        }
                        match find_str_from(text, "```", nl + 1) {
                            Some(end) => Some((start, nl + 1, end)),
                            None => None,
                        }
                    },
                    None => None,
                }
            },
            None => None,
        };
        let (start, bs, end) = match found {
            Some(f) => f,
            None => {
                assert(calls_view(calls@) =~= c0 + all.0);
                assert(ranges_view(consumed@) =~= r0 + all.1);
                return ;
            },
        };
        let raw = slice_chars(text, bs, end);
        let body = trim_chars(&raw);
        let ghost rest = fence_scan(text@, end + 3);
        match call_from_text_exec(&body) {
            Some(c) => {
                let ghost cv = calls_view(calls@);
                let ghost rv = ranges_view(consumed@);
                calls.push(c);
                consumed.push((start, end + 3));
                assert(calls_view(calls@) =~= cv.push(call_view(c)));
                assert(ranges_view(consumed@) =~= rv.push((start as int, end + 3)));
                assert(c0 + all.0 =~= calls_view(calls@) + rest.0);
                assert(r0 + all.1 =~= ranges_view(consumed@) + rest.1);
            },
            None => {},
        }
        offset = end + 3;
    }
}

// ---------------------------------------------------------------------------
// Bare JSON objects
// ---------------------------------------------------------------------------

/// Same tool and same arguments.
pub open spec fn same_call(a: CallView, b: CallView) -> bool {
    a.0 == b.0 && a.1 == b.1
}

pub open spec fn has_same(calls: Seq<CallView>, c: CallView) -> bool {
    exists|k: int| 0 <= k < calls.len() && #[trigger] same_call(calls[k], c)
}

/// `calls` extended by the calls of the candidates, in order, each unless
/// a call with the same tool and arguments is already there.
pub open spec fn bare_fold(calls: Seq<CallView>, cands: Seq<Seq<char>>) -> Seq<CallView>
    decreases cands.len(),
{
    if cands.len() == 0 {
        calls
    } else {
        let prev = bare_fold(calls, cands.drop_last());
        match call_from_text(cands.last()) {
            Some(c) => if has_same(prev, c) {
                prev
            } else {
                prev.push(c)
            },
            None => prev,
        }
    }
}

fn has_same_exec(calls: &Vec<ToolCall>, c: &ToolCall) -> (r: bool)
    ensures
        r == has_same(calls_view(calls@), call_view(*c)),
{
    let ghost cv = calls_view(calls@);
    let mut i: usize = 0;
    while i < calls.len()
        invariant
            i <= calls@.len(),
            cv == calls_view(calls@),
            forall|k: int| 0 <= k < i ==> !#[trigger] same_call(cv[k], call_view(*c)),
        decreases calls.len() - i,
    {
        if crate::text::same_text(calls[i].tool.as_str(), c.tool.as_str())
            && crate::text::same_text(calls[i].arguments.as_str(), c.arguments.as_str()) {
            assert(same_call(cv[i as int], call_view(*c)));
            return true;
        }
        i = i + 1;
    }
    false
}

/// Bare calls are collected without loss and without repeats: the calls
/// found before stay first; every candidate that reads as a call ends up
/// among the calls (some call with its tool and its arguments); a call is
/// added only when no call before it has both the same tool and the same
/// arguments; and every added call is one that a candidate reads as.
pub proof fn law_bare_calls_kept(calls: Seq<CallView>, cands: Seq<Seq<char>>)
    ensures
        bare_fold(calls, cands).len() >= calls.len(),
        bare_fold(calls, cands).take(calls.len() as int) == calls,
        forall|j: int|
            0 <= j < cands.len() ==> (call_from_text(#[trigger] cands[j]) matches Some(c) ==> exists|k: int|
                0 <= k < bare_fold(calls, cands).len() && (#[trigger] bare_fold(calls, cands)[k]).0 == c.0
                    && bare_fold(calls, cands)[k].1 == c.1),
        forall|i: int, k: int|
            0 <= i < k < bare_fold(calls, cands).len() && calls.len() <= k ==> !((#[trigger] bare_fold(
                calls,
                cands,
            )[i]).0 == (#[trigger] bare_fold(calls, cands)[k]).0 && bare_fold(calls, cands)[i].1 == bare_fold(
                calls,
                cands,
            )[k].1),
        forall|k: int|
            calls.len() <= k < bare_fold(calls, cands).len() ==> exists|j: int|
                0 <= j < cands.len() && call_from_text(#[trigger] cands[j]) == Some(
                    #[trigger] bare_fold(calls, cands)[k],
                ),
    decreases cands.len(),
{
    if cands.len() > 0 {
        let d = cands.drop_last();
        law_bare_calls_kept(calls, d);
        let prev = bare_fold(calls, d);
        let r = bare_fold(calls, cands);
        assert forall|j: int| 0 <= j < d.len() implies d[j] == cands[j] by {}
        match call_from_text(cands.last()) {
            Some(c) => {
                if has_same(prev, c) {
                    let k = choose|k: int| 0 <= k < prev.len() && #[trigger] same_call(prev[k], c);
                    assert(r[k].0 == c.0 && r[k].1 == c.1);
                    assert forall|j: int| 0 <= j < cands.len() implies (call_from_text(#[trigger] cands[j]) matches Some(
                        c2,
                    ) ==> exists|k2: int| 0 <= k2 < r.len() && (#[trigger] r[k2]).0 == c2.0 && r[k2].1 == c2.1) by {
                        if j < d.len() {
                            assert(d[j] == cands[j]);
                        }
                    }
                    assert forall|k2: int| calls.len() <= k2 < r.len() implies exists|j: int|
                        0 <= j < cands.len() && call_from_text(#[trigger] cands[j]) == Some(#[trigger] r[k2]) by {
                        let j = choose|j: int| 0 <= j < d.len() && call_from_text(#[trigger] d[j]) == Some(prev[k2]);
                        assert(cands[j] == d[j]);
                    }
                } else {
                    assert(r == prev.push(c));
                    assert(r.take(calls.len() as int) =~= prev.take(calls.len() as int));
                    assert forall|j: int| 0 <= j < cands.len() implies (call_from_text(#[trigger] cands[j]) matches Some(
                        c2,
                    ) ==> exists|k2: int| 0 <= k2 < r.len() && (#[trigger] r[k2]).0 == c2.0 && r[k2].1 == c2.1) by {
                        if j < d.len() {
                            assert(d[j] == cands[j]);
                            if let Some(c2) = call_from_text(cands[j]) {
                                let k2 = choose|k2: int| 0 <= k2 < prev.len() && (#[trigger] prev[k2]).0 == c2.0
                                    && prev[k2].1 == c2.1;
                                assert(r[k2] == prev[k2]);
                            }
                        } else {
                            assert(r[prev.len() as int] == c);
                        }
                    }
                    assert forall|i: int, k: int|
                        0 <= i < k < r.len() && calls.len() <= k implies !((#[trigger] r[i]).0 == (#[trigger] r[k]).0
                        && r[i].1 == r[k].1) by {
                        if k == prev.len() {
                            assert(r[i] == prev[i]);
                            if r[i].0 == c.0 && r[i].1 == c.1 {
                                assert(same_call(prev[i], c));
                            }
                        } else {
                            assert(r[i] == prev[i] && r[k] == prev[k]);
                        }
                    }
                    assert forall|k2: int| calls.len() <= k2 < r.len() implies exists|j: int|
                        0 <= j < cands.len() && call_from_text(#[trigger] cands[j]) == Some(#[trigger] r[k2]) by {
                        if k2 < prev.len() {
                            let j = choose|j: int| 0 <= j < d.len() && call_from_text(#[trigger] d[j]) == Some(
                                prev[k2],
                            );
                            assert(cands[j] == d[j]);
                        } else {
                            assert(cands[cands.len() - 1] == cands.last());
                        }
                    }
                }
            },
            None => {
                assert forall|j: int| 0 <= j < cands.len() implies (call_from_text(#[trigger] cands[j]) matches Some(
                    c2,
                ) ==> exists|k2: int| 0 <= k2 < r.len() && (#[trigger] r[k2]).0 == c2.0 && r[k2].1 == c2.1) by {
                    if j < d.len() {
                        assert(d[j] == cands[j]);
                    }
                }
                assert forall|k2: int| calls.len() <= k2 < r.len() implies exists|j: int|
                    0 <= j < cands.len() && call_from_text(#[trigger] cands[j]) == Some(#[trigger] r[k2]) by {
                    let j = choose|j: int| 0 <= j < d.len() && call_from_text(#[trigger] d[j]) == Some(prev[k2]);
                    assert(cands[j] == d[j]);
                }
            },
        }
    }
}

/// Every bare JSON object of a reply that reads as a tool call is among the
/// parsed calls (some call with its tool and its arguments).
pub proof fn law_parsed_bare_calls_kept(t: Seq<char>)
    ensures
        forall|j: int|
            0 <= j < object_candidates(t).len() ==> (call_from_text(#[trigger] object_candidates(t)[j]) matches Some(
                c,
            ) ==> exists|k: int|
                0 <= k < parsed_calls(t).len() && (#[trigger] parsed_calls(t)[k]).0 == c.0 && parsed_calls(t)[k].1
                    == c.1),
{
    let found = xml_scan(t, 0).0 + fence_scan(t, 0).0;
    let cands = object_candidates(t);
    law_bare_calls_kept(found, cands);
    let bare = bare_fold(found, cands);
    assert forall|j: int| 0 <= j < cands.len() implies (call_from_text(#[trigger] cands[j]) matches Some(c) ==> exists|
        k: int,
    | 0 <= k < parsed_calls(t).len() && (#[trigger] parsed_calls(t)[k]).0 == c.0 && parsed_calls(t)[k].1 == c.1) by {
        if let Some(c) = call_from_text(cands[j]) {
            let k = choose|k: int| 0 <= k < bare.len() && (#[trigger] bare[k]).0 == c.0 && bare[k].1 == c.1;
            assert(parsed_calls(t)[k] == bare[k]);
        }
    }
}

fn collect_bare_json_calls(text: &Vec<char>, calls: &mut Vec<ToolCall>)
    ensures
        calls_view(final(calls)@) == bare_fold(calls_view(old(calls)@), object_candidates(text@)),
{
    let ghost c0 = calls_view(calls@);
    let cands = json_object_candidates(text);
    let ghost cv = views(cands@);
    let mut i: usize = 0;
    while i < cands.len()
        invariant
            i <= cands@.len(),
            cv == views(cands@),
            cv == object_candidates(text@),
            calls_view(calls@) == bare_fold(c0, cv.take(i as int)),
        decreases cands.len() - i,
    {
        assert(cv.take(i + 1).drop_last() =~= cv.take(i as int));
        assert(cv.take(i + 1).last() == cands@[i as int]@);
        match call_from_text_exec(&cands[i]) {
            Some(c) => {
                if !has_same_exec(calls, &c) {
                    let ghost prev = calls_view(calls@);
                    calls.push(c);
                    assert(calls_view(calls@) =~= prev.push(call_view(c)));
                }
            },
            None => {},
        }
        i = i + 1;
    }
    assert(cv.take(cands@.len() as int) =~= cv);
}

// ---------------------------------------------------------------------------
// Lossy recovery of a malformed `write_file` action
// ---------------------------------------------------------------------------

/// Where the string value of `"field"` starts: just after the first quote
/// that follows the first colon after the first `"field"`.
pub open spec fn field_value_start(t: Seq<char>, field: Seq<char>) -> Option<int> {
    let marker = seq!['"'] + field + seq!['"'];
    match find(t, marker) {
        None => None,
        Some(m) => match find_from(t, seq![':'], m + marker.len()) {
            None => None,
            Some(colon) => match find_from(t, seq!['"'], colon + 1) {
                None => None,
                Some(q) => Some(q + 1),
            },
        },
    }
}

fn field_value_start_exec(t: &Vec<char>, field: &str) -> (r: Option<usize>)
    ensures
        opt_index(r) == field_value_start(t@, field@),
        match r {
            Some(i) => i <= t.len(),
            None => true,
        },
{
    let mut marker = vec!['"'];
    push_str(&mut marker, field);
    marker.push('"');
    assert(marker@ =~= seq!['"'] + field@ + seq!['"']);
    proof {
        lemma_find_from(t@, marker@, 0);
    }
    let m = match crate::text::find_chars(t, &marker) {
        Some(m) => m,
        None => return None,
    };
    assert(matches_at(t@, marker@, m as int));
    assert(m + marker.len() <= t.len());
    let colon_pat = vec![':'];
    assert(colon_pat@ =~= seq![':']);
    proof {
        lemma_find_from(t@, seq![':'], m + marker.len());
    }
    let colon = match find_chars_from(t, &colon_pat, m + marker.len()) {
        Some(c) => c,
        None => return None,
    };
    assert(matches_at(t@, seq![':'], colon as int));
    let quote_pat = vec!['"'];
    assert(quote_pat@ =~= seq!['"']);
    proof {
        lemma_find_from(t@, seq!['"'], colon + 1);
    }
    match find_chars_from(t, &quote_pat, colon + 1) {
        Some(q) => Some(q + 1),
        None => None,
    }
}

/// What a backslash escape stands for in the lossy reader.
pub open spec fn unescape_char(c: char) -> char {
    if c == 'n' {
        '\n'
    } else if c == 'r' {
        '\r'
    } else if c == 't' {
        '\t'
    } else {
        c
    }
}

fn unescape_char_exec(c: char) -> (r: char)
    ensures
        r == unescape_char(c),
{
    if c == 'n' {
        '\n'
    } else if c == 'r' {
        '\r'
    } else if c == 't' {
        '\t'
    } else {
        c
    }
}

/// The string read from index `i` up to the first unescaped quote, with
/// escapes undone; `None` when no closing quote comes.
pub open spec fn read_string_from(t: Seq<char>, i: int, escaped: bool) -> Option<Seq<char>>
    decreases t.len() - i,
{
    if i < 0 || i >= t.len() {
        None
    } else if escaped {
        match read_string_from(t, i + 1, false) {
            Some(o) => Some(seq![unescape_char(t[i])] + o),
            None => None,
        }
    } else if t[i] == '\\' {
        read_string_from(t, i + 1, true)
    } else if t[i] == '"' {
        Some(seq![])
    } else {
        match read_string_from(t, i + 1, false) {
            Some(o) => Some(seq![t[i]] + o),
            None => None,
        }
    }
}

/// The string value of `"field"` in a JSON-like text, read leniently.
pub open spec fn json_string_field(t: Seq<char>, field: Seq<char>) -> Option<Seq<char>> {
    match field_value_start(t, field) {
        Some(start) => read_string_from(t, start, false),
        None => None,
    }
}

fn extract_json_string_field(t: &Vec<char>, field: &str) -> (r: Option<Vec<char>>)
    ensures
        match r {
            Some(o) => json_string_field(t@, field@) == Some(o@),
            None => json_string_field(t@, field@) is None,
        },
{
    let start = match field_value_start_exec(t, field) {
        Some(s) => s,
        None => return None,
    };
    let ghost whole = read_string_from(t@, start as int, false);
    let mut output: Vec<char> = Vec::new();
    let mut escaped = false;
    let mut i = start;
    while i < t.len()
        invariant
            start <= i <= t.len(),
            field_value_start(t@, field@) == Some(start as int),
            whole == read_string_from(t@, start as int, false),
            whole == match read_string_from(t@, i as int, escaped) {
                Some(o) => Some(output@ + o),
                None => None::<Seq<char>>,
            },
        decreases t.len() - i,
    {
        let ch = t[i];
        if escaped {
            let ghost before = output@;
            output.push(unescape_char_exec(ch));
            escaped = false;
            proof {
                match read_string_from(t@, i + 1, false) {
                    Some(o) => assert(output@ + o =~= before + (seq![unescape_char(ch)] + o)),
                    None => {},
                }
            }
        } else if ch == '\\' {
            escaped = true;
        } else if ch == '"' {
            assert(read_string_from(t@, i as int, false) == Some(Seq::<char>::empty()));
            assert(output@ + seq![] =~= output@);
            assert(whole == Some(output@));
            return Some(output);
        } else {
            let ghost before = output@;
            output.push(ch);
            proof {
                match read_string_from(t@, i + 1, false) {
                    Some(o) => assert(output@ + o =~= before + (seq![ch] + o)),
                    None => {},
                }
            }
        }
        i = i + 1;
    }
    None
}

/// Escapes undone from index `i` on; a trailing backslash is dropped.
pub open spec fn unescape_from(t: Seq<char>, i: int, escaped: bool) -> Seq<char>
    decreases t.len() - i,
{
    if i < 0 || i >= t.len() {
        seq![]
    } else if escaped {
        seq![unescape_char(t[i])] + unescape_from(t, i + 1, false)
    } else if t[i] == '\\' {
        unescape_from(t, i + 1, true)
    } else {
        seq![t[i]] + unescape_from(t, i + 1, false)
    }
}

pub open spec fn unescape(t: Seq<char>) -> Seq<char> {
    unescape_from(t, 0, false)
}

fn unescape_jsonish(t: &Vec<char>) -> (r: Vec<char>)
    ensures
        r@ == unescape(t@),
{
    let mut output: Vec<char> = Vec::new();
    let mut escaped = false;
    let mut i: usize = 0;
    while i < t.len()
        invariant
            i <= t.len(),
            unescape(t@) == output@ + unescape_from(t@, i as int, escaped),
        decreases t.len() - i,
    {
        let ch = t[i];
        let ghost before = output@;
        if escaped {
            output.push(unescape_char_exec(ch));
            escaped = false;
            assert(output@ + unescape_from(t@, i + 1, false) =~= before + (seq![unescape_char(ch)]
                + unescape_from(t@, i + 1, false)));
        } else if ch == '\\' {
            escaped = true;
        } else {
            output.push(ch);
            assert(output@ + unescape_from(t@, i + 1, false) =~= before + (seq![ch]
                + unescape_from(t@, i + 1, false)));
        }
        i = i + 1;
    }
    assert(output@ + seq![] =~= output@);
    output
}

/// The last index at which `p` occurs in `s` below `j` (`str::rfind`
/// when `j` is past the end).
pub open spec fn rfind_below(s: Seq<char>, p: Seq<char>, j: int) -> Option<int>
    decreases j,
{
    if j <= 0 {
        None
    } else if matches_at(s, p, j - 1) {
        Some(j - 1)
    } else {
        rfind_below(s, p, j - 1)
    }
}

pub open spec fn rfind(s: Seq<char>, p: Seq<char>) -> Option<int> {
    rfind_below(s, p, s.len() + 1 as int)
}

fn rfind_chars(s: &Vec<char>, p: &Vec<char>) -> (r: Option<usize>)
    ensures
        opt_index(r) == rfind(s@, p@),
        match r {
            Some(i) => i + p.len() <= s.len(),
            None => true,
        },
{
    if p.len() > s.len() {
        proof {
            assert forall|j: int| 0 <= j implies rfind_below(s@, p@, j) is None by {
                lemma_rfind_none(s@, p@, j);
            }
        }
        return None;
    }
    let mut j = s.len() - p.len();
    proof {
        lemma_rfind_skip(s@, p@, s.len() + 1 as int, j + 1);
    }
    loop
        invariant
            j + p.len() <= s.len(),
            rfind(s@, p@) == rfind_below(s@, p@, j + 1),
        decreases j,
    {
        if matches_at_exec(s, p, j) {
            return Some(j);
        }
        if j == 0 {
            assert(rfind_below(s@, p@, 0) is None);
            return None;
        }
        j = j - 1;
    }
}

proof fn lemma_rfind_none(s: Seq<char>, p: Seq<char>, j: int)
    requires
        p.len() > s.len(),
    ensures
        rfind_below(s, p, j) is None,
    decreases j,
{
    if j > 0 {
        lemma_rfind_none(s, p, j - 1);
    }
}

/// Indices from which `p` cannot fit are passed over.
proof fn lemma_rfind_skip(s: Seq<char>, p: Seq<char>, j: int, top: int)
    requires
        top == s.len() - p.len() + 1,
        0 <= top <= j,
    ensures
        rfind_below(s, p, j) == rfind_below(s, p, top),
    decreases j,
{
    if j > top {
        lemma_rfind_skip(s, p, j - 1, top);
    }
}

/// The `content` value of a malformed action, read leniently: up to the
/// last `"}` (or `"` newline `}`) after it, trimmed, else the trimmed rest
/// without trailing braces and quotes; cut at a repeated action object,
/// then unescaped.
pub open spec fn content_field_lossy(t: Seq<char>) -> Option<Seq<char>> {
    match field_value_start(t, "content"@) {
        None => None,
        Some(start) => {
            let rest = t.subrange(start, t.len() as int);
            let end = match rfind(rest, seq!['"', '}']) {
                Some(e) => Some(e),
                None => rfind(rest, seq!['"', '\n', '}']),
            };
            let content = match end {
                Some(e) => trim(rest.take(e)),
                None => trim_end_matches(trim_end_matches(trim(rest), '}'), '"'),
            };
            let cut = match find(content, "\n{\"action\""@) {
                Some(d) => content.take(d),
                None => content,
            };
            Some(unescape(cut))
        },
    }
}

fn extract_content_field_lossy(t: &Vec<char>) -> (r: Option<Vec<char>>)
    ensures
        match r {
            Some(o) => content_field_lossy(t@) == Some(o@),
            None => content_field_lossy(t@) is None,
        },
{
    let start = match field_value_start_exec(t, "content") {
        Some(s) => s,
        None => return None,
    };
    let rest = slice_chars(t, start, t.len());
    let end = match rfind_chars(&rest, &vec!['"', '}']) {
        Some(e) => Some(e),
        None => rfind_chars(&rest, &vec!['"', '\n', '}']),
    };
    let content = match end {
        Some(e) => {
            assert(rest@.take(e as int) =~= rest@.subrange(0, e as int));
            let head = slice_chars(&rest, 0, e);
            trim_chars(&head)
        },
        None => {
            let trimmed = trim_chars(&rest);
            let a = trim_end_matches_exec(&trimmed, '}');
            trim_end_matches_exec(&a, '"')
        },
    };
    let cut = match crate::text::find_str_from(&content, "\n{\"action\"", 0) {
        Some(d) => {
            proof {
                lemma_find_from(content@, "\n{\"action\""@, 0);
            }
            assert(content@.take(d as int) =~= content@.subrange(0, d as int));
            slice_chars(&content, 0, d)
        },
        None => content,
    };
    Some(unescape_jsonish(&cut))
}

/// The arguments of a `write_file` call: the object holding the path and
/// the content, as `serde_json` writes it.
pub open spec fn write_file_arguments(path: Seq<char>, content: Seq<char>) -> Seq<char> {
    crate::json::object_text_of(crate::json::str_fields(seq![("path"@, path), ("content"@, content)]))
}

pub fn write_file_arguments_exec(path: String, content: String) -> (r: String)
    ensures
        r@ == write_file_arguments(path@, content@),
        crate::json::string_member(r@, "path"@) == Some(path@),
        crate::json::string_member(r@, "content"@) == Some(content@),
{
    let ghost (p, c) = (path@, content@);
    let entries = vec![(owned("path"), path), (owned("content"), content)];
    proof {
        reveal_strlit("path");
        reveal_strlit("content");
        assert(pairs_view(entries@) =~= seq![("path"@, p), ("content"@, c)]);
        assert("path"@[0] != "content"@[0]);
    }
    let r = crate::json::string_object(&entries);
    assert(crate::json::string_member(r@, entries@[0].0@) == Some(entries@[0].1@));
    assert(crate::json::string_member(r@, entries@[1].0@) == Some(entries@[1].1@));
    r
}

pub open spec fn any_write_file(calls: Seq<CallView>) -> bool {
    exists|k: int| 0 <= k < calls.len() && (#[trigger] calls[k]).0 == "write_file"@
}

/// The `write_file` call recovered from a malformed action, when no
/// `write_file` call was found otherwise.
pub open spec fn malformed_call(calls: Seq<CallView>, t: Seq<char>) -> Option<CallView> {
    if any_write_file(calls) {
        None
    } else if !(contains(t, "\"action\":\"write_file\""@) || contains(
        t,
        "\"action\": \"write_file\""@,
    )) {
        None
    } else {
        match (json_string_field(t, "path"@), content_field_lossy(t)) {
            (Some(path), Some(content)) => Some(
                ("write_file"@, write_file_arguments(path, content), None),
            ),
            _ => None,
        }
    }
}

pub open spec fn push_opt(calls: Seq<CallView>, c: Option<CallView>) -> Seq<CallView> {
    match c {
        Some(x) => calls.push(x),
        None => calls,
    }
}

fn collect_malformed_action_calls(text: &Vec<char>, calls: &mut Vec<ToolCall>)
    ensures
        calls_view(final(calls)@) == push_opt(
            calls_view(old(calls)@),
            malformed_call(calls_view(old(calls)@), text@),
        ),
{
    let ghost cv = calls_view(calls@);
    let mut i: usize = 0;
    while i < calls.len()
        invariant
            i <= calls@.len(),
            cv == calls_view(calls@),
            forall|k: int| 0 <= k < i ==> (#[trigger] cv[k]).0 != "write_file"@,
        decreases calls.len() - i,
    {
        if crate::text::same_text(calls[i].tool.as_str(), "write_file") {
            assert(cv[i as int].0 == "write_file"@);
            return ;
        }
        i = i + 1;
    }
    if !(crate::text::contains_str(text, "\"action\":\"write_file\"")
        || crate::text::contains_str(text, "\"action\": \"write_file\"")) {
        return ;
    }
    let path = match extract_json_string_field(text, "path") {
        Some(p) => p,
        None => return ,
    };
    let content = match extract_content_field_lossy(text) {
        Some(c) => c,
        None => return ,
    };
    let ps = string_of(&path);
    let cs = string_of(&content);
    let args = write_file_arguments_exec(ps, cs);
    let call = ToolCall { tool: owned("write_file"), arguments: args, call_id: None };
    calls.push(call);
    assert(calls_view(calls@) =~= cv.push(call_view(call)));
}

// ---------------------------------------------------------------------------
// Visible text
// ---------------------------------------------------------------------------

/// The text kept, and the cursor, after cutting out `ranges` in order; a
/// range that starts before the cursor is passed over.
pub open spec fn strip_fold(t: Seq<char>, ranges: Seq<(int, int)>) -> (Seq<char>, int)
    decreases ranges.len(),
{
    if ranges.len() == 0 {
        (seq![], 0)
    } else {
        let (out, cursor) = strip_fold(t, ranges.drop_last());
        let (start, end) = ranges.last();
        if start >= cursor {
            (out + t.subrange(cursor, start), end)
        } else {
            (out, cursor)
        }
    }
}

/// `t` with the spans in `ranges` cut out.
pub open spec fn strip_ranges_spec(t: Seq<char>, ranges: Seq<(int, int)>) -> Seq<char> {
    let (out, cursor) = strip_fold(t, ranges);
    out + t.subrange(cursor, t.len() as int)
}

/// The spans are within the text, each one well ordered.
pub open spec fn ranges_ok(ranges: Seq<(int, int)>, n: int) -> bool {
    forall|k: int| 0 <= k < ranges.len() ==> 0 <= (#[trigger] ranges[k]).0 <= ranges[k].1 <= n
}

proof fn lemma_strip_fold_cursor(t: Seq<char>, ranges: Seq<(int, int)>)
    requires
        ranges_ok(ranges, t.len() as int),
    ensures
        0 <= strip_fold(t, ranges).1 <= t.len(),
    decreases ranges.len(),
{
    if ranges.len() > 0 {
        assert(ranges_ok(ranges.drop_last(), t.len() as int)) by {
            assert forall|k: int| 0 <= k < ranges.drop_last().len() implies 0 <= (
            #[trigger] ranges.drop_last()[k]).0 <= ranges.drop_last()[k].1 <= t.len() by {
                assert(ranges.drop_last()[k] == ranges[k]);
            }
        }
        lemma_strip_fold_cursor(t, ranges.drop_last());
        assert(ranges.last() == ranges[ranges.len() - 1]);
    }
}

fn strip_ranges(t: &Vec<char>, ranges: &Vec<(usize, usize)>) -> (r: Vec<char>)
    requires
        ranges_ok(ranges_view(ranges@), t.len() as int),
    ensures
        r@ == strip_ranges_spec(t@, ranges_view(ranges@)),
{
    let ghost rv = ranges_view(ranges@);
    let mut out: Vec<char> = Vec::new();
    let mut cursor: usize = 0;
    let mut i: usize = 0;
    while i < ranges.len()
        invariant
            i <= ranges@.len(),
            rv == ranges_view(ranges@),
            ranges_ok(rv, t.len() as int),
            strip_fold(t@, rv.take(i as int)) == (out@, cursor as int),
            cursor <= t.len(),
        decreases ranges.len() - i,
    {
        assert(rv.take(i + 1).drop_last() =~= rv.take(i as int));
        assert(rv.take(i + 1).last() == rv[i as int]);
        assert(rv[i as int] == (ranges@[i as int].0 as int, ranges@[i as int].1 as int));
        let (start, end) = ranges[i];
        if start >= cursor {
            let piece = slice_chars(t, cursor, start);
            push_all(&mut out, &piece);
            cursor = end;
        }
        i = i + 1;
    }
    assert(rv.take(ranges@.len() as int) =~= rv);
    let tail = slice_chars(t, cursor, t.len());
    push_all(&mut out, &tail);
    out
}

// ---------------------------------------------------------------------------
// The whole parse
// ---------------------------------------------------------------------------

/// The tool calls read out of a model's output, and the text left for
/// display.
#[derive(Debug)]
pub struct ParsedToolCalls {
    pub calls: Vec<ToolCall>,
    pub visible_text: String,
}

/// All calls, in order: `<tool_call>` blocks, fenced blocks, bare objects
/// not already found, and a recovered `write_file` action.
pub open spec fn parsed_calls(t: Seq<char>) -> Seq<CallView> {
    let found = xml_scan(t, 0).0 + fence_scan(t, 0).0;
    let bare = bare_fold(found, object_candidates(t));
    push_opt(bare, malformed_call(bare, t))
}

/// The spans cut from the visible text: those of the blocks that held calls.
pub open spec fn consumed_ranges(t: Seq<char>) -> Seq<(int, int)> {
    xml_scan(t, 0).1 + fence_scan(t, 0).1
}

/// The visible text: the whole output when no call was found; nothing when
/// calls came only from bare objects of an output that mentions
/// `"action"`; else the output without the consumed blocks, trimmed.
pub open spec fn visible_text(t: Seq<char>) -> Seq<char> {
    if parsed_calls(t).len() == 0 {
        t
    } else if consumed_ranges(t).len() == 0 && contains(t, "\"action\""@) {
        seq![]
    } else {
        trim(strip_ranges_spec(t, consumed_ranges(t)))
    }
}

proof fn lemma_scan_ranges_ok(t: Seq<char>)
    ensures
        ranges_ok(consumed_ranges(t), t.len() as int),
{
    lemma_xml_ranges_ok(t, 0);
    lemma_fence_ranges_ok(t, 0);
}

proof fn lemma_xml_ranges_ok(t: Seq<char>, offset: int)
    requires
        0 <= offset,
    ensures
        ranges_ok(xml_scan(t, offset).1, t.len() as int),
    decreases t.len() - offset,
{
    lemma_xml_block(t, offset);
    match xml_block(t, offset) {
        None => {},
        Some((start, cs, ce, be)) => {
            lemma_xml_ranges_ok(t, be);
            let rest = xml_scan(t, be);
            if let Some(c) = block_call(t.subrange(cs, ce)) {
                let rs = seq![(start, be)] + rest.1;
                assert forall|k: int| 0 <= k < rs.len() implies 0 <= (#[trigger] rs[k]).0
                    <= rs[k].1 <= t.len() by {
                    if k > 0 {
                        assert(rs[k] == rest.1[k - 1]);
                    }
                }
            }
        },
    }
}

proof fn lemma_fence_ranges_ok(t: Seq<char>, offset: int)
    requires
        0 <= offset,
    ensures
        ranges_ok(fence_scan(t, offset).1, t.len() as int),
    decreases t.len() - offset,
{
    reveal_strlit("```");
    lemma_fence_block(t, offset);
    match fence_block(t, offset) {
        None => {},
        Some((start, bs, end)) => {
            lemma_fence_ranges_ok(t, end + 3);
            let rest = fence_scan(t, end + 3);
            if let Some(c) = call_from_text(trim(t.subrange(bs, end))) {
                let rs = seq![(start, end + 3)] + rest.1;
                assert forall|k: int| 0 <= k < rs.len() implies 0 <= (#[trigger] rs[k]).0
                    <= rs[k].1 <= t.len() by {
                    if k > 0 {
                        assert(rs[k] == rest.1[k - 1]);
                    }
                }
            }
        },
    }
}

/// Reads the tool calls out of a model's output. It never fails.
pub fn parse_model_output(text: &str) -> (r: Result<ParsedToolCalls, String>)
    ensures
        match r {
            Ok(p) => calls_view(p.calls@) == parsed_calls(text@) && p.visible_text@ == visible_text(
                text@,
            ),
            Err(_) => false,
        },
{
    let t = chars_of(text);
    let mut calls: Vec<ToolCall> = Vec::new();
    let mut consumed: Vec<(usize, usize)> = Vec::new();
    collect_xml_calls(&t, &mut calls, &mut consumed);
    collect_fenced_json_calls(&t, &mut calls, &mut consumed);
    assert(calls_view(calls@) =~= xml_scan(t@, 0).0 + fence_scan(t@, 0).0);
    assert(ranges_view(consumed@) =~= consumed_ranges(t@));
    collect_bare_json_calls(&t, &mut calls);
    collect_malformed_action_calls(&t, &mut calls);
    let visible = if calls.len() == 0 {
        owned(text)
    } else if consumed.len() == 0 && crate::text::contains_str(&t, "\"action\"") {
        String::new()
    } else {
        proof {
            lemma_scan_ranges_ok(t@);
        }
        let stripped = strip_ranges(&t, &consumed);
        string_of(&trim_chars(&stripped))
    };
    Ok(ParsedToolCalls { calls, visible_text: visible })
}

} // verus!
