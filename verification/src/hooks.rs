//! Hooks run before and after tool calls: what they are told, and when
//! they deny an operation.
use vstd::prelude::*;
use crate::config::HookCommand;
use crate::json::{
    fields_view, is_scalar, json_object, json_top, keys_ascending, object_text_of, scalar_members,
    string_member, texts_read, JsonField, JsonFieldView,
};
use crate::text::{chars_of, owned, push_str, string_of, trim, trim_chars};
use crate::tools::{ToolCall, ToolResult};

verus! {

/// The hooks configured for tool calls.
#[derive(Debug)]
pub struct HookRunner {
    pub pre_tool: Vec<HookCommand>,
    pub post_tool: Vec<HookCommand>,
}

impl HookRunner {
    pub fn new(pre_tool: Vec<HookCommand>, post_tool: Vec<HookCommand>) -> (r: HookRunner)
        ensures
            r.pre_tool == pre_tool,
            r.post_tool == post_tool,
    {
        HookRunner { pre_tool, post_tool }
    }
}

impl Default for HookRunner {
    fn default() -> (r: HookRunner)
        ensures
            r.pre_tool@.len() == 0,
            r.post_tool@.len() == 0,
    {
        HookRunner { pre_tool: Vec::new(), post_tool: Vec::new() }
    }
}

/// The fields a hook is told before a call.
pub open spec fn pre_tool_fields(tool: Seq<char>, arguments: Seq<char>) -> Seq<(Seq<char>, JsonFieldView)> {
    seq![
        ("phase"@, JsonFieldView::Str("pre-tool"@)),
        ("tool"@, JsonFieldView::Str(tool)),
        ("arguments"@, JsonFieldView::Text(arguments)),
    ]
}

/// What a hook is told before a call: the object of [`pre_tool_fields`]
/// as `serde_json` writes it; there is none when the arguments are not
/// JSON.
pub fn pre_tool_payload(call: &ToolCall) -> (r: Option<String>)
    ensures
        r is Some <==> json_top(call.arguments@) is Some,
        r matches Some(t) ==> t@ == object_text_of(pre_tool_fields(call.tool@, call.arguments@)),
{
    let fields = vec![
        (owned("phase"), JsonField::Str(owned("pre-tool"))),
        (owned("tool"), JsonField::Str(call.tool.clone())),
        (owned("arguments"), JsonField::Text(call.arguments.clone())),
    ];
    proof {
        reveal_strlit("phase");
        reveal_strlit("tool");
        reveal_strlit("arguments");
        let fv = fields_view(fields@);
        assert(fv =~= pre_tool_fields(call.tool@, call.arguments@));
        assert("phase"@[0] != "tool"@[0] && "phase"@[0] != "arguments"@[0] && "tool"@[0] != "arguments"@[0]);
        assert(texts_read(fv) <==> json_top(call.arguments@) is Some) by {
            assert(fv[2].1 == JsonFieldView::Text(call.arguments@));
            if json_top(call.arguments@) is Some {
                assert forall|k: int| 0 <= k < fv.len() implies match #[trigger] fv[k].1 {
                    JsonFieldView::Text(t) => json_top(t) is Some,
                    JsonFieldView::Texts(ts) => forall|j: int| 0 <= j < ts.len() ==> json_top(#[trigger] ts[j]) is Some,
                    _ => true,
                } by {
                    assert(k == 0 || k == 1 || k == 2);
                }
            }
        }
    }
    json_object(&fields)
}

/// The fields a hook is told after a call.
pub open spec fn post_tool_fields(tool: Seq<char>, success: bool, content: Seq<char>) -> Seq<(Seq<char>, JsonFieldView)> {
    seq![
        ("phase"@, JsonFieldView::Str("post-tool"@)),
        ("tool"@, JsonFieldView::Str(tool)),
        ("success"@, JsonFieldView::Bool(success)),
        ("content"@, JsonFieldView::Str(content)),
    ]
}

/// The fields a hook is told after a call, in the order of their keys.
pub open spec fn post_tool_sorted(tool: Seq<char>, success: bool, content: Seq<char>) -> Seq<(Seq<char>, JsonFieldView)> {
    seq![
        ("content"@, JsonFieldView::Str(content)),
        ("phase"@, JsonFieldView::Str("post-tool"@)),
        ("success"@, JsonFieldView::Bool(success)),
        ("tool"@, JsonFieldView::Str(tool)),
    ]
}

/// What a hook is told after a call: the object of [`post_tool_fields`] as
/// `serde_json` writes it, which is its members in the order of their keys.
pub fn post_tool_payload(result: &ToolResult) -> (r: String)
    ensures
        r@ == object_text_of(post_tool_fields(result.tool@, result.success, result.content@)),
        r@ == "{"@ + scalar_members(post_tool_sorted(result.tool@, result.success, result.content@)) + "}"@,
        string_member(r@, "tool"@) == Some(result.tool@),
        string_member(r@, "content"@) == Some(result.content@),
{
    let fields = vec![
        (owned("phase"), JsonField::Str(owned("post-tool"))),
        (owned("tool"), JsonField::Str(result.tool.clone())),
        (owned("success"), JsonField::Bool(result.success)),
        (owned("content"), JsonField::Str(result.content.clone())),
    ];
    let ghost fv = fields_view(fields@);
    proof {
        reveal_strlit("phase");
        reveal_strlit("tool");
        reveal_strlit("success");
        reveal_strlit("content");
        assert(fv =~= post_tool_fields(result.tool@, result.success, result.content@));
        assert("phase"@[0] != "tool"@[0] && "phase"@[0] != "success"@[0] && "phase"@[0] != "content"@[0]);
        assert("tool"@[0] != "success"@[0] && "tool"@[0] != "content"@[0] && "success"@[0] != "content"@[0]);
        assert(texts_read(fv));
    }
    let ghost sorted = post_tool_sorted(result.tool@, result.success, result.content@);
    proof {
        broadcast use vstd::seq_lib::group_to_multiset_ensures, vstd::multiset::group_multiset_axioms;

        assert(keys_ascending(sorted)) by {
            assert forall|i: int, j: int| 0 <= i < j < sorted.len() implies crate::map::text_lt(
                #[trigger] sorted[i].0,
                #[trigger] sorted[j].0,
            ) by {
                assert("content"@[0] == 'c' && "phase"@[0] == 'p' && "success"@[0] == 's' && "tool"@[0] == 't');
            }
        }
        let a = sorted[0];
        let b = sorted[1];
        let c = sorted[2];
        let d = sorted[3];
        assert(sorted =~= Seq::empty().push(a).push(b).push(c).push(d));
        assert(fv =~= Seq::empty().push(b).push(d).push(c).push(a));
        assert(sorted.to_multiset() =~= fv.to_multiset());
        assert(forall|k: int| 0 <= k < sorted.len() ==> is_scalar(#[trigger] sorted[k].1));
    }
    match json_object(&fields) {
        Some(t) => {
            assert(fields@[1].1 matches JsonField::Str(s) && s@ == result.tool@);
            assert(fields@[3].1 matches JsonField::Str(s) && s@ == result.content@);
            t
        },
        None => {
            assert(false);
            String::new()
        },
    }
}

/// The exit code as `Option`'s `Debug` writes it.
pub open spec fn code_text(code: Option<i32>) -> Seq<char> {
    match code {
        Some(c) => "Some("@ + crate::text::signed_decimal(c as int) + ")"@,
        None => "None"@,
    }
}

/// The error of a hook that exits unsuccessfully and so denies the
/// operation.
pub open spec fn hook_denial(command: Seq<char>, code: Option<i32>, stderr: Seq<char>) -> Seq<char> {
    "hook `"@ + command + "` denied operation with status "@ + code_text(code) + ": "@ + trim(stderr)
}

pub fn hook_outcome(command: &str, success: bool, code: Option<i32>, stderr: &str) -> (r: Result<(), String>)
    ensures
        success ==> r is Ok,
        !success ==> (r matches Err(m) && m@ == hook_denial(command@, code, stderr@)),
{
    if success {
        return Ok(());
    }
    let mut out = chars_of("hook `");
    push_str(&mut out, command);
    push_str(&mut out, "` denied operation with status ");
    match code {
        Some(c) => {
            push_str(&mut out, "Some(");
            crate::text::push_all(&mut out, &crate::text::i64_to_chars(c as i64));
            push_str(&mut out, ")");
        },
        None => push_str(&mut out, "None"),
    }
    push_str(&mut out, ": ");
    crate::text::push_all(&mut out, &trim_chars(&chars_of(stderr)));
    Err(string_of(&out))
}

} // verus!
