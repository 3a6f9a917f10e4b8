//! Terminal presentation: the mascot, the prompt box, and one-line
//! summaries of tool calls and results.
use vstd::prelude::*;
use crossterm::style::Stylize;
use crate::json::{as_int, as_int_exec, json_top, json_inspect, member, member_exec, string_member, string_member_exec};
use crate::text::{
    chars_of, contains, first_nonblank, first_nonblank_exec, i64_to_chars, is_blank, lines,
    lines_of, nonblank_lines, nonblank_lines_exec, owned, push_all, push_repeat, push_str,
    repeat_char, signed_decimal, string_of, trim, trim_chars, truncate_chars, truncated, views,
    decimal, usize_to_chars,
};
use crate::tools::{ToolCall, ToolResult};

verus! {

pub const MASCOT_HEIGHT: usize = 4;

pub const MASCOT_WIDTH: usize = 12;

/// What the header shows.
pub struct HeaderInfo<'a> {
    pub version: &'a str,
    pub provider: &'a str,
    pub model: &'a str,
    pub effort: &'a str,
    pub permissions: &'a str,
    pub workspace: &'a str,
    pub context_files: usize,
    pub session_short: &'a str,
    pub mode: &'a str,
}

/// What the footer shows.
pub struct FooterInfo<'a> {
    pub provider: &'a str,
    pub model: &'a str,
    pub effort: &'a str,
    pub permissions: &'a str,
    pub mode: &'a str,
    pub branch: &'a str,
    pub repo_state: &'a str,
    pub session_short: &'a str,
}

// ---------------------------------------------------------------------------
// The mascot
// ---------------------------------------------------------------------------

/// Line `k` of mascot frame `f`.
pub open spec fn mascot_line(f: int, k: int) -> Seq<char> {
    if f == 0 {
        if k == 0 {
            "\\  _    _  /"@
        } else if k == 1 {
            " \\(o)--(o)/ "@
        } else if k == 2 {
            "  /  ==  \\  "@
        } else {
            " /_/    \\_\\ "@
        }
    } else if f == 1 {
        if k == 0 {
            " \\ _    _ / "@
        } else if k == 1 {
            "  (o)--(o)  "@
        } else if k == 2 {
            "  /  ==  \\  "@
        } else {
            " /_/    \\_\\ "@
        }
    } else {
        if k == 0 {
            "  _      _  "@
        } else if k == 1 {
            " (o)--(o)   "@
        } else if k == 2 {
            " /  ==  \\   "@
        } else {
            "/_/    \\_\\  "@
        }
    }
}

/// Every line of every mascot frame is exactly [`MASCOT_WIDTH`] characters wide.
pub proof fn lemma_mascot_width(f: int, k: int)
    requires
        0 <= f < 3,
        0 <= k < 4,
    ensures
        mascot_line(f, k).len() == MASCOT_WIDTH,
{
    reveal_strlit("\\  _    _  /");
    reveal_strlit(" \\(o)--(o)/ ");
    reveal_strlit("  /  ==  \\  ");
    reveal_strlit(" /_/    \\_\\ ");
    reveal_strlit(" \\ _    _ / ");
    reveal_strlit("  (o)--(o)  ");
    reveal_strlit("  _      _  ");
    reveal_strlit(" (o)--(o)   ");
    reveal_strlit(" /  ==  \\   ");
    reveal_strlit("/_/    \\_\\  ");
}

/// The mascot frame for an animation tick (three frames, in turn).
pub fn mascot_frame(tick: usize) -> (r: Vec<&'static str>)
    ensures
        r@.len() == MASCOT_HEIGHT,
        forall|k: int| 0 <= k < 4 ==> (#[trigger] r@[k])@ == mascot_line(tick as int % 3, k),
{
    let f = tick % 3;
    if f == 0 {
        vec!["\\  _    _  /", " \\(o)--(o)/ ", "  /  ==  \\  ", " /_/    \\_\\ "]
    } else if f == 1 {
        vec![" \\ _    _ / ", "  (o)--(o)  ", "  /  ==  \\  ", " /_/    \\_\\ "]
    } else {
        vec!["  _      _  ", " (o)--(o)   ", " /  ==  \\   ", "/_/    \\_\\  "]
    }
}

/// All mascot frames, in order.
pub fn mascot_frames() -> (r: Vec<Vec<&'static str>>)
    ensures
        r@.len() == 3,
        forall|f: int, k: int|
            0 <= f < 3 && 0 <= k < 4 ==> (#[trigger] r@[f]@[k])@ == mascot_line(f, k) && r@[f]@.len()
                == MASCOT_HEIGHT,
{
    let mut r: Vec<Vec<&'static str>> = Vec::new();
    r.push(mascot_frame(0));
    r.push(mascot_frame(1));
    r.push(mascot_frame(2));
    r
}

/// Blank space as wide as the mascot.
pub fn mascot_indent() -> (r: String)
    ensures
        r@ == repeat_char(' ', MASCOT_WIDTH as nat),
{
    let mut out: Vec<char> = Vec::new();
    push_repeat(&mut out, ' ', MASCOT_WIDTH);
    string_of(&out)
}

// ---------------------------------------------------------------------------
// Summaries
// ---------------------------------------------------------------------------

/// The first `max_chars` characters, with `...` when more followed.
pub fn truncate(value: &str, max_chars: usize) -> (r: String)
    ensures
        r@ == truncated(value@, max_chars as nat),
{
    string_of(&truncate_chars(&chars_of(value), max_chars))
}

/// The first non-blank line, trimmed and cut to 120 characters, or
/// `no output`.
pub open spec fn first_line_text(content: Seq<char>) -> Seq<char> {
    match first_nonblank(lines(content)) {
        Some(l) => truncated(trim(l), 120),
        None => "no output"@,
    }
}

pub fn first_line_or_count(content: &str) -> (r: String)
    ensures
        r@ == first_line_text(content@),
{
    let ls = lines_of(&chars_of(content));
    match first_nonblank_exec(&ls) {
        Some(l) => string_of(&truncate_chars(&trim_chars(&l), 120)),
        None => owned("no output"),
    }
}

pub fn non_empty_line_count(content: &str) -> (r: usize)
    ensures
        r == nonblank_lines(lines(content@)).len(),
{
    let ls = lines_of(&chars_of(content));
    nonblank_lines_exec(&ls).len()
}

/// The first two non-blank lines, two spaces apart; `updated` when there
/// are none.
pub open spec fn file_mutation_text(content: Seq<char>) -> Seq<char> {
    let nb = nonblank_lines(lines(content));
    if nb.len() == 0 {
        "updated"@
    } else if nb.len() == 1 {
        nb[0]
    } else {
        nb[0] + "  "@ + nb[1]
    }
}

pub fn summarize_file_mutation(content: &str) -> (r: String)
    ensures
        r@ == file_mutation_text(content@),
{
    let nb = nonblank_lines_exec(&lines_of(&chars_of(content)));
    if nb.len() == 0 {
        owned("updated")
    } else if nb.len() == 1 {
        string_of(&nb[0])
    } else {
        let mut out = nb[0].clone();
        assert(out@ == nb@[0]@);
        push_str(&mut out, "  ");
        push_all(&mut out, &nb[1]);
        string_of(&out)
    }
}

/// A shell result: `exit N`, then two spaces and the first non-blank line
/// of its output (stdout before stderr), trimmed and cut to 96
/// characters; a result that is not JSON is summarized by its first line.
pub open spec fn shell_summary_text(content: Seq<char>) -> Seq<char> {
    if json_top(content) is None {
        first_line_text(content)
    } else {
        let status: int = match member(content, "status"@) {
            Some(v) => match as_int(v) {
                Some(i) => i as int,
                None => -1,
            },
            None => -1,
        };
        let stdout = match string_member(content, "stdout"@) {
            Some(s) => s,
            None => Seq::<char>::empty(),
        };
        let stderr = match string_member(content, "stderr"@) {
            Some(s) => s,
            None => Seq::<char>::empty(),
        };
        match first_nonblank(lines(stdout) + lines(stderr)) {
            Some(p) => "exit "@ + signed_decimal(status) + "  "@ + truncated(trim(p), 96),
            None => "exit "@ + signed_decimal(status),
        }
    }
}

pub fn summarize_shell_json(content: &str) -> (r: String)
    ensures
        r@ == shell_summary_text(content@),
{
    if json_inspect(content).is_none() {
        return first_line_or_count(content);
    }
    let status: i64 = match member_exec(content, "status") {
        Some(v) => match as_int_exec(v.as_str()) {
            Some(i) => i,
            None => -1,
        },
        None => -1,
    };
    let stdout = match string_member_exec(content, "stdout") {
        Some(s) => s,
        None => String::new(),
    };
    let stderr = match string_member_exec(content, "stderr") {
        Some(s) => s,
        None => String::new(),
    };
    let mut all = lines_of(&chars_of(stdout.as_str()));
    let mut more = lines_of(&chars_of(stderr.as_str()));
    let ghost a = views(all@);
    let ghost b = views(more@);
    all.append(&mut more);
    assert(views(all@) =~= a + b);
    let mut out = chars_of("exit ");
    push_all(&mut out, &i64_to_chars(status));
    match first_nonblank_exec(&all) {
        Some(p) => {
            push_str(&mut out, "  ");
            push_all(&mut out, &truncate_chars(&trim_chars(&p), 96));
        },
        None => {},
    }
    string_of(&out)
}

/// The one-line summary of a tool result.
pub open spec fn result_summary_text(tool: Seq<char>, success: bool, content: Seq<char>) -> Seq<char> {
    if !success {
        first_line_text(content)
    } else if tool == "read_file"@ {
        decimal(lines(content).len()) + " lines"@
    } else if tool == "write_file"@ || tool == "edit_file"@ {
        file_mutation_text(content)
    } else if tool == "glob"@ || tool == "grep"@ {
        decimal(nonblank_lines(lines(content)).len()) + " matches"@
    } else if tool == "shell"@ || tool == "git_status"@ || tool == "git_diff"@ {
        shell_summary_text(content)
    } else {
        first_line_text(content)
    }
}

pub fn summarize_tool_result(result: &ToolResult) -> (r: String)
    ensures
        r@ == result_summary_text(result.tool@, result.success, result.content@),
{
    if !result.success {
        return first_line_or_count(result.content.as_str());
    }
    let tool = result.tool.as_str();
    let content = result.content.as_str();
    if crate::text::same_text(tool, "read_file") {
        let mut out = usize_to_chars(lines_of(&chars_of(content)).len());
        push_str(&mut out, " lines");
        string_of(&out)
    } else if crate::text::same_text(tool, "write_file") || crate::text::same_text(tool, "edit_file") {
        summarize_file_mutation(content)
    } else if crate::text::same_text(tool, "glob") || crate::text::same_text(tool, "grep") {
        let mut out = usize_to_chars(non_empty_line_count(content));
        push_str(&mut out, " matches");
        string_of(&out)
    } else if crate::text::same_text(tool, "shell") || crate::text::same_text(tool, "git_status")
        || crate::text::same_text(tool, "git_diff") {
        summarize_shell_json(content)
    } else {
        first_line_or_count(content)
    }
}

/// What the mascot says while a tool runs.
pub open spec fn working_text(tool: Seq<char>) -> Seq<char> {
    if tool == "read_file"@ || tool == "glob"@ || tool == "grep"@ || tool == "git_status"@ || tool
        == "git_diff"@ {
        "inspecting files..."@
    } else if tool == "write_file"@ || tool == "edit_file"@ {
        "applying edit..."@
    } else if tool == "shell"@ {
        "running command..."@
    } else {
        "using tool..."@
    }
}

pub fn working_message(call: &ToolCall) -> (r: &'static str)
    ensures
        r@ == working_text(call.tool@),
{
    let t = call.tool.as_str();
    if crate::text::same_text(t, "read_file") || crate::text::same_text(t, "glob")
        || crate::text::same_text(t, "grep") || crate::text::same_text(t, "git_status")
        || crate::text::same_text(t, "git_diff") {
        "inspecting files..."
    } else if crate::text::same_text(t, "write_file") || crate::text::same_text(t, "edit_file") {
        "applying edit..."
    } else if crate::text::same_text(t, "shell") {
        "running command..."
    } else {
        "using tool..."
    }
}

/// A string argument, or empty.
pub open spec fn arg_text(args: Seq<char>, name: Seq<char>) -> Seq<char> {
    match string_member(args, name) {
        Some(s) => s,
        None => Seq::<char>::empty(),
    }
}

pub fn arg(args: &str, name: &str) -> (r: String)
    ensures
        r@ == arg_text(args@, name@),
{
    match string_member_exec(args, name) {
        Some(s) => s,
        None => String::new(),
    }
}

/// What a tool call acts on, for display.
pub open spec fn target_text(tool: Seq<char>, args: Seq<char>) -> Seq<char> {
    if tool == "read_file"@ || tool == "write_file"@ || tool == "edit_file"@ {
        arg_text(args, "path"@)
    } else if tool == "glob"@ {
        arg_text(args, "pattern"@)
    } else if tool == "grep"@ {
        let q = arg_text(args, "query"@);
        let p = arg_text(args, "path"@);
        if p.len() == 0 {
            q
        } else {
            q + " in "@ + p
        }
    } else if tool == "shell"@ {
        arg_text(args, "command"@)
    } else {
        Seq::<char>::empty()
    }
}

pub fn tool_target(call: &ToolCall) -> (r: String)
    ensures
        r@ == target_text(call.tool@, call.arguments@),
{
    let t = call.tool.as_str();
    let a = call.arguments.as_str();
    if crate::text::same_text(t, "read_file") || crate::text::same_text(t, "write_file")
        || crate::text::same_text(t, "edit_file") {
        arg(a, "path")
    } else if crate::text::same_text(t, "glob") {
        arg(a, "pattern")
    } else if crate::text::same_text(t, "grep") {
        let q = arg(a, "query");
        let p = arg(a, "path");
        if p.as_str().is_empty() {
            q
        } else {
            let mut out = chars_of(q.as_str());
            push_str(&mut out, " in ");
            push_str(&mut out, p.as_str());
            string_of(&out)
        }
    } else if crate::text::same_text(t, "shell") {
        arg(a, "command")
    } else {
        String::new()
    }
}

// ---------------------------------------------------------------------------
// Styling and the terminal
// ---------------------------------------------------------------------------

/// What `crossterm` writes for text `s` in the foreground colour whose
/// 256-colour code is `code` (`StyledContent`'s `Display`, which goes through
/// `PrintStyledContent`): nothing on a Windows console without ANSI support
/// (the colour goes through the console API); else `s` between an opening
/// sequence that sets the colour (`ESC[38;5;<code>m`) and a closing one that
/// resets the foreground (`ESC[39m`), each written bare (`ESC[m`) when
/// colours are disabled (`NO_COLOR`). Which outcome comes depends on the
/// terminal and the environment.
pub open spec fn colored(r: Seq<char>, s: Seq<char>, code: Seq<char>) -> bool {
    let open = "\u{1b}[38;5;"@ + code + "m"@;
    let close = "\u{1b}[39m"@;
    let bare = "\u{1b}[m"@;
    ||| r.len() == 0
    ||| r == open + s + close
    ||| r == bare + s + bare
    ||| r == open + s + bare
    ||| r == bare + s + close
}

/// `crossterm`'s `Stylize::green` (code 10), written out: see [`colored`].
#[verifier::external_body]
fn green(s: &str) -> (r: String)
    ensures
        colored(r@, s@, "10"@),
{
    format!("{}", s.green())
}

/// `crossterm`'s `Stylize::yellow` (code 11), written out: see [`colored`].
#[verifier::external_body]
fn yellow(s: &str) -> (r: String)
    ensures
        colored(r@, s@, "11"@),
{
    format!("{}", s.yellow())
}

/// `crossterm`'s `Stylize::dark_grey` (code 8), written out: see
/// [`colored`].
#[verifier::external_body]
fn dark_grey(s: &str) -> (r: String)
    ensures
        colored(r@, s@, "8"@),
{
    format!("{}", s.dark_grey())
}

/// `crossterm`'s `Stylize::cyan` (code 14), written out: see [`colored`].
#[verifier::external_body]
fn cyan(s: &str) -> (r: String)
    ensures
        colored(r@, s@, "14"@),
{
    format!("{}", s.cyan())
}

/// `crossterm::terminal::size`, the terminal's width when it can be read.
/// It depends on the terminal, so nothing is stated of it.
#[verifier::external_body]
fn terminal_width() -> (r: Option<u16>) {
    crossterm::terminal::size().ok().map(|(width, _)| width)
}

/// The last `/`-separated segment of a path.
pub open spec fn last_segment(path: Seq<char>) -> Seq<char> {
    crate::text::split_on(path, '/').last()
}

/// A path whose name is plainly its last `/`-separated segment: it holds no
/// `\\` and no `:` and does not start with two slashes (so no platform reads
/// a prefix or another separator in it), and that segment is neither empty,
/// `.` nor `..`.
pub open spec fn named_by_last_segment(path: Seq<char>) -> bool {
    &&& forall|i: int| 0 <= i < path.len() ==> path[i] != '\\' && path[i] != ':'
    &&& !(path.len() >= 2 && path[0] == '/' && path[1] == '/')
    &&& last_segment(path).len() > 0
    &&& last_segment(path) != "."@
    &&& last_segment(path) != ".."@
}

/// The final component of a path (`std::path::Path::file_name`), when it
/// has one that is valid text. For a path [`named_by_last_segment`], that
/// is its last segment on every platform; for other paths (prefixes,
/// backslashes, trailing `.`) only that the name is a non-empty piece of
/// the path is stated.
#[verifier::external_body]
fn path_file_name(path: &str) -> (r: Option<String>)
    ensures
        match r {
            Some(n) => n@.len() > 0 && contains(path@, n@),
            None => true,
        },
        named_by_last_segment(path@) ==> crate::tools::opt_text(r) == Some(last_segment(path@)),
{
    std::path::Path::new(path).file_name().and_then(|n| n.to_str()).map(|n| n.to_string())
}

/// The repository name shown for a workspace: the path's last component,
/// or `workspace`.
pub fn repo_name(path: &str) -> (r: String)
    ensures
        r@ == "workspace"@ || (r@.len() > 0 && contains(path@, r@)),
        named_by_last_segment(path@) ==> r@ == last_segment(path@),
{
    match path_file_name(path) {
        Some(n) => n,
        None => owned("workspace"),
    }
}

/// The colours a repository state is shown in.
#[derive(Debug, Clone, Copy, PartialEq, Eq, Structural)]
pub enum StateColor {
    Green,
    Yellow,
}

/// A repository state is green when `clean` and yellow otherwise.
pub fn repo_state_color(state: &str) -> (r: StateColor)
    ensures
        r == if state@ == "clean"@ {
            StateColor::Green
        } else {
            StateColor::Yellow
        },
{
    if crate::text::same_text(state, "clean") {
        StateColor::Green
    } else {
        StateColor::Yellow
    }
}

/// The 256-colour code of a state colour: 10 for green, 11 for yellow.
pub open spec fn state_color_code(c: StateColor) -> Seq<char> {
    match c {
        StateColor::Green => "10"@,
        StateColor::Yellow => "11"@,
    }
}

/// The repository state written in the colour [`repo_state_color`] picks
/// (see [`colored`]).
pub fn color_repo_state(state: &str) -> (r: String)
    ensures
        colored(
            r@,
            state@,
            state_color_code(
                if state@ == "clean"@ {
                    StateColor::Green
                } else {
                    StateColor::Yellow
                },
            ),
        ),
{
    match repo_state_color(state) {
        StateColor::Green => green(state),
        StateColor::Yellow => yellow(state),
    }
}

/// The prompt box's width for a terminal width: 80 when unknown, kept
/// within 40 to 96.
pub open spec fn box_width(size: Option<u16>) -> nat {
    let w: nat = match size {
        Some(w) => w as nat,
        None => 80,
    };
    if w < 40 {
        40
    } else if w > 96 {
        96
    } else {
        w
    }
}

pub fn prompt_box_width_for(size: Option<u16>) -> (r: usize)
    ensures
        r == box_width(size),
{
    let w: usize = match size {
        Some(w) => w as usize,
        None => 80,
    };
    if w < 40 {
        40
    } else if w > 96 {
        96
    } else {
        w
    }
}

/// The prompt box's width for the terminal at hand.
pub fn prompt_box_width() -> (r: usize)
    ensures
        exists|size: Option<u16>| r == box_width(size),
        40 <= r <= 96,
{
    let size = terminal_width();
    let r = prompt_box_width_for(size);
    assert(r == box_width(size));
    r
}

/// The label in the prompt box's top border.
pub open spec fn box_label(mode: Seq<char>) -> Seq<char> {
    " ccx \u{b7} "@ + mode + " "@
}

/// The top border for a width: a corner, the label, and a rule filling
/// the rest of the width.
pub open spec fn border_top(mode: Seq<char>, width: nat) -> Seq<char> {
    let label = box_label(mode);
    let fill: nat = if width >= label.len() + 1 {
        (width - (label.len() + 1)) as nat
    } else {
        0
    };
    "\u{256d}"@ + label + repeat_char('\u{2500}', fill)
}

/// The bottom border for a width.
pub open spec fn border_bottom(width: nat) -> Seq<char> {
    "\u{2570}"@ + repeat_char('\u{2500}', if width >= 1 { (width - 1) as nat } else { 0 })
}

pub fn prompt_border_top_for(mode: &str, width: usize) -> (r: String)
    ensures
        r@ == border_top(mode@, width as nat),
{
    let mut label = chars_of(" ccx \u{b7} ");
    push_str(&mut label, mode);
    push_str(&mut label, " ");
    let fill: usize = if label.len() < width {
        width - (label.len() + 1)
    } else {
        0
    };
    let mut out = chars_of("\u{256d}");
    push_all(&mut out, &label);
    push_repeat(&mut out, '\u{2500}', fill);
    string_of(&out)
}

pub fn prompt_border_bottom_for(width: usize) -> (r: String)
    ensures
        r@ == border_bottom(width as nat),
{
    let mut out = chars_of("\u{2570}");
    push_repeat(
        &mut out,
        '\u{2500}',
        if width >= 1 {
            width - 1
        } else {
            0
        },
    );
    string_of(&out)
}

/// The top border at the terminal's current width.
pub fn prompt_border_top(mode: &str) -> (r: String)
    ensures
        exists|w: nat| 40 <= w <= 96 && r@ == border_top(mode@, w),
{
    let w = prompt_box_width();
    prompt_border_top_for(mode, w)
}

/// The bottom border at the terminal's current width.
pub fn prompt_border_bottom() -> (r: String)
    ensures
        exists|w: nat| 40 <= w <= 96 && r@ == border_bottom(w),
{
    let w = prompt_box_width();
    prompt_border_bottom_for(w)
}

/// At any width that holds the label, both borders are exactly that wide.
pub proof fn lemma_borders_match(mode: Seq<char>, width: nat)
    requires
        mode.len() + 9 <= width,
    ensures
        border_top(mode, width).len() == width,
        border_bottom(width).len() == width,
{
    reveal_strlit(" ccx \u{b7} ");
    reveal_strlit(" ");
    reveal_strlit("\u{256d}");
    reveal_strlit("\u{2570}");
    assert(box_label(mode).len() == mode.len() + 8);
}

/// The prompt: the top border in dark grey, then on the next line a cyan
/// bar and a space (each styled piece as [`colored`] says).
pub fn prompt_box(mode: &str) -> (r: String)
    ensures
        exists|top: Seq<char>, bar: Seq<char>, w: nat|
            #![trigger border_top(mode@, w), top + "\n"@ + bar + " "@]
            40 <= w <= 96 && colored(top, border_top(mode@, w), "8"@) && colored(bar, "\u{2502}"@, "14"@)
                && r@ == top + "\n"@ + bar + " "@,
{
    let top = prompt_border_top(mode);
    let ghost w = choose|w: nat| 40 <= w <= 96 && top@ == border_top(mode@, w);
    let styled_top = dark_grey(top.as_str());
    let bar = cyan("\u{2502}");
    let mut out = chars_of(styled_top.as_str());
    push_str(&mut out, "\n");
    push_str(&mut out, bar.as_str());
    push_str(&mut out, " ");
    let r = string_of(&out);
    assert(40 <= w <= 96 && colored(styled_top@, border_top(mode@, w), "8"@) && colored(bar@, "\u{2502}"@, "14"@)
        && r@ == styled_top@ + "\n"@ + bar@ + " "@);
    r
}

} // verus!
