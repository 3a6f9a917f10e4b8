use ccx::tools::{ToolCall, ToolResult};
use ccx::ui::{
    first_line_or_count, mascot_frame, mascot_frames, mascot_indent, non_empty_line_count,
    prompt_border_bottom, prompt_border_bottom_for, prompt_border_top, prompt_border_top_for,
    prompt_box_width_for, summarize_file_mutation, summarize_shell_json, summarize_tool_result,
    tool_target, truncate, working_message, MASCOT_HEIGHT, MASCOT_WIDTH,
};

#[test]
fn mascot_frames_keep_stable_width() {
    for frame in mascot_frames() {
        for line in frame {
            assert_eq!(line.chars().count(), MASCOT_WIDTH);
        }
    }
}

#[test]
fn prompt_borders_have_stable_width() {
    let top = prompt_border_top("agent");
    let bottom = prompt_border_bottom();
    assert_eq!(top.chars().count(), bottom.chars().count());
    assert!(top.contains("ccx"));
}

#[test]
fn mascot_cycles_through_three_frames() {
    assert_eq!(mascot_frame(0), mascot_frame(3));
    assert_ne!(mascot_frame(0), mascot_frame(1));
    assert_eq!(mascot_frame(5).len(), MASCOT_HEIGHT);
    assert_eq!(mascot_indent(), " ".repeat(12));
}

#[test]
fn prompt_width_is_clamped() {
    assert_eq!(prompt_box_width_for(None), 80);
    assert_eq!(prompt_box_width_for(Some(10)), 40);
    assert_eq!(prompt_box_width_for(Some(200)), 96);
    assert_eq!(prompt_box_width_for(Some(60)), 60);
}

#[test]
fn borders_fill_the_width() {
    let top = prompt_border_top_for("plan", 40);
    assert_eq!(top.chars().count(), 40);
    assert!(top.starts_with("\u{256d} ccx \u{b7} plan "));
    assert_eq!(prompt_border_bottom_for(40).chars().count(), 40);
    assert_eq!(prompt_border_bottom_for(0), "\u{2570}");
}

#[test]
fn truncate_marks_cut_text() {
    assert_eq!(truncate("abcdef", 3), "abc...");
    assert_eq!(truncate("abc", 3), "abc");
}

#[test]
fn first_line_skips_blank_lines() {
    assert_eq!(first_line_or_count("\n   \n  hello  \nworld"), "hello");
    assert_eq!(first_line_or_count("  \n"), "no output");
    assert_eq!(non_empty_line_count("a\n\n b\n  \n"), 2);
}

#[test]
fn file_mutation_summary_joins_two_lines() {
    assert_eq!(summarize_file_mutation(""), "updated");
    assert_eq!(summarize_file_mutation("wrote a.txt"), "wrote a.txt");
    assert_eq!(summarize_file_mutation("wrote a.txt\n\n3 lines\nmore"), "wrote a.txt  3 lines");
}

#[test]
fn shell_summary_reads_status_and_output() {
    assert_eq!(
        summarize_shell_json("{\"status\":0,\"stdout\":\"\\n ok done \\n\",\"stderr\":\"\"}"),
        "exit 0  ok done"
    );
    assert_eq!(
        summarize_shell_json("{\"status\":-2,\"stdout\":\"\",\"stderr\":\"\"}"),
        "exit -2"
    );
    assert_eq!(summarize_shell_json("{\"stdout\":\"x\"}"), "exit -1  x");
    assert_eq!(summarize_shell_json("not json\nsecond"), "not json");
}

#[test]
fn tool_results_are_summarized_by_tool() {
    let r = |tool: &str, success: bool, content: &str| ToolResult {
        tool: tool.to_string(),
        success,
        content: content.to_string(),
    };
    assert_eq!(summarize_tool_result(&r("read_file", true, "a\nb\nc")), "3 lines");
    assert_eq!(summarize_tool_result(&r("glob", true, "a\n\nb")), "2 matches");
    assert_eq!(summarize_tool_result(&r("shell", false, "\nboom\n")), "boom");
    assert_eq!(summarize_tool_result(&r("other", true, "x")), "x");
}

#[test]
fn tool_targets_name_what_a_call_acts_on() {
    let c = |tool: &str, args: &str| ToolCall::new(tool.to_string(), args.to_string(), None);
    assert_eq!(tool_target(&c("read_file", "{\"path\":\"a.rs\"}")), "a.rs");
    assert_eq!(tool_target(&c("grep", "{\"query\":\"TODO\",\"path\":\"src\"}")), "TODO in src");
    assert_eq!(tool_target(&c("grep", "{\"query\":\"TODO\"}")), "TODO");
    assert_eq!(tool_target(&c("git_diff", "{}")), "");
    assert_eq!(working_message(&c("shell", "{}")), "running command...");
    assert_eq!(working_message(&c("glob", "{}")), "inspecting files...");
}

#[test]
fn repo_names_and_states() {
    assert_eq!(ccx::ui::repo_name("/home/me/project"), "project");
    assert_eq!(ccx::ui::repo_name("/"), "workspace");
    let styled = ccx::ui::color_repo_state("dirty");
    assert!(styled.contains("dirty"));
    let styled = ccx::ui::color_repo_state("clean");
    assert!(styled.contains("clean"));
    assert_eq!(ccx::ui::repo_state_color("clean"), ccx::ui::StateColor::Green);
    assert_eq!(ccx::ui::repo_state_color("dirty"), ccx::ui::StateColor::Yellow);
    assert_eq!(ccx::ui::repo_name("relative/name"), "name");
    let clean = ccx::ui::color_repo_state("clean");
    assert!(clean == "\u{1b}[38;5;10mclean\u{1b}[39m" || clean == "\u{1b}[mclean\u{1b}[m");
    let dirty = ccx::ui::color_repo_state("dirty");
    assert!(dirty == "\u{1b}[38;5;11mdirty\u{1b}[39m" || dirty == "\u{1b}[mdirty\u{1b}[m");
}
