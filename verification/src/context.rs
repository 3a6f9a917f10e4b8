//! Project instruction files and how they are shown to the model.
use vstd::prelude::*;
use crate::text::{chars_of, ends_with, ends_with_str, join, join_chars, owned, push_str, string_of, views};

verus! {

/// One instruction file: where it is and what it says.
#[derive(Debug)]
pub struct InstructionFile {
    pub path: String,
    pub content: String,
}

/// The workspace and its instruction files.
#[derive(Debug)]
pub struct ProjectContext {
    pub workspace: String,
    pub instruction_files: Vec<InstructionFile>,
}

/// The candidate instruction files, relative to the workspace, in the order they are read.
pub fn instruction_candidates() -> (r: Vec<&'static str>)
    ensures
        r@.len() == 3,
        r@[0]@ == "AGENTS.md"@,
        r@[1]@ == ".ccx/AGENTS.md"@,
        r@[2]@ == ".cursor/rules"@,
{
    vec!["AGENTS.md", ".ccx/AGENTS.md", ".cursor/rules"]
}

/// One file as rendered into the prompt.
pub open spec fn rendered_file(path: Seq<char>, content: Seq<char>) -> Seq<char> {
    "\n--- "@ + path + " ---\n"@ + content + if ends_with(content, "\n"@) {
        ""@
    } else {
        "\n"@
    }
}

pub open spec fn rendered_files(files: Seq<InstructionFile>) -> Seq<char>
    decreases files.len(),
{
    if files.len() == 0 {
        seq![]
    } else {
        rendered_files(files.drop_last()) + rendered_file(files.last().path@, files.last().content@)
    }
}

/// One line naming the loaded instruction files.
pub open spec fn summary_text(files: Seq<InstructionFile>) -> Seq<char> {
    if files.len() == 0 {
        "context: no project instruction files loaded"@
    } else {
        "context: loaded "@ + join(file_paths(files), ", "@)
    }
}

/// The instructions as the prompt shows them.
pub open spec fn instructions_text(files: Seq<InstructionFile>) -> Seq<char> {
    if files.len() == 0 {
        "No project instruction files were found."@
    } else {
        rendered_files(files)
    }
}

pub open spec fn file_paths(files: Seq<InstructionFile>) -> Seq<Seq<char>> {
    files.map_values(|f: InstructionFile| f.path@)
}

impl ProjectContext {
    /// The instructions as the prompt shows them: each file under a header
    /// line with its path, ending in a newline.
    pub fn render_for_prompt(&self) -> (r: String)
        ensures
            r@ == instructions_text(self.instruction_files@),
    {
        if self.instruction_files.len() == 0 {
            return owned("No project instruction files were found.");
        }
        let mut out: Vec<char> = Vec::new();
        let mut i: usize = 0;
        while i < self.instruction_files.len()
            invariant
                i <= self.instruction_files@.len(),
                out@ == rendered_files(self.instruction_files@.take(i as int)),
            decreases self.instruction_files.len() - i,
        {
            assert(self.instruction_files@.take(i + 1).drop_last() =~= self.instruction_files@.take(
                i as int,
            ));
            let file = &self.instruction_files[i];
            push_str(&mut out, "\n--- ");
            push_str(&mut out, file.path.as_str());
            push_str(&mut out, " ---\n");
            push_str(&mut out, file.content.as_str());
            let content = chars_of(file.content.as_str());
            if !ends_with_str(&content, "\n") {
                push_str(&mut out, "\n");
            } else {
                push_str(&mut out, "");
            }
            i = i + 1;
        }
        assert(self.instruction_files@.take(self.instruction_files@.len() as int)
            =~= self.instruction_files@);
        string_of(&out)
    }

    /// One line naming the loaded instruction files.
    pub fn summary(&self) -> (r: String)
        ensures
            r@ == summary_text(self.instruction_files@),
    {
        if self.instruction_files.len() == 0 {
            return owned("context: no project instruction files loaded");
        }
        let mut paths: Vec<Vec<char>> = Vec::new();
        let mut i: usize = 0;
        while i < self.instruction_files.len()
            invariant
                i <= self.instruction_files@.len(),
                views(paths@) == file_paths(self.instruction_files@).take(i as int),
            decreases self.instruction_files.len() - i,
        {
            let ghost prev = views(paths@);
            paths.push(chars_of(self.instruction_files[i].path.as_str()));
            assert(views(paths@) =~= prev.push(self.instruction_files@[i as int].path@));
            i = i + 1;
            assert(views(paths@) =~= file_paths(self.instruction_files@).take(i as int));
        }
        assert(file_paths(self.instruction_files@).take(self.instruction_files@.len() as int)
            =~= file_paths(self.instruction_files@));
        let mut out = chars_of("context: loaded ");
        let joined = join_chars(&paths, ", ");
        crate::text::push_all(&mut out, &joined);
        string_of(&out)
    }
}

} // verus!
