//! The cells a conversation is projected into, before a renderer gives them a shape.

use std::sync::Arc;

use vstd::prelude::*;

use crate::json::Json;
use crate::text::{cat2, cat3, cat4, cat5, decimal, join, joined, number, said, texts};

verus! {

#[derive(Debug, Clone, Copy, PartialEq, Eq, Structural)]
pub enum Speaker {
    You,
    Agent,
}

#[derive(Debug, Clone, Copy, PartialEq, Eq, Structural)]
pub enum ThinkingState {
    /// Still being written.
    Tail,
    Settled,
}

#[derive(Debug, Clone, Copy, PartialEq, Eq, Structural)]
pub enum ToolState {
    Running,
    Completed,
    Failed,
}

#[derive(Debug, Clone, Copy, PartialEq, Eq, Structural)]
pub enum Tone {
    Muted,
    Success,
    Warning,
    Error,
}

#[derive(Debug)]
pub enum PlanStatus {
    Done,
    InProgress,
    Pending,
    Other(String),
}

#[derive(Debug)]
pub struct PlanStep {
    pub status: PlanStatus,
    pub text: String,
}

#[derive(Debug)]
pub struct Plan {
    /// How many steps the plan has, which can be more than it lists.
    pub step_count: u64,
    pub steps: Vec<PlanStep>,
}

#[derive(Debug)]
pub struct Usage {
    pub total_tokens: Option<u64>,
    /// The cost in dollars, printed to four places.
    pub cost_usd: Option<String>,
}

#[derive(Debug)]
pub struct ToolCell {
    pub call_id: Option<String>,
    pub name: String,
    pub kind: Option<String>,
    pub input: Json,
    pub output: Option<Json>,
    pub state: ToolState,
    pub started_at: Option<u64>,
    pub settled_at: Option<u64>,
    /// The call in one line.
    pub summary: String,
}

/// Reads and searches that belong together.
#[derive(Debug)]
pub struct Exploration {
    pub calls: Vec<ToolCell>,
    pub done: bool,
    /// How many calls there were, which can be more than are kept.
    pub total: u64,
}

#[derive(Debug)]
pub struct FileCell {
    pub kind: Option<String>,
    pub path: Option<String>,
}

#[derive(Debug)]
pub struct ImageCell {
    pub named: String,
    /// Width and height.
    pub pixels: Option<(u32, u32)>,
    pub format: Option<String>,
    pub note: Option<String>,
    pub sha: Option<String>,
    pub media_type: Option<String>,
    pub bytes: Option<Arc<Vec<u8>>>,
}

impl ImageCell {
    pub open spec fn caption(&self) -> Seq<char> {
        let size = match self.pixels {
            Some((width, height)) => " \u{b7} "@ + decimal(width as nat) + "\u{d7}"@ + decimal(
                height as nat,
            ),
            None => Seq::empty(),
        };
        let format = match self.format {
            Some(format) => " "@ + format@,
            None => Seq::empty(),
        };
        let note = match self.note {
            Some(note) => " \u{b7} "@ + note@,
            None => Seq::empty(),
        };
        self.named@ + size + format + note
    }

    /// The picture in a sentence: its name, its size and its format.
    pub fn label(&self) -> (r: String)
        ensures
            r@ == self.caption(),
    {
        let size = match self.pixels {
            Some((width, height)) => cat4(
                " \u{b7} ",
                number(width as u64).as_str(),
                "\u{d7}",
                number(height as u64).as_str(),
            ),
            None => String::new(),
        };
        let format = match &self.format {
            Some(format) => cat2(" ", format.as_str()),
            None => String::new(),
        };
        let note = match &self.note {
            Some(note) => cat2(" \u{b7} ", note.as_str()),
            None => String::new(),
        };
        cat4(self.named.as_str(), size.as_str(), format.as_str(), note.as_str())
    }
}

#[derive(Debug)]
pub struct DiffCell {
    pub path: Option<String>,
    pub text: String,
    pub additions: u64,
    pub deletions: u64,
    pub pending_approval: bool,
}

#[derive(Debug)]
pub struct RuntimeBlock {
    pub label: String,
    pub detail: String,
    pub body: Vec<String>,
    pub tone: Tone,
}

/// A child agent a session spawned.
#[derive(Debug)]
pub struct SubagentCell {
    pub task_id: Option<String>,
    pub description: Option<String>,
    pub provider_session_id: Option<String>,
    pub node: Option<String>,
    /// The child runs on another machine than its parent.
    pub remote: bool,
    pub worktree: bool,
    pub background: bool,
    pub depth: Option<u64>,
    pub status: Option<String>,
    pub settled: bool,
    pub turns: Option<u64>,
    pub tool_calls: Option<u64>,
    pub files: Option<u64>,
    pub input_tokens: Option<u64>,
    pub output_tokens: Option<u64>,
}

impl Default for SubagentCell {
    fn default() -> (r: SubagentCell)
        ensures
            r.task_id is None && r.description is None && r.provider_session_id is None,
            r.node is None && r.depth is None && r.status is None && r.turns is None,
            r.tool_calls is None && r.files is None,
            r.input_tokens is None && r.output_tokens is None,
            !r.remote && !r.worktree && !r.background && !r.settled,
    {
        SubagentCell {
            task_id: None,
            description: None,
            provider_session_id: None,
            node: None,
            remote: false,
            worktree: false,
            background: false,
            depth: None,
            status: None,
            settled: false,
            turns: None,
            tool_calls: None,
            files: None,
            input_tokens: None,
            output_tokens: None,
        }
    }
}

/// A count and what it counts, where it was reported.
pub open spec fn counted(n: Option<u64>, noun: Seq<char>) -> Seq<Seq<char>> {
    match n {
        Some(n) => seq![decimal(n as nat) + noun],
        None => Seq::empty(),
    }
}

fn push_counted(parts: &mut Vec<String>, n: Option<u64>, noun: &str)
    ensures
        texts(final(parts)@) == texts(old(parts)@) + counted(n, noun@),
{
    if let Some(n) = n {
        parts.push(cat2(number(n).as_str(), noun));
    }
    assert(texts(parts@) =~= texts(old(parts)@) + counted(n, noun@));
}

impl SubagentCell {
    pub open spec fn title(&self) -> Seq<char> {
        let what = match self.description {
            Some(description) => "Subagent "@ + description@,
            None => "Subagent"@,
        };
        let place = match self.node {
            Some(node) => if self.remote {
                " \u{b7} \u{21c4} "@ + node@
            } else {
                Seq::empty()
            },
            None => Seq::empty(),
        };
        let tree = if self.worktree {
            " \u{b7} \u{2387} worktree"@
        } else {
            Seq::empty()
        };
        let ground = if self.background {
            " \u{b7} background"@
        } else {
            Seq::empty()
        };
        let depth = match self.depth {
            Some(depth) => " \u{b7} depth "@ + decimal(depth as nat),
            None => Seq::empty(),
        };
        what + place + tree + ground + depth
    }

    pub fn headline(&self) -> (r: String)
        ensures
            r@ == self.title(),
    {
        let what = match &self.description {
            Some(description) => cat2("Subagent ", description.as_str()),
            None => "Subagent".to_owned(),
        };
        let place = match &self.node {
            Some(node) => if self.remote {
                cat2(" \u{b7} \u{21c4} ", node.as_str())
            } else {
                String::new()
            },
            None => String::new(),
        };
        let tree = if self.worktree {
            " \u{b7} \u{2387} worktree".to_owned()
        } else {
            String::new()
        };
        let ground = if self.background {
            " \u{b7} background".to_owned()
        } else {
            String::new()
        };
        let depth = match self.depth {
            Some(depth) => cat2(" \u{b7} depth ", number(depth).as_str()),
            None => String::new(),
        };
        cat5(what.as_str(), place.as_str(), tree.as_str(), ground.as_str(), depth.as_str())
    }

    pub open spec fn facts(&self) -> Seq<Seq<char>> {
        let status = match self.status {
            Some(status) => seq![status@],
            None => Seq::empty(),
        };
        let tokens = match (self.input_tokens, self.output_tokens) {
            (Some(input), Some(output)) => seq![
                decimal(input as nat) + " in / "@ + decimal(output as nat) + " out tokens"@,
            ],
            _ => Seq::empty(),
        };
        status + counted(self.turns, " turns"@) + counted(self.tool_calls, " tool calls"@)
            + counted(self.files, " files"@) + tokens
    }

    /// How far the child has come.
    pub fn detail(&self) -> (r: String)
        ensures
            r@ == joined(self.facts(), " \u{b7} "@),
    {
        let mut parts: Vec<String> = Vec::new();
        if let Some(status) = &self.status {
            parts.push(status.clone());
        }
        assert(texts(parts@) =~= match self.status {
            Some(status) => seq![status@],
            None => Seq::empty(),
        });
        push_counted(&mut parts, self.turns, " turns");
        push_counted(&mut parts, self.tool_calls, " tool calls");
        push_counted(&mut parts, self.files, " files");
        let ghost before = texts(parts@);
        if let (Some(input), Some(output)) = (self.input_tokens, self.output_tokens) {
            parts.push(
                cat4(number(input).as_str(), " in / ", number(output).as_str(), " out tokens"),
            );
        }
        assert(texts(parts@) =~= self.facts());
        join(&parts, " \u{b7} ")
    }

    pub open spec fn leads(&self) -> Seq<Seq<char>> {
        match self.provider_session_id {
            Some(id) => seq!["session "@ + id@],
            None => Seq::empty(),
        }
    }

    /// Where the child's own conversation is to be found.
    pub fn rows(&self) -> (r: Vec<String>)
        ensures
            texts(r@) == self.leads(),
    {
        let mut rows: Vec<String> = Vec::new();
        if let Some(id) = &self.provider_session_id {
            rows.push(cat2("session ", id.as_str()));
        }
        assert(texts(rows@) =~= self.leads());
        rows
    }

    /// The verdict of a settled child, and nothing of one still working.
    pub open spec fn verdict(&self) -> Tone {
        if !self.settled {
            Tone::Muted
        } else if said(self.status) == Some("completed"@) {
            Tone::Success
        } else if said(self.status) == Some("failed"@) || said(self.status) == Some("timed_out"@) {
            Tone::Error
        } else {
            Tone::Muted
        }
    }

    pub fn tone(&self) -> (r: Tone)
        ensures
            r == self.verdict(),
    {
        if !self.settled {
            Tone::Muted
        } else if crate::text::is_text(&self.status, "completed") {
            Tone::Success
        } else if crate::text::is_text(&self.status, "failed") || crate::text::is_text(
            &self.status,
            "timed_out",
        ) {
            Tone::Error
        } else {
            Tone::Muted
        }
    }
}

#[derive(Debug)]
pub enum Cell {
    Message { speaker: Speaker, text: String, streaming: bool },
    Thinking { text: String, lines: u64, state: ThinkingState },
    Plan(Plan),
    Usage(Usage),
    Tool(ToolCell),
    Exploration(Exploration),
    CommandOutput(String),
    File(FileCell),
    Image(ImageCell),
    Diff(DiffCell),
    DiffStat { files: u64, additions: u64, deletions: u64, in_excerpt: bool },
    Status { label: String, detail: String, tone: Tone },
    ChatNote { text: String },
    Runtime(RuntimeBlock),
    Subagent(SubagentCell),
    Divider { text: String, tone: Tone },
}

/// The parts that say something, one to a line.
pub open spec fn stacked(first: Seq<char>, second: Seq<char>) -> Seq<char> {
    let blank_first = crate::text::trimmed(first).len() == 0;
    let blank_second = crate::text::trimmed(second).len() == 0;
    if blank_first && blank_second {
        Seq::empty()
    } else if blank_first {
        second
    } else if blank_second {
        first
    } else {
        first + "\n"@ + second
    }
}

pub(crate) fn stack(first: String, second: String) -> (r: String)
    ensures
        r@ == stacked(first@, second@),
{
    let blank_first = crate::text::trim(first.as_str()).as_str().is_empty();
    let blank_second = crate::text::trim(second.as_str()).as_str().is_empty();
    if blank_first && blank_second {
        String::new()
    } else if blank_first {
        second
    } else if blank_second {
        first
    } else {
        cat3(first.as_str(), "\n", second.as_str())
    }
}

} // verus!
