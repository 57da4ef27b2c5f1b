//! Projections for a windowed client.
//!
//! The terminal and the window have different input and layout primitives, but they must not have
//! different meanings for the same conversation. These functions are the bridge: the window draws
//! plain data that is read off the same state the terminal draws.

use std::sync::Arc;

use vstd::prelude::*;
use vstd::utf8::*;

use crate::cells::{stack, stacked, Cell, Exploration, Plan, PlanStatus, PlanStep, Speaker,
    ThinkingState, Tone, ToolCell, ToolState};
use crate::json::Json;
use crate::model::{ApprovalDecision, ApprovalScope, PlanChoice, Plane};
use crate::text::{cat2, cat3, cat4, cat5, copy_text, copy_texts, count, decimal, heard, join, joined, lower, lowered, number, replace,
    replaced, said, same, texts, trim, trimmed};

verus! {

#[derive(Debug, Clone, Copy, PartialEq, Eq, Structural)]
pub enum DesktopTone {
    Neutral,
    Muted,
    Accent,
    Success,
    Warning,
    Error,
}

#[derive(Debug, Clone, PartialEq, Eq)]
pub enum DesktopCellKind {
    Message,
    Activity,
    Thinking,
    Plan,
    Tool,
    File,
    Diff,
    Runtime,
    /// Another agent's work, told apart at a glance.
    Subagent,
    Status,
    Divider,
    /// A screenshot. The picture travels here, never as text in a body; `bytes` is absent until
    /// it was fetched.
    Image {
        sha: Option<String>,
        width: Option<u32>,
        height: Option<u32>,
        media_type: Option<String>,
        bytes: Option<Arc<Vec<u8>>>,
    },
}

#[derive(Debug, Clone, PartialEq, Eq)]
pub struct DesktopCell {
    /// Stable identity for what a renderer keeps about one row, such as its expansion.
    pub key: Option<String>,
    pub kind: DesktopCellKind,
    pub label: String,
    pub body: String,
    pub tone: DesktopTone,
    pub streaming: bool,
    /// Bookkeeping shown with an agent's reply rather than as rows of its own.
    pub metadata: Vec<String>,
}

/// A cell without its bookkeeping.
pub struct Face {
    pub key: Option<Seq<char>>,
    pub kind: DesktopCellKind,
    pub label: Seq<char>,
    pub body: Seq<char>,
    pub tone: DesktopTone,
    pub streaming: bool,
}

impl DesktopCell {
    pub open spec fn face(&self) -> Face {
        Face {
            key: said(self.key),
            kind: self.kind,
            label: self.label@,
            body: self.body@,
            tone: self.tone,
            streaming: self.streaming,
        }
    }
}

pub open spec fn tone_of(tone: Tone) -> DesktopTone {
    match tone {
        Tone::Muted => DesktopTone::Muted,
        Tone::Success => DesktopTone::Success,
        Tone::Warning => DesktopTone::Warning,
        Tone::Error => DesktopTone::Error,
    }
}

fn desktop_tone(tone: Tone) -> (r: DesktopTone)
    ensures
        r == tone_of(tone),
{
    match tone {
        Tone::Muted => DesktopTone::Muted,
        Tone::Success => DesktopTone::Success,
        Tone::Warning => DesktopTone::Warning,
        Tone::Error => DesktopTone::Error,
    }
}

// ----- one cell ---------------------------------------------------------------------

pub open spec fn step_mark(status: PlanStatus) -> Seq<char> {
    match status {
        PlanStatus::Done => "\u{2713}"@,
        PlanStatus::InProgress => "\u{2192}"@,
        PlanStatus::Pending => "\u{25cb}"@,
        PlanStatus::Other(_) => "\u{b7}"@,
    }
}

pub open spec fn step_line(step: PlanStep) -> Seq<char> {
    step_mark(step.status) + " "@ + replaced(step.text@, '\n', ' ')
}

pub open spec fn step_lines(steps: Seq<PlanStep>) -> Seq<Seq<char>> {
    Seq::new(steps.len(), |i: int| step_line(steps[i]))
}

pub open spec fn call_lines(calls: Seq<ToolCell>) -> Seq<Seq<char>> {
    Seq::new(calls.len(), |i: int| calls[i].summary@)
}

/// A prefixed identity, where there is one.
pub open spec fn keyed(prefix: Seq<char>, id: Option<Seq<char>>) -> Option<Seq<char>> {
    match id {
        Some(id) => Some(prefix + id),
        None => None,
    }
}

pub open spec fn output_text(output: Option<Json>) -> Seq<char> {
    match output {
        Some(output) => output@.brief(),
        None => Seq::empty(),
    }
}

pub open spec fn or_else_text(text: Option<String>, other: Seq<char>) -> Seq<char> {
    match text {
        Some(text) => text@,
        None => other,
    }
}

/// What the window shows for a cell.
pub open spec fn face_of(cell: Cell) -> Face {
    match cell {
        Cell::Message { speaker, text, streaming } => Face {
            key: None,
            kind: DesktopCellKind::Message,
            label: match speaker {
                Speaker::You => "You"@,
                Speaker::Agent => "Agent"@,
            },
            body: text@,
            tone: match speaker {
                Speaker::You => DesktopTone::Neutral,
                Speaker::Agent => DesktopTone::Accent,
            },
            streaming,
        },
        Cell::Thinking { text, lines, state } => Face {
            key: None,
            kind: DesktopCellKind::Thinking,
            label: "Thinking \u{b7} "@ + decimal(lines as nat) + " line"@ + (if lines == 1 {
                ""@
            } else {
                "s"@
            }),
            body: text@,
            tone: DesktopTone::Muted,
            streaming: state == ThinkingState::Tail,
        },
        Cell::Plan(plan) => Face {
            key: None,
            kind: DesktopCellKind::Plan,
            label: "Plan \u{b7} "@ + decimal(plan.step_count as nat) + " steps"@,
            body: joined(step_lines(plan.steps@), "\n"@),
            tone: DesktopTone::Neutral,
            streaming: false,
        },
        Cell::Usage(usage) => Face {
            key: None,
            kind: DesktopCellKind::Status,
            label: "Usage"@,
            body: decimal(
                match usage.total_tokens {
                    Some(n) => n as nat,
                    None => 0,
                },
            ) + " tokens"@ + (match usage.cost_usd {
                Some(cost) => " \u{b7} $"@ + cost@,
                None => Seq::empty(),
            }),
            tone: DesktopTone::Muted,
            streaming: false,
        },
        Cell::Tool(tool) => Face {
            key: keyed("tool:"@, said(tool.call_id)),
            kind: DesktopCellKind::Tool,
            label: tool.summary@,
            body: output_text(tool.output),
            tone: match tool.state {
                ToolState::Running => DesktopTone::Muted,
                ToolState::Completed => DesktopTone::Muted,
                ToolState::Failed => DesktopTone::Error,
            },
            streaming: tool.state == ToolState::Running,
        },
        Cell::Exploration(group) => Face {
            key: if group.calls@.len() == 0 {
                None
            } else {
                keyed("exploration:"@, said(group.calls@[0].call_id))
            },
            kind: DesktopCellKind::Tool,
            label: if group.done {
                "Explored "@ + decimal(group.total as nat) + " items"@
            } else {
                "Exploring "@ + decimal(group.total as nat) + " items\u{2026}"@
            },
            body: joined(call_lines(group.calls@), "\n"@),
            tone: DesktopTone::Muted,
            streaming: !group.done,
        },
        Cell::CommandOutput(body) => Face {
            key: None,
            kind: DesktopCellKind::Tool,
            label: "Command output"@,
            body: body@,
            tone: DesktopTone::Muted,
            streaming: true,
        },
        Cell::File(file) => Face {
            key: None,
            kind: DesktopCellKind::File,
            label: or_else_text(file.kind, "File"@),
            body: or_else_text(file.path, "Path not reported"@),
            tone: DesktopTone::Muted,
            streaming: false,
        },
        // A picture that nothing was recorded of stays a file row: there is nothing to draw.
        Cell::Image(image) => if image.sha is Some {
            Face {
                key: keyed("image:"@, said(image.sha)),
                kind: DesktopCellKind::Image {
                    sha: image.sha,
                    width: match image.pixels {
                        Some((width, _)) => Some(width),
                        None => None,
                    },
                    height: match image.pixels {
                        Some((_, height)) => Some(height),
                        None => None,
                    },
                    media_type: image.media_type,
                    bytes: image.bytes,
                },
                label: "Screenshot"@,
                body: image.caption(),
                tone: DesktopTone::Muted,
                streaming: false,
            }
        } else {
            Face {
                key: None,
                kind: DesktopCellKind::File,
                label: "Image"@,
                body: image.caption(),
                tone: DesktopTone::Muted,
                streaming: false,
            }
        },
        Cell::Diff(diff) => Face {
            key: None,
            kind: DesktopCellKind::Diff,
            label: or_else_text(diff.path, "Diff"@) + " \u{b7} +"@ + decimal(diff.additions as nat)
                + " \u{2212}"@ + decimal(diff.deletions as nat) + (if diff.pending_approval {
                " \u{b7} awaiting approval"@
            } else {
                ""@
            }),
            body: diff.text@,
            tone: if diff.pending_approval {
                DesktopTone::Warning
            } else {
                DesktopTone::Muted
            },
            streaming: false,
        },
        Cell::DiffStat { files, additions, deletions, in_excerpt } => Face {
            key: None,
            kind: DesktopCellKind::Diff,
            label: "Changes"@,
            body: decimal(files as nat) + " files \u{b7} +"@ + decimal(additions as nat)
                + " \u{2212}"@ + decimal(deletions as nat) + (if in_excerpt {
                " \u{b7} excerpt"@
            } else {
                ""@
            }),
            tone: DesktopTone::Muted,
            streaming: false,
        },
        Cell::Status { label, detail, tone } => Face {
            key: None,
            kind: DesktopCellKind::Status,
            label: label@,
            body: detail@,
            tone: tone_of(tone),
            streaming: false,
        },
        Cell::ChatNote { text } => Face {
            key: None,
            kind: DesktopCellKind::Status,
            label: "Note"@,
            body: text@,
            tone: DesktopTone::Muted,
            streaming: false,
        },
        Cell::Runtime(block) => Face {
            key: None,
            kind: DesktopCellKind::Runtime,
            label: block.label@,
            body: stacked(block.detail@, joined(texts(block.body@), "\n"@)),
            tone: tone_of(block.tone),
            streaming: false,
        },
        // Keyed by task, so that one child's row keeps its identity while its progress is
        // rewritten; live for as long as the child has not settled.
        Cell::Subagent(subagent) => Face {
            key: keyed("subagent:"@, said(subagent.task_id)),
            kind: DesktopCellKind::Subagent,
            label: subagent.title(),
            body: stacked(joined(subagent.facts(), " \u{b7} "@), joined(subagent.leads(), "\n"@)),
            tone: tone_of(subagent.verdict()),
            streaming: !subagent.settled,
        },
        Cell::Divider { text, tone } => Face {
            key: None,
            kind: DesktopCellKind::Divider,
            label: text@,
            body: Seq::empty(),
            tone: tone_of(tone),
            streaming: false,
        },
    }
}

fn key_for(prefix: &str, id: &Option<String>) -> (r: Option<String>)
    ensures
        said(r) == keyed(prefix@, said(*id)),
{
    match id {
        Some(id) => Some(cat2(prefix, id.as_str())),
        None => None,
    }
}

fn row(
    kind: DesktopCellKind,
    label: String,
    body: String,
    tone: DesktopTone,
    streaming: bool,
) -> (r: DesktopCell)
    ensures
        r.face() == (Face { key: None, kind, label: label@, body: body@, tone, streaming }),
        r.metadata@.len() == 0,
{
    DesktopCell { key: None, kind, label, body, tone, streaming, metadata: Vec::new() }
}

fn plan_body(plan: &Plan) -> (r: String)
    ensures
        r@ == joined(step_lines(plan.steps@), "\n"@),
{
    let mut lines: Vec<String> = Vec::new();
    let mut i: usize = 0;
    while i < plan.steps.len()
        invariant
            i <= plan.steps@.len(),
            lines@.len() == i,
            forall|k: int| 0 <= k < i ==> (#[trigger] lines@[k])@ == step_line(plan.steps@[k]),
        decreases plan.steps@.len() - i,
    {
        let step = &plan.steps[i];
        let mark = match step.status {
            PlanStatus::Done => "\u{2713}",
            PlanStatus::InProgress => "\u{2192}",
            PlanStatus::Pending => "\u{25cb}",
            PlanStatus::Other(_) => "\u{b7}",
        };
        lines.push(cat3(mark, " ", replace(step.text.as_str(), '\n', ' ').as_str()));
        i += 1;
    }
    assert(texts(lines@) =~= step_lines(plan.steps@));
    join(&lines, "\n")
}

fn exploration_body(group: &Exploration) -> (r: String)
    ensures
        r@ == joined(call_lines(group.calls@), "\n"@),
{
    let mut lines: Vec<String> = Vec::new();
    let mut i: usize = 0;
    while i < group.calls.len()
        invariant
            i <= group.calls@.len(),
            lines@.len() == i,
            forall|k: int| 0 <= k < i ==> (#[trigger] lines@[k])@ == group.calls@[k].summary@,
        decreases group.calls@.len() - i,
    {
        lines.push(group.calls[i].summary.clone());
        i += 1;
    }
    assert(texts(lines@) =~= call_lines(group.calls@));
    join(&lines, "\n")
}

fn exploration_row(group: Exploration) -> (r: DesktopCell)
    ensures
        r.face() == face_of(Cell::Exploration(group)),
        r.metadata@.len() == 0,
{
    let key = if group.calls.len() == 0 {
        None
    } else {
        key_for("exploration:", &group.calls[0].call_id)
    };
    let label = if group.done {
        cat3("Explored ", number(group.total).as_str(), " items")
    } else {
        cat3("Exploring ", number(group.total).as_str(), " items\u{2026}")
    };
    DesktopCell {
        key,
        kind: DesktopCellKind::Tool,
        label,
        body: exploration_body(&group),
        tone: DesktopTone::Muted,
        streaming: !group.done,
        metadata: Vec::new(),
    }
}

fn tool_row(tool: ToolCell) -> (r: DesktopCell)
    ensures
        r.face() == face_of(Cell::Tool(tool)),
        r.metadata@.len() == 0,
{
    DesktopCell {
        key: key_for("tool:", &tool.call_id),
        kind: DesktopCellKind::Tool,
        body: match &tool.output {
            Some(output) => output.in_brief(),
            None => String::new(),
        },
        tone: match tool.state {
            ToolState::Running => DesktopTone::Muted,
            ToolState::Completed => DesktopTone::Muted,
            ToolState::Failed => DesktopTone::Error,
        },
        streaming: tool.state == ToolState::Running,
        label: tool.summary,
        metadata: Vec::new(),
    }
}

fn image_row(image: crate::cells::ImageCell) -> (r: DesktopCell)
    ensures
        r.face() == face_of(Cell::Image(image)),
        r.metadata@.len() == 0,
{
    let body = image.label();
    if image.sha.is_none() {
        return row(
            DesktopCellKind::File,
            "Image".to_owned(),
            body,
            DesktopTone::Muted,
            false,
        );
    }
    DesktopCell {
        key: key_for("image:", &image.sha),
        kind: DesktopCellKind::Image {
            sha: image.sha,
            width: match image.pixels {
                Some((width, _)) => Some(width),
                None => None,
            },
            height: match image.pixels {
                Some((_, height)) => Some(height),
                None => None,
            },
            media_type: image.media_type,
            bytes: image.bytes,
        },
        label: "Screenshot".to_owned(),
        body,
        tone: DesktopTone::Muted,
        streaming: false,
        metadata: Vec::new(),
    }
}

fn diff_row(diff: crate::cells::DiffCell) -> (r: DesktopCell)
    ensures
        r.face() == face_of(Cell::Diff(diff)),
        r.metadata@.len() == 0,
{
    let head = cat5(
        match &diff.path {
            Some(path) => path.as_str(),
            None => "Diff",
        },
        " \u{b7} +",
        number(diff.additions).as_str(),
        " \u{2212}",
        number(diff.deletions).as_str(),
    );
    let label = cat2(
        head.as_str(),
        if diff.pending_approval {
            " \u{b7} awaiting approval"
        } else {
            ""
        },
    );
    row(
        DesktopCellKind::Diff,
        label,
        diff.text,
        if diff.pending_approval {
            DesktopTone::Warning
        } else {
            DesktopTone::Muted
        },
        false,
    )
}

fn subagent_row(subagent: crate::cells::SubagentCell) -> (r: DesktopCell)
    ensures
        r.face() == face_of(Cell::Subagent(subagent)),
        r.metadata@.len() == 0,
{
    let rows = join(&subagent.rows(), "\n");
    DesktopCell {
        key: key_for("subagent:", &subagent.task_id),
        kind: DesktopCellKind::Subagent,
        label: subagent.headline(),
        body: stack(subagent.detail(), rows),
        tone: desktop_tone(subagent.tone()),
        streaming: !subagent.settled,
        metadata: Vec::new(),
    }
}

/// The row a window draws for a cell of the conversation.
pub fn desktop_cell(cell: Cell) -> (r: DesktopCell)
    ensures
        r.face() == face_of(cell),
        r.metadata@.len() == 0,
{
    match cell {
        Cell::Message { speaker, text, streaming } => row(
            DesktopCellKind::Message,
            match speaker {
                Speaker::You => "You".to_owned(),
                Speaker::Agent => "Agent".to_owned(),
            },
            text,
            match speaker {
                Speaker::You => DesktopTone::Neutral,
                Speaker::Agent => DesktopTone::Accent,
            },
            streaming,
        ),
        Cell::Thinking { text, lines, state } => row(
            DesktopCellKind::Thinking,
            cat4(
                "Thinking \u{b7} ",
                number(lines).as_str(),
                " line",
                if lines == 1 {
                    ""
                } else {
                    "s"
                },
            ),
            text,
            DesktopTone::Muted,
            state == ThinkingState::Tail,
        ),
        Cell::Plan(plan) => row(
            DesktopCellKind::Plan,
            cat3("Plan \u{b7} ", number(plan.step_count).as_str(), " steps"),
            plan_body(&plan),
            DesktopTone::Neutral,
            false,
        ),
        Cell::Usage(usage) => {
            let total: u64 = match usage.total_tokens {
                Some(n) => n,
                None => 0,
            };
            let cost = match &usage.cost_usd {
                Some(cost) => cat2(" \u{b7} $", cost.as_str()),
                None => String::new(),
            };
            row(
                DesktopCellKind::Status,
                "Usage".to_owned(),
                cat3(number(total).as_str(), " tokens", cost.as_str()),
                DesktopTone::Muted,
                false,
            )
        },
        Cell::Tool(tool) => tool_row(tool),
        Cell::Exploration(group) => exploration_row(group),
        Cell::CommandOutput(body) => row(
            DesktopCellKind::Tool,
            "Command output".to_owned(),
            body,
            DesktopTone::Muted,
            true,
        ),
        Cell::File(file) => row(
            DesktopCellKind::File,
            match file.kind {
                Some(kind) => kind,
                None => "File".to_owned(),
            },
            match file.path {
                Some(path) => path,
                None => "Path not reported".to_owned(),
            },
            DesktopTone::Muted,
            false,
        ),
        Cell::Image(image) => image_row(image),
        Cell::Diff(diff) => diff_row(diff),
        Cell::DiffStat { files, additions, deletions, in_excerpt } => {
            let counts = cat5(
                number(files).as_str(),
                " files \u{b7} +",
                number(additions).as_str(),
                " \u{2212}",
                number(deletions).as_str(),
            );
            row(
                DesktopCellKind::Diff,
                "Changes".to_owned(),
                cat2(
                    counts.as_str(),
                    if in_excerpt {
                        " \u{b7} excerpt"
                    } else {
                        ""
                    },
                ),
                DesktopTone::Muted,
                false,
            )
        },
        Cell::Status { label, detail, tone } => row(
            DesktopCellKind::Status,
            label,
            detail,
            desktop_tone(tone),
            false,
        ),
        Cell::ChatNote { text } => row(
            DesktopCellKind::Status,
            "Note".to_owned(),
            text,
            DesktopTone::Muted,
            false,
        ),
        Cell::Runtime(block) => row(
            DesktopCellKind::Runtime,
            block.label,
            stack(block.detail, join(&block.body, "\n")),
            desktop_tone(block.tone),
            false,
        ),
        Cell::Subagent(subagent) => subagent_row(subagent),
        Cell::Divider { text, tone } => row(
            DesktopCellKind::Divider,
            text,
            String::new(),
            desktop_tone(tone),
            false,
        ),
    }
}

// ----- bookkeeping ------------------------------------------------------------------

/// A cell with its bookkeeping.
pub struct Shown {
    pub face: Face,
    pub metadata: Seq<Seq<char>>,
}

impl DesktopCell {
    pub open spec fn shown(&self) -> Shown {
        Shown { face: self.face(), metadata: texts(self.metadata@) }
    }

    pub open spec fn is_prompt(&self) -> bool {
        self.kind is Message && lowered(self.label@) == lowered("you"@)
    }

    pub open spec fn is_reply(&self) -> bool {
        self.kind is Message && !self.is_prompt()
    }

    /// Bookkeeping that nothing has to be done about.
    pub open spec fn is_passive(&self) -> bool {
        (self.kind is Status || self.kind is Divider) && (self.tone is Neutral || self.tone is Muted)
    }

    pub open spec fn metadata_line(&self) -> Seq<char> {
        let detail = trimmed(self.body@);
        if detail.len() == 0 {
            self.label@
        } else {
            self.label@ + " \u{b7} "@ + spread(detail)
        }
    }
}

pub open spec fn shown_all(cells: Seq<DesktopCell>) -> Seq<Shown> {
    Seq::new(cells.len(), |i: int| cells[i].shown())
}

/// The lines of a text on one line.
pub open spec fn spread(text: Seq<char>) -> Seq<char>
    decreases text.len(),
{
    if text.len() == 0 {
        Seq::empty()
    } else {
        spread(text.drop_last()) + (if text.last() == '\n' {
            " \u{b7} "@
        } else {
            seq![text.last()]
        })
    }
}

fn spread_out(text: &str) -> (r: String)
    ensures
        r@ == spread(text@),
{
    let chars = crate::text::chars_of(text);
    let mut out = String::new();
    let mut i: usize = 0;
    assert(text@.take(0).len() == 0);
    while i < chars.len()
        invariant
            i <= chars@.len(),
            chars@ == text@,
            out@ == spread(text@.take(i as int)),
        decreases chars@.len() - i,
    {
        let c = chars[i];
        assert(text@.take(i + 1).drop_last() =~= text@.take(i as int));
        let ghost before = out@;
        if c == '\n' {
            out.append(" \u{b7} ");
        } else {
            out.push(c);
            assert(out@ =~= before + seq![c]);
        }
        i += 1;
    }
    assert(text@.take(i as int) =~= text@);
    out
}

/// A row of bookkeeping in one line.
pub fn desktop_metadata_line(cell: &DesktopCell) -> (r: String)
    ensures
        r@ == cell.metadata_line(),
{
    let detail = trim(cell.body.as_str());
    if detail.as_str().is_empty() {
        cell.label.clone()
    } else {
        cat3(cell.label.as_str(), " \u{b7} ", spread_out(detail.as_str()).as_str())
    }
}

/// The rows so far: those that stay, the reply that takes bookkeeping now, and bookkeeping that no
/// reply has taken yet.
pub struct Shelf {
    pub visible: Seq<Shown>,
    pub reply: Option<int>,
    pub pending: Seq<Seq<char>>,
}

/// Bookkeeping goes to the reply it follows, or to the reply that comes next; what a prompt cuts
/// off before any reply is the session's, and goes nowhere.
pub open spec fn shelved(cells: Seq<DesktopCell>) -> Shelf
    decreases cells.len(),
{
    if cells.len() == 0 {
        Shelf { visible: Seq::empty(), reply: None, pending: Seq::empty() }
    } else {
        let shelf = shelved(cells.drop_last());
        let cell = cells.last();
        if cell.is_passive() {
            match shelf.reply {
                Some(i) => Shelf {
                    visible: shelf.visible.update(
                        i,
                        Shown {
                            face: shelf.visible[i].face,
                            metadata: shelf.visible[i].metadata.push(cell.metadata_line()),
                        },
                    ),
                    ..shelf
                },
                None => Shelf { pending: shelf.pending.push(cell.metadata_line()), ..shelf },
            }
        } else if cell.is_prompt() {
            Shelf {
                visible: shelf.visible.push(cell.shown()),
                reply: None,
                pending: Seq::empty(),
            }
        } else if cell.is_reply() {
            Shelf {
                visible: shelf.visible.push(
                    Shown { face: cell.face(), metadata: texts(cell.metadata@) + shelf.pending },
                ),
                reply: Some(shelf.visible.len() as int),
                pending: Seq::empty(),
            }
        } else {
            Shelf { visible: shelf.visible.push(cell.shown()), ..shelf }
        }
    }
}

fn prompt_row(cell: &DesktopCell) -> (r: bool)
    ensures
        r == cell.is_prompt(),
{
    match cell.kind {
        DesktopCellKind::Message => same(
            lower(cell.label.as_str()).as_str(),
            lower("you").as_str(),
        ),
        _ => false,
    }
}

fn message_row(cell: &DesktopCell) -> (r: bool)
    ensures
        r == (cell.kind is Message),
{
    match cell.kind {
        DesktopCellKind::Message => true,
        _ => false,
    }
}

fn passive_row(cell: &DesktopCell) -> (r: bool)
    ensures
        r == cell.is_passive(),
{
    let kind = match cell.kind {
        DesktopCellKind::Status | DesktopCellKind::Divider => true,
        _ => false,
    };
    kind && (cell.tone == DesktopTone::Neutral || cell.tone == DesktopTone::Muted)
}

fn give(cell: DesktopCell, pending: &mut Vec<String>) -> (r: DesktopCell)
    ensures
        r.shown() == (Shown {
            face: cell.face(),
            metadata: texts(cell.metadata@) + texts(old(pending)@),
        }),
        final(pending)@.len() == 0,
{
    let mut cell = cell;
    let ghost own = texts(cell.metadata@);
    let ghost added = texts(pending@);
    cell.metadata.append(pending);
    assert(texts(cell.metadata@) =~= own + added);
    cell
}

fn note(cell: DesktopCell, line: String) -> (r: DesktopCell)
    ensures
        r.shown() == (Shown {
            face: cell.face(),
            metadata: texts(cell.metadata@).push(line@),
        }),
{
    let mut cell = cell;
    let ghost own = texts(cell.metadata@);
    cell.metadata.push(line);
    assert(texts(cell.metadata@) =~= own.push(line@));
    cell
}

/// The conversation without rows of its own for bookkeeping.
pub fn attach_passive_metadata(cells: Vec<DesktopCell>) -> (r: Vec<DesktopCell>)
    ensures
        shown_all(r@) == shelved(cells@).visible,
{
    let ghost whole = cells@;
    let mut visible: Vec<DesktopCell> = Vec::new();
    let mut reply: Option<usize> = None;
    let mut pending: Vec<String> = Vec::new();
    assert(shown_all(visible@) =~= shelved(whole.take(0)).visible);
    assert(texts(pending@) =~= shelved(whole.take(0)).pending);
    for cell in it: cells.into_iter()
        invariant
            it.seq() == whole,
            shown_all(visible@) == shelved(whole.take(it.index() as int)).visible,
            texts(pending@) == shelved(whole.take(it.index() as int)).pending,
            match reply {
                Some(i) => i < visible@.len() && shelved(whole.take(it.index() as int)).reply
                    == Some(i as int),
                None => shelved(whole.take(it.index() as int)).reply is None,
            },
    {
        let ghost at = it.index() as int;
        let ghost shelf = shelved(whole.take(at));
        let ghost seen_rows = visible@;
        proof {
            assert(whole.take(at + 1).drop_last() =~= whole.take(at));
            assert(whole.take(at + 1).last() == cell);
        }
        let prompt = prompt_row(&cell);
        if passive_row(&cell) {
            let line = desktop_metadata_line(&cell);
            match reply {
                Some(index) => {
                    let last = visible.remove(index);
                    let noted = note(last, line);
                    visible.insert(index, noted);
                    assert(shown_all(visible@) =~= shelved(whole.take(at + 1)).visible);
                },
                None => {
                    pending.push(line);
                    assert(texts(pending@) =~= shelved(whole.take(at + 1)).pending);
                },
            }
        } else if prompt {
            pending.clear();
            reply = None;
            visible.push(cell);
            assert(texts(pending@) =~= Seq::<Seq<char>>::empty());
            assert(shown_all(visible@) =~= shelved(whole.take(at + 1)).visible);
        } else if message_row(&cell) {
            reply = Some(visible.len());
            let given = give(cell, &mut pending);
            visible.push(given);
            assert(texts(pending@) =~= Seq::<Seq<char>>::empty());
            assert(shown_all(visible@) =~= shelved(whole.take(at + 1)).visible);
        } else {
            visible.push(cell);
            assert(shown_all(visible@) =~= shelved(whole.take(at + 1)).visible);
        }
    }
    assert(whole.take(whole.len() as int) =~= whole);
    visible
}

/// The rows that are no bookkeeping, in their order.
pub open spec fn staying(cells: Seq<DesktopCell>) -> Seq<DesktopCell>
    decreases cells.len(),
{
    if cells.len() == 0 {
        Seq::empty()
    } else if cells.last().is_passive() {
        staying(cells.drop_last())
    } else {
        staying(cells.drop_last()).push(cells.last())
    }
}

/// Every row but the bookkeeping stays, in its place and unchanged, and only a reply takes
/// bookkeeping on.
pub proof fn lemma_only_bookkeeping_leaves(cells: Seq<DesktopCell>)
    ensures
        shelved(cells).visible.len() == staying(cells).len(),
        forall|i: int|
            0 <= i < staying(cells).len() ==> {
                &&& (#[trigger] shelved(cells).visible[i]).face == staying(cells)[i].face()
                &&& !staying(cells)[i].is_passive()
                &&& !staying(cells)[i].is_reply() ==> shelved(cells).visible[i].metadata == texts(
                    staying(cells)[i].metadata@,
                )
            },
        match shelved(cells).reply {
            Some(i) => 0 <= i < staying(cells).len() && staying(cells)[i].is_reply(),
            None => true,
        },
    decreases cells.len(),
{
    if cells.len() > 0 {
        lemma_only_bookkeeping_leaves(cells.drop_last());
        let rest = cells.drop_last();
        assert forall|i: int| 0 <= i < staying(cells).len() implies {
            &&& (#[trigger] shelved(cells).visible[i]).face == staying(cells)[i].face()
            &&& !staying(cells)[i].is_passive()
            &&& !staying(cells)[i].is_reply() ==> shelved(cells).visible[i].metadata == texts(
                staying(cells)[i].metadata@,
            )
        } by {
            if i < staying(rest).len() {
                assert(shelved(rest).visible[i].face == staying(rest)[i].face());
            }
        }
    }
}

/// A prompt closes what came before it: the rows up to it no longer change, and nothing is held
/// over.
pub proof fn lemma_a_prompt_closes_what_came_before(cells: Seq<DesktopCell>, prompt: DesktopCell)
    requires
        prompt.is_prompt(),
    ensures
        shelved(cells.push(prompt)).visible == shelved(cells).visible.push(prompt.shown()),
        shelved(cells.push(prompt)).pending.len() == 0,
        shelved(cells.push(prompt)).reply is None,
{
    assert(cells.push(prompt).drop_last() =~= cells);
}

// ----- excerpts ---------------------------------------------------------------------

/// The last place at or before `at` where a character of the text starts or the text ends.
pub open spec fn boundary(bytes: Seq<u8>, at: nat) -> nat
    decreases at,
{
    if at == 0 || is_char_boundary(bytes, at as int) {
        at
    } else {
        boundary(bytes, (at - 1) as nat)
    }
}

/// As much of a text as fits the limit in UTF-8, and a line on what does not.
pub open spec fn excerpt(text: Seq<char>, limit: nat) -> Seq<char> {
    let bytes = encode_utf8(text);
    if bytes.len() <= limit {
        text
    } else {
        let end = boundary(bytes, limit);
        decode_utf8(bytes.take(end as int)) + "\n\u{2026} "@ + decimal((bytes.len() - end) as nat)
            + " more bytes omitted; inspect event details in the TUI for the full value"@
    }
}

pub fn desktop_excerpt(text: &str, max_bytes: usize) -> (r: String)
    ensures
        r@ == excerpt(text@, max_bytes as nat),
{
    let ghost bytes = encode_utf8(text@);
    let size: usize = text.as_bytes().len();
    if size <= max_bytes {
        return text.to_owned();
    }
    let mut end: usize = max_bytes;
    proof {
        encode_utf8_valid_utf8(text@);
        is_char_boundary_start_end_of_seq(bytes);
    }
    while !text.is_char_boundary(end)
        invariant
            end <= max_bytes,
            bytes == encode_utf8(text@),
            max_bytes < bytes.len(),
            is_char_boundary(bytes, 0),
            boundary(bytes, end as nat) == boundary(bytes, max_bytes as nat),
        decreases end,
    {
        end -= 1;
    }
    let (head, _) = text.split_at(end);
    proof {
        encode_utf8_decode_utf8(head@);
        assert(bytes.subrange(0, end as int) =~= bytes.take(end as int));
    }
    cat4(
        head,
        "\n\u{2026} ",
        count(size - end).as_str(),
        " more bytes omitted; inspect event details in the TUI for the full value",
    )
}

proof fn lemma_boundary(bytes: Seq<u8>, at: nat)
    requires
        valid_utf8(bytes),
        at <= bytes.len(),
    ensures
        boundary(bytes, at) <= at,
        is_char_boundary(bytes, boundary(bytes, at) as int),
        forall|b: int|
            boundary(bytes, at) < b <= at ==> !#[trigger] is_char_boundary(bytes, b),
    decreases at,
{
    is_char_boundary_start_end_of_seq(bytes);
    if at != 0 && !is_char_boundary(bytes, at as int) {
        lemma_boundary(bytes, (at - 1) as nat);
    }
}

/// What an excerpt keeps of a text that is too long is a prefix of it, within the limit, and no
/// longer prefix that ends with a whole character is.
pub proof fn lemma_an_excerpt_is_the_longest_prefix(text: Seq<char>, limit: nat)
    requires
        encode_utf8(text).len() > limit,
    ensures
        ({
            let bytes = encode_utf8(text);
            let kept = decode_utf8(bytes.take(boundary(bytes, limit) as int));
            &&& kept.len() <= text.len()
            &&& kept == text.take(kept.len() as int)
            &&& encode_utf8(kept).len() == boundary(bytes, limit) <= limit
            &&& forall|b: int|
                boundary(bytes, limit) < b <= limit ==> !#[trigger] is_char_boundary(bytes, b)
        }),
{
    let bytes = encode_utf8(text);
    encode_utf8_valid_utf8(text);
    encode_utf8_decode_utf8(text);
    lemma_boundary(bytes, limit);
    let end = boundary(bytes, limit) as int;
    let (head, tail) = (bytes.subrange(0, end), bytes.subrange(end, bytes.len() as int));
    assert(bytes.take(end) =~= head);
    valid_utf8_split(bytes, end);
    decode_utf8_split(bytes, end);
    decode_utf8_encode_utf8(head);
    assert(text == decode_utf8(head) + decode_utf8(tail));
    assert(text.take(decode_utf8(head).len() as int) =~= decode_utf8(head));
}

// ----- approvals --------------------------------------------------------------------

/// A change an approval is about.
#[derive(Debug)]
pub struct ApprovalDiff {
    pub path: Option<String>,
    pub additions: u64,
    pub deletions: u64,
    pub truncated: bool,
    pub text: String,
}

#[derive(Debug)]
pub struct ApprovalEdit {
    pub path: String,
    pub kind: String,
    pub old_bytes: u64,
    pub new_bytes: u64,
}

/// An answer a plan exit lists.
#[derive(Debug)]
pub struct PlanOption {
    pub name: String,
    pub choice: PlanChoice,
}

/// An answer a request lists.
#[derive(Debug)]
pub struct ApprovalOption {
    pub name: String,
    /// The words the answer carries, where it is an answer to a question.
    pub answer: Option<String>,
    /// The decision and scope the answer stands for, where it stands for one.
    pub mapped: Option<(ApprovalDecision, ApprovalScope)>,
}

/// The child agent a request came from.
#[derive(Debug)]
pub struct AskedBy {
    pub description: String,
    pub task_id: String,
    pub node: Option<String>,
}

impl AskedBy {
    pub open spec fn words(&self, home: Option<Seq<char>>) -> Seq<char> {
        "asked by subagent "@ + self.description@ + " ("@ + self.task_id@ + ")"@ + (
        match self.node {
            Some(node) => if Some(node@) != home {
                " on "@ + node@
            } else {
                Seq::empty()
            },
            None => Seq::empty(),
        })
    }

    /// Who asked, and where the child runs when that is not where the session does.
    pub fn line(&self, home: Option<&str>) -> (r: String)
        ensures
            r@ == self.words(heard(home)),
    {
        let place = match &self.node {
            Some(node) => {
                let at_home = match home {
                    Some(home) => same(home, node.as_str()),
                    None => false,
                };
                if at_home {
                    String::new()
                } else {
                    cat2(" on ", node.as_str())
                }
            },
            None => String::new(),
        };
        let who = cat5(
            "asked by subagent ",
            self.description.as_str(),
            " (",
            self.task_id.as_str(),
            ")",
        );
        cat2(who.as_str(), place.as_str())
    }
}

#[derive(Debug)]
pub struct ApprovalDetail {
    pub kind: Option<String>,
    pub title: Option<String>,
    pub reason: Option<String>,
    pub command: Option<String>,
    pub cwd: Option<String>,
    pub locations: Vec<String>,
    pub suggested_rule: Option<String>,
    pub diff: Option<ApprovalDiff>,
    pub diff_excerpted: bool,
    pub edits: Vec<ApprovalEdit>,
    /// The answers of a plan exit, where the request is one.
    pub plan: Option<Vec<PlanOption>>,
    pub options: Vec<ApprovalOption>,
    pub subagent: Option<AskedBy>,
}

/// A request for approval that a session is waiting on.
#[derive(Debug)]
pub struct ApprovalRequest {
    pub request_id: String,
    pub subject: String,
    pub question: bool,
    pub detail: ApprovalDetail,
}

#[derive(Debug, Clone, PartialEq, Eq)]
pub struct DesktopApprovalChoice {
    pub label: String,
    pub decision: Option<ApprovalDecision>,
    pub scope: Option<ApprovalScope>,
    pub plan: Option<PlanChoice>,
}

#[derive(Debug, Clone, PartialEq, Eq)]
pub struct DesktopApprovalDiff {
    pub label: String,
    pub text: String,
}

#[derive(Debug, Clone, PartialEq, Eq)]
pub struct DesktopApproval {
    pub plane: Plane,
    pub session_id: String,
    pub request_id: String,
    pub subject: String,
    pub kind: Option<String>,
    /// A question for a person rather than a permission, which no automatic answer is offered
    /// for.
    pub question: bool,
    pub title: Option<String>,
    pub reason: Option<String>,
    pub command: Option<String>,
    pub cwd: Option<String>,
    pub locations: Vec<String>,
    pub suggested_rule: Option<String>,
    pub diff: Option<DesktopApprovalDiff>,
    pub edits: Vec<String>,
    pub choices: Vec<DesktopApprovalChoice>,
    pub subagent: Option<String>,
}

/// A row of an approval card.
pub struct Choice {
    pub label: Seq<char>,
    pub decision: Option<ApprovalDecision>,
    pub scope: Option<ApprovalScope>,
    pub plan: Option<(Seq<char>, ApprovalDecision, ApprovalScope)>,
}

impl DesktopApprovalChoice {
    pub open spec fn choice(&self) -> Choice {
        Choice {
            label: self.label@,
            decision: self.decision,
            scope: self.scope,
            plan: match self.plan {
                Some(plan) => Some((plan.word@, plan.decision, plan.scope)),
                None => None,
            },
        }
    }
}

pub open spec fn choices_of(rows: Seq<DesktopApprovalChoice>) -> Seq<Choice> {
    Seq::new(rows.len(), |i: int| rows[i].choice())
}

pub open spec fn plan_choice(option: PlanOption) -> Choice {
    Choice {
        label: option.name@,
        decision: None,
        scope: None,
        plan: Some((option.choice.word@, option.choice.decision, option.choice.scope)),
    }
}

pub open spec fn option_choice(option: ApprovalOption) -> Choice {
    Choice {
        label: option.name@,
        decision: match option.mapped {
            Some((decision, _)) => Some(decision),
            None => None,
        },
        scope: match option.mapped {
            Some((_, scope)) => Some(scope),
            None => None,
        },
        plan: None,
    }
}

pub open spec fn plain_choice(
    label: Seq<char>,
    decision: ApprovalDecision,
    scope: ApprovalScope,
) -> Choice {
    Choice { label, decision: Some(decision), scope: Some(scope), plan: None }
}

pub open spec fn standard_choices() -> Seq<Choice> {
    seq![
        plain_choice("Allow once"@, ApprovalDecision::Approve, ApprovalScope::Once),
        plain_choice("Allow for session"@, ApprovalDecision::Approve, ApprovalScope::Session),
        plain_choice("Deny once"@, ApprovalDecision::Deny, ApprovalScope::Once),
        plain_choice("Deny for session"@, ApprovalDecision::Deny, ApprovalScope::Session),
    ]
}

/// No listed answer carries words of its own. An answer in words cannot be sent from a card that
/// sends a decision and a scope and nothing else, so such a request keeps the standard answers.
pub open spec fn wordless(options: Seq<ApprovalOption>) -> bool {
    forall|i: int| 0 <= i < options.len() ==> (#[trigger] options[i]).answer is None
}

/// The answers a card offers: those of a plan exit, those the request lists, or the standard
/// ones.
pub open spec fn offered_choices(detail: ApprovalDetail) -> Seq<Choice> {
    match detail.plan {
        Some(plan) => Seq::new(plan@.len(), |i: int| plan_choice(plan@[i])),
        None => if detail.options@.len() > 0 && wordless(detail.options@) {
            Seq::new(detail.options@.len(), |i: int| option_choice(detail.options@[i]))
        } else {
            standard_choices()
        },
    }
}

pub open spec fn diff_label(diff: ApprovalDiff, excerpted: bool) -> Seq<char> {
    (match diff.path {
        Some(path) => path@ + " \u{b7} "@,
        None => Seq::empty(),
    }) + "+"@ + decimal(diff.additions as nat) + " \u{2212}"@ + decimal(diff.deletions as nat) + (
    if excerpted || diff.truncated {
        " \u{b7} excerpt"@
    } else {
        ""@
    })
}

pub open spec fn edit_line(edit: ApprovalEdit) -> Seq<char> {
    edit.path@ + " \u{b7} "@ + edit.kind@ + " \u{b7} "@ + decimal(edit.old_bytes as nat)
        + " \u{2192} "@ + decimal(edit.new_bytes as nat) + " bytes"@
}

pub open spec fn edit_lines(edits: Seq<ApprovalEdit>) -> Seq<Seq<char>> {
    Seq::new(edits.len(), |i: int| edit_line(edits[i]))
}

/// How much of a change a card shows.
pub const DIFF_BYTES: usize = 16384;

impl DesktopApproval {
    /// The card shows this request of this session.
    pub open spec fn presents(
        &self,
        plane: Plane,
        id: Seq<char>,
        request: ApprovalRequest,
        home: Option<Seq<char>>,
    ) -> bool {
        let detail = request.detail;
        &&& self.plane == plane
        &&& self.session_id@ == id
        &&& self.request_id@ == request.request_id@
        &&& self.subject@ == request.subject@
        &&& self.question == request.question
        &&& said(self.kind) == said(detail.kind)
        &&& said(self.title) == said(detail.title)
        &&& said(self.reason) == said(detail.reason)
        &&& said(self.command) == said(detail.command)
        &&& said(self.cwd) == said(detail.cwd)
        &&& texts(self.locations@) == texts(detail.locations@)
        &&& said(self.suggested_rule) == said(detail.suggested_rule)
        &&& match detail.diff {
            Some(diff) => {
                &&& self.diff is Some
                &&& self.diff->0.label@ == diff_label(diff, detail.diff_excerpted)
                &&& self.diff->0.text@ == excerpt(diff.text@, DIFF_BYTES as nat)
            },
            None => self.diff is None,
        }
        &&& texts(self.edits@) == edit_lines(detail.edits@)
        &&& choices_of(self.choices@) == offered_choices(detail)
        &&& said(self.subagent) == match detail.subagent {
            Some(subagent) => Some(subagent.words(home)),
            None => None,
        }
    }
}

fn standard(label: &str, decision: ApprovalDecision, scope: ApprovalScope) -> (r:
    DesktopApprovalChoice)
    ensures
        r.choice() == plain_choice(label@, decision, scope),
{
    DesktopApprovalChoice {
        label: label.to_owned(),
        decision: Some(decision),
        scope: Some(scope),
        plan: None,
    }
}

fn all_wordless(options: &Vec<ApprovalOption>) -> (r: bool)
    ensures
        r == wordless(options@),
{
    let mut i: usize = 0;
    while i < options.len()
        invariant
            i <= options@.len(),
            forall|k: int| 0 <= k < i ==> (#[trigger] options@[k]).answer is None,
        decreases options@.len() - i,
    {
        if options[i].answer.is_some() {
            assert(options@[i as int].answer is Some);
            return false;
        }
        i += 1;
    }
    true
}

fn plan_rows(plan: &Vec<PlanOption>) -> (r: Vec<DesktopApprovalChoice>)
    ensures
        choices_of(r@) == Seq::new(plan@.len(), |i: int| plan_choice(plan@[i])),
{
    let mut rows: Vec<DesktopApprovalChoice> = Vec::new();
    let mut i: usize = 0;
    while i < plan.len()
        invariant
            i <= plan@.len(),
            rows@.len() == i,
            forall|k: int| 0 <= k < i ==> (#[trigger] rows@[k]).choice() == plan_choice(plan@[k]),
        decreases plan@.len() - i,
    {
        let option = &plan[i];
        rows.push(
            DesktopApprovalChoice {
                label: option.name.clone(),
                decision: None,
                scope: None,
                plan: Some(
                    PlanChoice {
                        word: option.choice.word.clone(),
                        decision: option.choice.decision,
                        scope: option.choice.scope,
                    },
                ),
            },
        );
        i += 1;
    }
    assert(choices_of(rows@) =~= Seq::new(plan@.len(), |i: int| plan_choice(plan@[i])));
    rows
}

fn option_rows(options: &Vec<ApprovalOption>) -> (r: Vec<DesktopApprovalChoice>)
    ensures
        choices_of(r@) == Seq::new(options@.len(), |i: int| option_choice(options@[i])),
{
    let mut rows: Vec<DesktopApprovalChoice> = Vec::new();
    let mut i: usize = 0;
    while i < options.len()
        invariant
            i <= options@.len(),
            rows@.len() == i,
            forall|k: int|
                0 <= k < i ==> (#[trigger] rows@[k]).choice() == option_choice(options@[k]),
        decreases options@.len() - i,
    {
        let option = &options[i];
        rows.push(
            DesktopApprovalChoice {
                label: option.name.clone(),
                decision: match option.mapped {
                    Some((decision, _)) => Some(decision),
                    None => None,
                },
                scope: match option.mapped {
                    Some((_, scope)) => Some(scope),
                    None => None,
                },
                plan: None,
            },
        );
        i += 1;
    }
    assert(choices_of(rows@) =~= Seq::new(options@.len(), |i: int| option_choice(options@[i])));
    rows
}

fn choice_rows(detail: &ApprovalDetail) -> (r: Vec<DesktopApprovalChoice>)
    ensures
        choices_of(r@) == offered_choices(*detail),
{
    if let Some(plan) = &detail.plan {
        return plan_rows(plan);
    }
    if detail.options.len() > 0 && all_wordless(&detail.options) {
        return option_rows(&detail.options);
    }
    let mut rows: Vec<DesktopApprovalChoice> = Vec::new();
    rows.push(standard("Allow once", ApprovalDecision::Approve, ApprovalScope::Once));
    rows.push(standard("Allow for session", ApprovalDecision::Approve, ApprovalScope::Session));
    rows.push(standard("Deny once", ApprovalDecision::Deny, ApprovalScope::Once));
    rows.push(standard("Deny for session", ApprovalDecision::Deny, ApprovalScope::Session));
    assert(choices_of(rows@) =~= standard_choices());
    rows
}

fn diff_card(diff: &ApprovalDiff, excerpted: bool) -> (r: DesktopApprovalDiff)
    ensures
        r.label@ == diff_label(*diff, excerpted),
        r.text@ == excerpt(diff.text@, DIFF_BYTES as nat),
{
    let path = match &diff.path {
        Some(path) => cat2(path.as_str(), " \u{b7} "),
        None => String::new(),
    };
    let counts = cat5(
        path.as_str(),
        "+",
        number(diff.additions).as_str(),
        " \u{2212}",
        number(diff.deletions).as_str(),
    );
    DesktopApprovalDiff {
        label: cat2(
            counts.as_str(),
            if excerpted || diff.truncated {
                " \u{b7} excerpt"
            } else {
                ""
            },
        ),
        text: desktop_excerpt(diff.text.as_str(), DIFF_BYTES),
    }
}

fn edit_rows(edits: &Vec<ApprovalEdit>) -> (r: Vec<String>)
    ensures
        texts(r@) == edit_lines(edits@),
{
    let mut rows: Vec<String> = Vec::new();
    let mut i: usize = 0;
    while i < edits.len()
        invariant
            i <= edits@.len(),
            rows@.len() == i,
            forall|k: int| 0 <= k < i ==> (#[trigger] rows@[k])@ == edit_line(edits@[k]),
        decreases edits@.len() - i,
    {
        let edit = &edits[i];
        let head = cat5(
            edit.path.as_str(),
            " \u{b7} ",
            edit.kind.as_str(),
            " \u{b7} ",
            number(edit.old_bytes).as_str(),
        );
        rows.push(
            cat4(head.as_str(), " \u{2192} ", number(edit.new_bytes).as_str(), " bytes"),
        );
        i += 1;
    }
    assert(texts(rows@) =~= edit_lines(edits@));
    rows
}

/// The card for a request of a session, whose own node is `home`.
pub fn approval_card(
    plane: Plane,
    id: &str,
    request: &ApprovalRequest,
    home: Option<&str>,
) -> (r: DesktopApproval)
    ensures
        r.presents(plane, id@, *request, heard(home)),
{
    let detail = &request.detail;
    DesktopApproval {
        plane,
        session_id: id.to_owned(),
        request_id: request.request_id.clone(),
        subject: request.subject.clone(),
        kind: copy_text(&detail.kind),
        question: request.question,
        title: copy_text(&detail.title),
        reason: copy_text(&detail.reason),
        command: copy_text(&detail.command),
        cwd: copy_text(&detail.cwd),
        locations: copy_texts(&detail.locations),
        suggested_rule: copy_text(&detail.suggested_rule),
        diff: match &detail.diff {
            Some(diff) => Some(diff_card(diff, detail.diff_excerpted)),
            None => None,
        },
        edits: edit_rows(&detail.edits),
        choices: choice_rows(detail),
        subagent: match &detail.subagent {
            Some(subagent) => Some(subagent.line(home)),
            None => None,
        },
    }
}

} // verus!
