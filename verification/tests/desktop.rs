use std::sync::Arc;

use ouroboros_tui::cells::{Cell, ImageCell, Speaker, SubagentCell, Tone, ToolCell, ToolState};
use ouroboros_tui::desktop::{
    attach_passive_metadata, desktop_cell, desktop_excerpt, DesktopCellKind, DesktopTone,
};
use ouroboros_tui::forms::ProviderEntry;
use ouroboros_tui::json::{Json, Member};
use ouroboros_tui::model::Effort;
use ouroboros_tui::window::{desktop_reasoning_choices, ModelEntry};

fn model(words: &[&str]) -> ModelEntry {
    ModelEntry {
        id: "openai_codex:gpt-test".to_string(),
        efforts: words.iter().filter_map(|word| Effort::parse(word)).collect(),
    }
}

fn provider(words: &[&str]) -> ProviderEntry {
    ProviderEntry {
        provider: "native".to_string(),
        ready: true,
        efforts: words.iter().filter_map(|word| Effort::parse(word)).collect(),
    }
}

#[test]
fn desktop_reasoning_rows_intersect_model_and_transport_capabilities() {
    let model = model(&["low", "medium", "high", "future"]);

    assert_eq!(
        desktop_reasoning_choices(&model, &provider(&["low", "high"])),
        vec![Effort::Low, Effort::High]
    );
    assert!(desktop_reasoning_choices(&model, &provider(&[])).is_empty());
}

#[test]
fn desktop_tool_rows_keep_their_call_identity_for_local_expansion_state() {
    let cell = desktop_cell(Cell::Tool(ToolCell {
        call_id: Some("call-42".to_string()),
        name: "bash".to_string(),
        kind: Some("execute".to_string()),
        input: Json::Object(vec![Member {
            name: "command".to_string(),
            value: Json::Text("printf hello".to_string()),
        }]),
        output: Some(Json::Text("hello".to_string())),
        state: ToolState::Completed,
        started_at: Some(10),
        settled_at: Some(20),
        summary: "printf hello".to_string(),
    }));

    assert_eq!(cell.key.as_deref(), Some("tool:call-42"));
    assert_eq!(cell.kind, DesktopCellKind::Tool);
}

#[test]
fn a_running_child_agent_reaches_the_desktop_keyed_and_live() {
    let cell = desktop_cell(Cell::Subagent(SubagentCell {
        task_id: Some("task-a".to_string()),
        description: Some("audit the parser".to_string()),
        provider_session_id: Some("sess-child".to_string()),
        node: Some("ouro-2@fleet".to_string()),
        remote: true,
        worktree: true,
        background: true,
        depth: Some(2),
        turns: Some(4),
        tool_calls: Some(11),
        files: Some(2),
        ..SubagentCell::default()
    }));

    assert_eq!(cell.kind, DesktopCellKind::Subagent);
    assert_eq!(
        cell.key.as_deref(),
        Some("subagent:task-a"),
        "the row keeps its identity across the rewrites progress causes"
    );
    assert_eq!(
        cell.label,
        "Subagent audit the parser · ⇄ ouro-2@fleet · ⎇ worktree · background · depth 2"
    );
    assert!(cell.body.contains("4 turns · 11 tool calls · 2 files"), "{cell:#?}");
    assert!(
        cell.body.contains("session sess-child"),
        "the desktop leads to the child's own transcript too: {cell:#?}"
    );
    assert!(cell.streaming, "a child that has not settled is working");
    assert_eq!(cell.tone, DesktopTone::Muted);
}

#[test]
fn a_desktop_artifact_reaches_the_desktop_as_an_image_cell_with_its_bytes_off_the_body() {
    let sha = "a".repeat(64);
    let bytes = Arc::new(vec![1u8, 2, 3, 4]);

    let cell = desktop_cell(Cell::Image(ImageCell {
        named: format!("desktop capture · {}", &sha[..12]),
        pixels: Some((480, 640)),
        format: Some("jpeg".to_string()),
        note: None,
        sha: Some(sha.clone()),
        media_type: Some("image/jpeg".to_string()),
        bytes: Some(bytes.clone()),
    }));

    assert_eq!(
        cell.kind,
        DesktopCellKind::Image {
            sha: Some(sha.clone()),
            width: Some(480),
            height: Some(640),
            media_type: Some("image/jpeg".to_string()),
            bytes: Some(bytes),
        }
    );
    assert_eq!(cell.key.as_deref(), Some(format!("image:{sha}").as_str()));
    assert!(cell.body.contains("480×640 jpeg"), "{cell:#?}");
    assert!(!cell.body.contains('\u{1b}'), "no escapes leak into the body");

    let attachment = desktop_cell(Cell::Image(ImageCell {
        named: ".ouroboros/images/shot.png".to_string(),
        pixels: Some((32, 32)),
        format: Some("png".to_string()),
        note: None,
        sha: None,
        media_type: None,
        bytes: None,
    }));
    assert_eq!(attachment.kind, DesktopCellKind::File);
}

#[test]
fn a_settled_child_agent_stops_streaming_and_takes_its_verdicts_tone() {
    let settled = |status: &str| {
        desktop_cell(Cell::Subagent(SubagentCell {
            task_id: Some("task-a".to_string()),
            description: Some("audit the parser".to_string()),
            status: Some(status.to_string()),
            settled: true,
            turns: Some(9),
            tool_calls: Some(31),
            files: Some(4),
            input_tokens: Some(18_400),
            output_tokens: Some(2_100),
            ..SubagentCell::default()
        }))
    };

    let completed = settled("completed");
    assert!(!completed.streaming);
    assert_eq!(completed.tone, DesktopTone::Success);
    assert!(
        completed
            .body
            .contains("completed · 9 turns · 31 tool calls · 4 files · 18400 in / 2100 out tokens"),
        "{completed:#?}"
    );

    assert_eq!(settled("failed").tone, DesktopTone::Error);
    assert_eq!(settled("timed_out").tone, DesktopTone::Error);
    assert_eq!(settled("stopped").tone, DesktopTone::Muted);
}

fn message(speaker: Speaker, text: &str) -> Cell {
    Cell::Message { speaker, text: text.to_string(), streaming: false }
}

fn status(label: &str) -> Cell {
    Cell::Status { label: label.to_string(), detail: String::new(), tone: Tone::Muted }
}

#[test]
fn bookkeeping_goes_to_the_reply_it_follows() {
    let cells: Vec<_> = vec![
        message(Speaker::You, "hi"),
        message(Speaker::Agent, "hello"),
        status("Turn completed"),
    ]
    .into_iter()
    .map(desktop_cell)
    .collect();

    let shown = attach_passive_metadata(cells);

    assert_eq!(shown.len(), 2);
    assert!(shown[0].metadata.is_empty());
    assert_eq!(shown[1].body, "hello");
    assert_eq!(shown[1].metadata.len(), 1);
}

#[test]
fn an_excerpt_ends_between_characters_and_counts_the_rest() {
    assert_eq!(desktop_excerpt("short", 16), "short");

    let cut = desktop_excerpt("ééééé", 3);
    assert!(cut.starts_with("é\n… 8 more bytes omitted"), "{cut}");
}
