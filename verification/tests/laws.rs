use std::collections::HashSet;

use ouroboros_tui::access::{row_for_digit, row_number, Label};
use ouroboros_tui::app::{App, Overlay, Tab};
use ouroboros_tui::clock::epoch_seconds;
use ouroboros_tui::cluster::{
    machine_choices, machine_summary, FleetMember, FleetProfile, MachineChoice, MachineSecurity,
    RuntimeStatus,
};
use ouroboros_tui::embed::{directory_name, hex};
use ouroboros_tui::fleet::canonical_host;
use ouroboros_tui::forms::{wrap, NewField, NewSession};
use ouroboros_tui::json::Json;
use ouroboros_tui::keys::{Chord, Hits, LeaderVerb, Route, Standing};
use ouroboros_tui::ledger::{Ledger, LedgerKey};
use ouroboros_tui::model::Plane;
use ouroboros_tui::ownership::Mode;
use ouroboros_tui::panel::Loadable;
use ouroboros_tui::press::{KeyCode, Press};
use ouroboros_tui::sessions::{Cursors, Draft};
use ouroboros_tui::submit::{Edit, EditorAction};
use ouroboros_tui::tags::{Call, Queue, Tag};
use ouroboros_tui::wire::Hello;

fn client(methods: &[&str]) -> App {
    let hello = Hello {
        scope: "operate".to_string(),
        methods: methods.iter().map(|method| method.to_string()).collect(),
        ..Hello::default()
    };
    App::new(Mode::Attached, "127.0.0.1:4000".to_string(), hello)
}

fn press(code: KeyCode) -> Press {
    Press { code, ctrl: false, shift: false, alt: false, release: false }
}

fn key(app: &mut App, code: KeyCode) -> Route {
    let hits = Hits {
        palette: false,
        quit: false,
        rename: false,
        suspend: false,
        leader: false,
        editor: false,
        verbose: false,
        plan_panel: false,
        cancel: false,
        quit_empty: false,
        help: false,
        settings: false,
        interrupt: false,
        transcript_top: false,
        transcript_bottom: false,
        backtrack: Chord::Unbound,
        quit_bound: true,
    };
    let standing = Standing {
        turn_running: false,
        ledger: false,
        numbered: false,
        drawn: 0,
        row: None,
        leader_ticks: 8,
        backtrack_ticks: 4,
    };
    app.key(press(code), &hits, &standing).0
}

#[test]
fn labels_are_told_apart_by_their_words() {
    let labels = [
        Label::You,
        Label::Agent,
        Label::Thinking,
        Label::Tool,
        Label::ToolError,
        Label::Error,
        Label::Warning,
        Label::ApprovalNeeded,
    ];
    let words: HashSet<&str> = labels.iter().map(|label| label.as_str()).collect();
    assert_eq!(words.len(), labels.len());
    assert!(words.iter().all(|word| word.ends_with(':')), "{words:?}");
}

#[test]
fn the_number_drawn_selects_the_row() {
    for index in 0..9 {
        let number = row_number(index).expect("the first nine rows have a number");
        let digit = char::from_digit(number as u32, 10).unwrap();
        assert_eq!(row_for_digit(digit), Some(index));
    }
    assert_eq!(row_number(9), None);
    assert_eq!(row_for_digit('0'), None);
}

#[test]
fn days_follow_one_another() {
    assert_eq!(epoch_seconds("1970-01-01T00:00:00Z"), Some(0));
    assert_eq!(epoch_seconds("2024-02-29T00:00:00Z"), Some(1_709_164_800));
    assert_eq!(epoch_seconds("2024-03-01T00:00:00Z"), Some(1_709_164_800 + 86_400));
    assert_eq!(epoch_seconds("2023-12-31T00:00:00Z"), Some(1_704_067_200 - 86_400));
    assert_eq!(epoch_seconds("2024-01-01T00:00:00Z"), Some(1_704_067_200));
}

#[test]
fn only_a_whole_timestamp_is_read() {
    assert_eq!(epoch_seconds("1970-01-01T01:00:00+01:00"), Some(0));
    assert_eq!(epoch_seconds("1969-12-31T22:30:00.25-01:30"), Some(0));
    assert_eq!(epoch_seconds(" 1970-01-01T00:00:07.125Z "), Some(7));
    assert_eq!(epoch_seconds("1970-01-01T00:00:07"), Some(7));
    for raw in [
        "1970x01x01T00x00x00Z",
        "1970-01-01 00:00:00Z",
        "+970-01-01T00:00:00Z",
        "1970-+1-01T00:00:00Z",
        "1970-01-01T-1:00:00Z",
        "1970-01-01T00:00:00 and more",
        "1970-01-01T00:00:00.5 and more",
        "1970-01-01T00:00:00.Z",
        "1970-01-01T00:00:00+01x00",
        "1970-01-01T00:00:00+01:x0",
        "1970-01-01T00:00:00+01",
        "1970-13-01T00:00:00Z",
        "1970-01-01T24:00:00Z",
        "yesterday",
        "",
    ] {
        assert_eq!(epoch_seconds(raw), None, "{raw}");
    }
}

fn member(machine: &str) -> FleetMember {
    FleetMember { node: format!("core@{machine}"), machine: machine.to_string() }
}

fn profile() -> FleetProfile {
    FleetProfile {
        name: "home".to_string(),
        machine: "laptop".to_string(),
        host: "laptop.local".to_string(),
        node: "core@laptop".to_string(),
        members: vec![member("laptop"), member("server"), member("attic")],
    }
}

fn status() -> RuntimeStatus {
    RuntimeStatus {
        node: "core@laptop".to_string(),
        cluster: Json::Null,
        connected_nodes: vec!["core@server".to_string()],
    }
}

#[test]
fn a_summary_adds_up() {
    let summary = machine_summary(Some(&status()), Some(&profile()), "core@laptop");
    assert_eq!(summary.mode, "Fleet");
    assert_eq!(summary.fleet.as_deref(), Some("home"));
    assert_eq!((summary.expected, summary.connected, summary.offline), (Some(3), 2, Some(1)));
    assert_eq!(summary.offline_names, vec!["attic"]);
    assert_ne!(summary.security, MachineSecurity::Standalone);
}

#[test]
fn only_machines_that_answer_are_offered() {
    let choices = machine_choices(Some(&status()), Some(&profile()), "core@laptop");
    assert_eq!(choices.len(), 2);
    assert!(matches!(&choices[0], MachineChoice::Local { .. }));
    assert_eq!(choices[0].wire_name(), None);
    assert_eq!(choices[1].wire_name(), Some("server"));
}

#[test]
fn hexadecimal_and_names_tell_their_sources_apart() {
    assert_eq!(hex(&[0, 15, 255]), "000fff");
    assert_ne!(hex(&[1, 0]), hex(&[0, 1]));
    assert_ne!(directory_name("1.0", "aa"), directory_name("1.1", "aa"));
}

#[test]
fn a_canonical_host_is_its_own_canonical_form() {
    for raw in ["Server.Local.", "10.0.0.7", "node-3"] {
        let once = canonical_host(raw).expect(raw);
        assert_eq!(canonical_host(&once).as_deref(), Some(once.as_str()));
    }
    assert_eq!(canonical_host("-bad"), None);
}

#[test]
fn a_step_and_its_opposite_cancel() {
    for at in 0..5 {
        assert_eq!(wrap(wrap(at, 1, 5), -1, 5), at);
        assert_eq!(wrap(at, 5, 5), at);
    }
}

#[test]
fn another_plane_keeps_the_cursor_on_a_row() {
    let mut form = NewSession::new(Plane::Interactive, "/src".to_string(), None, None);
    for _ in 0..12 {
        assert!(form.fields().contains(&form.field));
        form.cycle(1, 2);
        assert!(form.fields().contains(&form.field));
        form.move_field(1);
    }
}

#[test]
fn a_form_in_flight_is_not_edited() {
    let mut app = client(&["interactive.start"]);
    let mut form = NewSession::new(Plane::Interactive, "/src".to_string(), None, None);
    form.field = NewField::Workspace;
    form.pending = true;
    app.overlay = Some(Overlay::New(Box::new(form)));

    assert_eq!(key(&mut app, KeyCode::Char('x')), Route::Overlay);
    assert_eq!(key(&mut app, KeyCode::Enter), Route::Overlay);
    match &app.overlay {
        Some(Overlay::New(form)) => {
            assert_eq!((form.request.workspace.as_str(), form.pending), ("/src", true));
        }
        other => panic!("{other:?}"),
    }
    assert!(app.drain().is_empty());
    key(&mut app, KeyCode::Esc);
    assert!(app.overlay.is_none());
}

#[test]
fn only_the_last_row_starts_a_session() {
    let mut app = client(&["interactive.start"]);
    let form = NewSession::new(Plane::Interactive, "/src".to_string(), None, None);
    app.overlay = Some(Overlay::New(Box::new(form)));
    key(&mut app, KeyCode::Enter);
    key(&mut app, KeyCode::Down);
    key(&mut app, KeyCode::Enter);
    assert!(app.drain().is_empty());
    assert!(matches!(&app.overlay, Some(Overlay::New(form)) if !form.pending));
}

#[test]
fn a_started_draft_keeps_the_keys_from_the_ledger() {
    let blank = || Ledger { filter: String::new(), filtering: false, selected: 1 };
    let mut ledger = blank();
    assert_eq!(ledger.key(press(KeyCode::Char('j')), false, 4), LedgerKey::Passed);
    assert_eq!((ledger.selected, ledger.filtering), (1, false));

    let mut ledger = blank();
    assert_eq!(ledger.key(press(KeyCode::Char('/')), true, 4), LedgerKey::Taken);
    assert!(ledger.filtering);
}

#[test]
fn a_panel_is_asked_for_once() {
    let mut panel = Loadable { value: Some(1), error: None, pending: false, next_tick: 0 };
    assert!(panel.due(7));
    panel.started();
    assert!(!panel.due(7));
    panel.failed("no".to_string(), 8, 10);
    assert_eq!(panel.value, Some(1));
    assert_eq!((panel.due(17), panel.due(18)), (false, true));
    panel.ok(2, 20, 5);
    assert_eq!((panel.value, panel.error.as_deref()), (Some(2), None));
    assert_eq!((panel.due(24), panel.due(25)), (false, true));
}

#[test]
fn only_the_tab_in_sight_is_asked_for() {
    let mut app = client(&["agents.list", "runtime.status", "interactive.list"]);
    app.tab = Tab::Sessions;
    app.poll();
    let asked: Vec<String> = app.drain().into_iter().map(|call| call.method).collect();
    assert_eq!(asked, vec!["interactive.list"]);
    assert!(!app.agents.rows.pending);
    assert!(!app.status.pending);
}

#[test]
fn a_question_in_flight_is_not_queued_again() {
    let mut queue = Queue::new();
    queue.put(Call::new(Tag::Agents, "agents.list", Json::Null));
    queue.put(Call::new(Tag::Agents, "agents.list", Json::Null));
    assert_eq!(queue.outbound.len(), 1);
    queue.answered(&Tag::Agents);
    queue.put(Call::new(Tag::Agents, "agents.list", Json::Null));
    assert_eq!(queue.outbound.len(), 2);
}

#[test]
fn a_snapshot_names_each_session_once_in_order() {
    let mut cursors = Cursors::new();
    cursors.set(Plane::Coding, "b", 4);
    cursors.set(Plane::Interactive, "z", 9);
    cursors.set(Plane::Coding, "a", 2);
    cursors.set(Plane::Coding, "b", 7);
    let taken = cursors.snapshot();
    let coding: Vec<(&str, u64)> = taken
        .iter()
        .filter(|row| row.0 == Plane::Coding)
        .map(|row| (row.1.as_str(), row.2))
        .collect();
    assert_eq!(taken.len(), 3);
    assert_eq!(coding, vec![("a", 2), ("b", 7)]);
}

#[test]
fn an_example_only_fills_the_draft() {
    let mut app = client(&["interactive.start"]);
    let edit = Edit { action: EditorAction::Edited, draft: Draft::new() };
    app.home_key(false, Some(1), edit, "s-1", "t-1");
    assert_eq!(app.home_draft.text, App::home_examples()[1].1);
    assert!(app.home_draft.text.starts_with("Review the uncommitted changes"));
    assert!(app.drain().is_empty());
}

#[test]
fn interrupting_never_quits() {
    let mut app = client(&["interactive.interrupt", "interactive.subscribe"]);
    app.interrupt();
    assert!(app.quit.is_none() && app.overlay.is_none());
    app.open_session(Plane::Interactive, "s-1");
    app.drain();
    app.interrupt();
    assert!(app.quit.is_none());
    let asked: Vec<String> = app.drain().into_iter().map(|call| call.method).collect();
    assert_eq!(asked, vec!["interactive.interrupt"]);
    app.overlay = Some(Overlay::Help);
    app.interrupt();
    assert!(app.overlay.is_none() && app.quit.is_none());
}

#[test]
fn enter_by_reflex_kills_nothing() {
    let mut app = client(&["interactive.close", "interactive.kill", "interactive.subscribe"]);
    app.tab = Tab::Sessions;
    app.open_session(Plane::Interactive, "s-1");
    app.drain();
    app.open_close_confirm();
    assert_eq!(key(&mut app, KeyCode::Enter), Route::Overlay);
    let asked: Vec<String> = app.drain().into_iter().map(|call| call.method).collect();
    assert_eq!(asked, vec!["interactive.close"]);
}

#[test]
fn escape_abandons_the_leader() {
    let mut app = client(&[]);
    app.leader_until = Some(9);
    let left = app.leader_key(KeyCode::Esc, Some(LeaderVerb::Quit), true, true, "ctrl+x n new");
    assert!(left.is_none());
    assert!(app.leader_until.is_none() && app.overlay.is_none() && app.notice.is_none());
}

#[test]
fn a_chord_is_never_the_ledgers() {
    let mut ledger = Ledger { filter: "x".to_string(), filtering: true, selected: 1 };
    let chord = Press { ctrl: true, ..press(KeyCode::Char('x')) };
    assert_eq!(ledger.key(chord, true, 4), LedgerKey::Passed);
    assert_eq!((ledger.filter.as_str(), ledger.filtering, ledger.selected), ("x", true, 1));
}
