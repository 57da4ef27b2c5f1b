use ouroboros_tui::answers::{Failure, Reply, TurnReply};
use ouroboros_tui::app::{App, Overlay, Tab};
use ouroboros_tui::forms::{AccountDialog, AccountFlow};
use ouroboros_tui::json::{Json, Member};
use ouroboros_tui::keys::{Chord, Hits, LeaderVerb, Route, Standing};
use ouroboros_tui::ledger::{Ledger, LedgerKey};
use ouroboros_tui::messages::Msg;
use ouroboros_tui::model::Plane;
use ouroboros_tui::ownership::Mode;
use ouroboros_tui::press::{KeyCode, Press};
use ouroboros_tui::sessions::{Composer, Draft};
use ouroboros_tui::submit::{Edit, EditorAction};
use ouroboros_tui::tags::{Call, ComposerVerb, Tag};
use ouroboros_tui::typing::{Given, Typed};
use ouroboros_tui::watch::{Event, EventType};
use ouroboros_tui::wire::{ClientError, ErrorCode, Hello, RpcError};

fn hello(methods: &[&str]) -> Hello {
    Hello {
        scope: "operate".to_string(),
        methods: methods.iter().map(|method| method.to_string()).collect(),
        ..Hello::default()
    }
}

fn client(methods: &[&str]) -> App {
    App::new(Mode::Attached, "127.0.0.1:4000".to_string(), hello(methods))
}

fn failure(error: ClientError) -> Failure {
    Failure {
        error,
        refusal: "no".to_string(),
        outcome_unknown: false,
        busy: false,
        native: None,
        pruned: None,
    }
}

fn refusal() -> Failure {
    failure(ClientError::Rpc(RpcError {
        code: ErrorCode::InvalidParams,
        message: "no".to_string(),
        data: None,
    }))
}

fn one(app: &mut App) -> Call {
    let mut calls = app.drain();
    assert_eq!(calls.len(), 1, "{calls:?}");
    calls.pop().unwrap()
}

fn ready(prompt: &str) -> App {
    let mut app = client(&["interactive.start"]);
    app.config.provider = Some("acme".to_string());
    assert_eq!(app.desktop_quick_start(prompt, "s-1", "t-1"), Ok(()));
    app
}

#[test]
fn a_start_nobody_can_tell_of_is_made_again_under_its_id() {
    let mut app = ready("fix it");
    let call = one(&mut app);
    app.answer(call.tag, Err(failure(ClientError::Timeout)));
    assert!(app.home_reconciling());
    assert_eq!(app.desktop_take_restored_draft(), None);

    app.start_failed(&Some("other".to_string()), false, "no".to_string());
    assert!(app.home_reconciling());
    assert_eq!(app.desktop_quick_start("fix it", "s-2", "t-2"), Ok(()));
    let again = one(&mut app);
    assert_eq!(again.params.get_str("id"), Some("s-1"));
    assert_eq!(app.first_message.as_ref().unwrap().turn_id, "t-1");
}

#[test]
fn a_refused_start_gives_its_prompt_back() {
    let mut app = ready("fix it");
    let call = one(&mut app);
    app.answer(call.tag, Err(refusal()));
    assert!(app.first_message.is_none());
    assert_eq!(app.desktop_take_restored_draft().as_deref(), Some("fix it"));
}

#[test]
fn an_open_panel_of_machines_is_polled_from_every_tab() {
    let mut app = client(&["runtime.status"]);
    app.tab = Tab::Logs;
    app.poll();
    assert!(app.drain().is_empty());
    app.machines_open = true;
    app.poll();
    assert_eq!(one(&mut app).method, "runtime.status");
    app.poll();
    assert!(app.drain().is_empty());
}

fn writing(text: &str) -> App {
    let mut app = client(&[
        "interactive.subscribe",
        "interactive.send_message",
        "interactive.follow_up",
        "interactive.replay",
        "interactive.list",
    ]);
    app.open_session(Plane::Interactive, "s-1");
    let mut composer = Composer::new(ComposerVerb::Message);
    composer.editor.hold(text);
    app.sessions.composer = Some(composer);
    app.drain();
    app
}

fn held(app: &App) -> &str {
    &app.sessions.composer.as_ref().expect("a composer").editor.text
}

#[test]
fn a_window_does_not_replace_another_draft() {
    let mut app = writing("half a thought");
    assert_eq!(
        app.desktop_submit_message("hello", "t-9"),
        Err(
            "this session has a restored terminal draft; submit or clear it in the TUI before replacing it from desktop"
                .to_string()
        )
    );
    assert_eq!(held(&app), "half a thought");
    assert!(app.drain().is_empty());
    assert_eq!(app.desktop_submit_message("half a thought", "t-9"), Ok(()));
    assert_eq!(one(&mut app).params.get_str("input"), Some("half a thought"));
}

#[test]
fn a_turn_nobody_can_tell_of_comes_back_and_goes_again_as_it_was() {
    let mut app = writing("hello");
    app.submit_composer("t-1");
    assert_eq!(held(&app), "");
    let call = one(&mut app);
    assert!(matches!(
        &call.tag,
        Tag::ComposerAction { reconciling: false, submission_sequence: 1, .. }
    ));
    app.answer(call.tag, Err(failure(ClientError::Timeout)));
    assert_eq!(held(&app), "hello");

    app.submit_composer("t-2");
    let again = one(&mut app);
    assert_eq!(again.params.get_str("turn_id"), Some("t-1"));
    assert!(matches!(&again.tag, Tag::ComposerAction { reconciling: true, .. }));
    let reply = Reply::Turn {
        reply: TurnReply::Accepted,
        busy: false,
        diagnostic: String::new(),
    };
    app.answer(again.tag, Ok(reply));
    assert_eq!(held(&app), "");
}

#[test]
fn a_refused_turn_comes_back_under_a_turn_of_its_own() {
    let mut app = writing("hello");
    app.submit_composer("t-1");
    let call = one(&mut app);
    app.answer(call.tag, Err(refusal()));
    assert_eq!(held(&app), "hello");
    app.submit_composer("t-2");
    assert_eq!(one(&mut app).params.get_str("turn_id"), Some("t-2"));
}

#[test]
fn a_newer_draft_waits_for_the_turn_before_it() {
    let mut app = writing("first");
    app.submit_composer("t-1");
    let call = one(&mut app);
    app.sessions.composer.as_mut().unwrap().editor.hold("second");
    app.answer(call.tag, Err(failure(ClientError::Timeout)));
    assert_eq!(held(&app), "second");
    assert_eq!(app.sessions.pending_reconciliations.len(), 1);

    app.submit_composer("t-2");
    let again = one(&mut app);
    assert_eq!(again.params.get_str("turn_id"), Some("t-1"));
    assert_eq!(again.params.get_str("input"), Some("first"));
    let reply = Reply::Turn {
        reply: TurnReply::Accepted,
        busy: false,
        diagnostic: String::new(),
    };
    app.answer(again.tag, Ok(reply));
    assert!(app.sessions.pending_reconciliations.is_empty());
    app.submit_composer("t-3");
    assert_eq!(one(&mut app).params.get_str("input"), Some("second"));
}

#[test]
fn a_text_saved_aside_is_there_when_its_composer_opens() {
    let mut app = writing("hello");
    app.submit_composer("t-1");
    let call = one(&mut app);
    app.sessions.composer = None;
    app.sessions.open = None;
    app.answer(call.tag, Err(refusal()));
    assert_eq!(app.sessions.composer_drafts.len(), 1);
    app.open_session(Plane::Interactive, "s-1");
    app.compose(ComposerVerb::Message);
    assert_eq!(held(&app), "hello");
    assert!(app.sessions.composer_drafts.is_empty());
}

#[test]
fn a_pruned_cursor_raises_the_floor() {
    let mut app = client(&["interactive.subscribe", "interactive.replay"]);
    app.open_session(Plane::Interactive, "s-1");
    let call = one(&mut app);
    let pruned = Failure { pruned: Some(40), ..refusal() };
    app.answer(call.tag, Err(pruned));
    let at = app.sessions.find(Plane::Interactive, "s-1").unwrap();
    assert_eq!(app.sessions.watches[at].cursor(), 40);
    app.sessions.watches[at]
        .absorb(vec![Event { sequence: 41, kind: EventType::Other, request: None }]);
    assert_eq!(app.sessions.watches[at].cursor(), 41);
}

#[test]
fn the_devices_are_read_again_when_the_runtime_is_back() {
    let mut app = client(&["fleet.devices"]);
    app.open_devices();
    let call = one(&mut app);
    let empty = Json::Object(vec![Member {
        name: "devices".to_string(),
        value: Json::List(Vec::new()),
    }]);
    app.answer(call.tag, Ok(Reply::Plain(empty)));
    app.apply(&mut no_ledger(), Msg::Reconnected(Box::new(hello(&["fleet.devices"]))));
    assert_eq!(one(&mut app).method, "fleet.devices");
}

#[test]
fn a_window_stops_the_turn_whatever_is_open() {
    let mut app = client(&["interactive.subscribe", "interactive.interrupt"]);
    app.open_session(Plane::Interactive, "s-1");
    app.drain();
    app.overlay = Some(Overlay::Help);
    app.desktop_interrupt();
    assert_eq!(one(&mut app).method, "interactive.interrupt");
    assert!(matches!(app.overlay, Some(Overlay::Help)));
    app.interrupt();
    assert!(app.drain().is_empty());
    assert!(app.overlay.is_none());
}

#[test]
fn an_account_that_is_not_served_is_asked_for_at_one_pace() {
    let mut app = client(&[]);
    app.poll();
    let quiet = app.account.next_tick;
    let mut signing_in = client(&[]);
    let dialog = AccountDialog::new(AccountFlow::Browser);
    signing_in.overlay = Some(Overlay::Account(Box::new(dialog)));
    signing_in.poll();
    assert_eq!((quiet, signing_in.account.next_tick), (120, 120));
    assert!(app.account.error.is_some());
}

#[test]
fn a_refused_first_message_goes_again_under_a_turn_of_its_own() {
    let mut app = ready("fix it");
    app.hello.methods.push("interactive.send_message".to_string());
    let start = one(&mut app);
    let started = Reply::Started { id: Some("s-1".to_string()), written: String::new() };
    app.answer(start.tag, Ok(started));
    let first = app.drain().pop().expect("the first message");
    assert_eq!(first.params.get_str("turn_id"), Some("t-1"));
    app.answer(first.tag, Err(refusal()));
    assert_eq!(held(&app), "fix it");
    app.submit_composer("t-2");
    assert_eq!(one(&mut app).params.get_str("turn_id"), Some("t-2"));
}

// ----- whole keys -------------------------------------------------------------------

fn press(code: KeyCode) -> Press {
    Press { code, ctrl: false, shift: false, alt: false, release: false }
}

fn given(text: &str, action: EditorAction) -> Given {
    let mut draft = Draft::new();
    draft.hold(text);
    Given {
        verb: None,
        hint: "ctrl+x n new".to_string(),
        details_bound: false,
        example: None,
        edit: Edit { action, draft },
        rows: 3,
        excerpt: Some(7),
        session_id: "s-9".to_string(),
        turn_id: "t-9".to_string(),
    }
}

fn take(app: &mut App, ledger: &mut Ledger, code: KeyCode, given: Given) -> Typed {
    let hits = Hits {
        palette: false,
        quit: false,
        rename: false,
        suspend: false,
        leader: false,
        editor: false,
        verbose: false,
        plan_panel: false,
        cancel: false,
        quit_empty: false,
        help: false,
        settings: false,
        interrupt: false,
        transcript_top: false,
        transcript_bottom: false,
        backtrack: Chord::Unbound,
        quit_bound: true,
    };
    let standing = Standing {
        turn_running: false,
        ledger: false,
        numbered: false,
        drawn: 0,
        row: None,
        leader_ticks: 8,
        backtrack_ticks: 4,
    };
    app.take_key(ledger, press(code), &hits, standing, given)
}

fn no_ledger() -> Ledger {
    Ledger { filter: String::new(), filtering: false, selected: 0 }
}

#[test]
fn a_press_is_taken_to_its_end() {
    let mut app = writing("hello");
    let typed =
        take(&mut app, &mut no_ledger(), KeyCode::Enter, given("hello", EditorAction::Submit));
    assert_eq!(typed.route, Route::Composer);
    assert_eq!(one(&mut app).params.get_str("turn_id"), Some("t-9"));

    let mut app = client(&[]);
    app.leader_until = Some(9);
    let verb = Given { verb: Some(LeaderVerb::Help), ..given("", EditorAction::Edited) };
    let typed = take(&mut app, &mut no_ledger(), KeyCode::Char('h'), verb);
    assert_eq!((typed.route, typed.verb), (Route::Leader, None));
    assert!(matches!(app.overlay, Some(Overlay::Help)));

    let mut app = client(&[]);
    let typed =
        take(&mut app, &mut no_ledger(), KeyCode::Char('h'), given("h", EditorAction::Edited));
    assert_eq!(typed.route, Route::Home);
    assert_eq!(app.home_draft.text, "h");
}

#[test]
fn a_row_of_the_ledger_opens_and_fetches_its_event() {
    let mut app = client(&["interactive.subscribe", "interactive.event_detail"]);
    app.open_session(Plane::Interactive, "s-1");
    app.drain();
    app.sessions.show_event_details = true;
    let mut ledger = no_ledger();
    let typed = take(&mut app, &mut ledger, KeyCode::Right, given("", EditorAction::Edited));
    assert_eq!((typed.route, typed.ledger), (Route::Ledger, LedgerKey::Expand));
    let call = one(&mut app);
    assert_eq!(call.method, "interactive.event_detail");
    assert_eq!(call.params.write(), r#"{"id":"s-1","sequence":7}"#);
    let typed = take(&mut app, &mut ledger, KeyCode::Down, given("", EditorAction::Edited));
    assert_eq!((typed.ledger, ledger.selected), (LedgerKey::Taken, 1));
}

// ----- documents --------------------------------------------------------------------

#[test]
fn a_document_is_written_on_one_line() {
    let member = |name: &str, value: Json| Member { name: name.to_string(), value };
    assert_eq!(Json::Null.write(), "null");
    assert_eq!(Json::Negative(-7).write(), "-7");
    assert_eq!(Json::Decimal("1.5".to_string()).write(), "1.5");
    assert_eq!(Json::Text("a\"\n\\".to_string()).write(), r#""a\"\n\\""#);
    let list = Json::List(vec![Json::Bool(true), Json::Unsigned(3)]);
    let document = Json::Object(vec![member("b", list), member("a", Json::Null)]);
    assert_eq!(document.write(), r#"{"a":null,"b":[true,3]}"#);
}

#[test]
fn plain_words_are_drawn_as_they_are() {
    assert_eq!(ouroboros_tui::fleet::scrub("my old laptop", 14), "my old laptop");
    assert_eq!(ouroboros_tui::fleet::scrub("my old laptop", 13), "my old lapto\u{2026}");
    assert_eq!(ouroboros_tui::fleet::column("pi", 4), "pi    ");
    assert_eq!(ouroboros_tui::fleet::column("pi", 0), "\u{2026} ");
}
