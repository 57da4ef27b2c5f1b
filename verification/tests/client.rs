use ouroboros_tui::answers::{Failure, Reply};
use ouroboros_tui::app::{App, Connection, Notice, NoticeKind, Overlay, Tab};
use ouroboros_tui::devices::Refusal;
use ouroboros_tui::forms::CommandPalette;
use ouroboros_tui::json::{Json, Member};
use ouroboros_tui::keys::{Chord, Hits, Route, Standing};
use ouroboros_tui::ledger::Ledger;
use ouroboros_tui::messages::{Msg, Notification};
use ouroboros_tui::model::Plane;
use ouroboros_tui::ownership::{Mode, Quit};
use ouroboros_tui::press::{KeyCode, Press};
use ouroboros_tui::sessions::Composer;
use ouroboros_tui::stream::Replay;
use ouroboros_tui::tags::{ComposerVerb, Tag};
use ouroboros_tui::wire::{ClientError, ErrorCode, Hello, RpcError};

fn hello(methods: &[&str]) -> Hello {
    Hello {
        scope: "operate".to_string(),
        methods: methods.iter().map(|method| method.to_string()).collect(),
        ..Hello::default()
    }
}

fn client(methods: &[&str]) -> App {
    App::new(Mode::Attached, "127.0.0.1:4000".to_string(), hello(methods))
}

fn no_ledger() -> Ledger {
    Ledger { filter: String::new(), filtering: false, selected: 0 }
}

fn press(code: KeyCode) -> Press {
    Press { code, ctrl: false, shift: false, alt: false, release: false }
}

fn no_hits() -> Hits {
    Hits {
        palette: false,
        quit: false,
        rename: false,
        suspend: false,
        leader: false,
        editor: false,
        verbose: false,
        plan_panel: false,
        cancel: false,
        quit_empty: false,
        help: false,
        settings: false,
        interrupt: false,
        transcript_top: false,
        transcript_bottom: false,
        backtrack: Chord::Unbound,
        quit_bound: true,
    }
}

fn standing() -> Standing {
    Standing {
        turn_running: false,
        ledger: false,
        numbered: false,
        drawn: 0,
        row: None,
        leader_ticks: 8,
        backtrack_ticks: 4,
    }
}

fn key(app: &mut App, code: KeyCode) -> Route {
    app.key(press(code), &no_hits(), &standing()).0
}

fn said(notice: &Option<Notice>) -> &str {
    notice.as_ref().map(|notice| notice.text.as_str()).unwrap_or("")
}

fn methods_of(app: &mut App) -> Vec<String> {
    app.drain().into_iter().map(|call| call.method).collect()
}

#[test]
fn a_release_does_nothing() {
    let mut app = client(&[]);
    let release = Press { release: true, ..press(KeyCode::Char('q')) };

    assert_eq!(app.key(release, &Hits { quit: true, ..no_hits() }, &standing()).0, Route::Ignored);
    assert!(app.overlay.is_none());
}

#[test]
fn an_overlay_keeps_the_keyboard() {
    let mut app = client(&[]);
    app.overlay = Some(Overlay::Help);

    let hits = Hits { quit: true, rename: true, editor: true, ..no_hits() };
    assert_eq!(app.key(press(KeyCode::Char('x')), &hits, &standing()).0, Route::Overlay);
    assert!(matches!(app.overlay, Some(Overlay::Help)));

    assert_eq!(key(&mut app, KeyCode::Esc), Route::Overlay);
    assert!(app.overlay.is_none());
}

#[test]
fn the_palette_opens_and_closes() {
    let mut app = client(&[]);
    let hits = Hits { palette: true, ..no_hits() };

    app.key(press(KeyCode::Char('p')), &hits, &standing());
    assert!(matches!(app.overlay, Some(Overlay::Commands(_))));
    app.key(press(KeyCode::Char('p')), &hits, &standing());
    assert!(app.overlay.is_none());
}

#[test]
fn a_draft_keeps_its_characters() {
    let mut app = client(&[]);
    let mut composer = Composer::new(ComposerVerb::Message);
    composer.editor.hold("hello");
    app.sessions.composer = Some(composer);

    let hits = Hits { help: true, settings: true, ..no_hits() };
    assert_eq!(app.key(press(KeyCode::Char('?')), &hits, &standing()).0, Route::Composer);

    app.sessions.composer = Some(Composer::new(ComposerVerb::Message));
    assert_eq!(app.key(press(KeyCode::Char('?')), &hits, &standing()).0, Route::Help);
}

#[test]
fn a_leader_key_waits_for_its_verb() {
    let mut app = client(&[]);
    let hits = Hits { leader: true, ..no_hits() };

    assert_eq!(app.key(press(KeyCode::Char('x')), &hits, &standing()).0, Route::ArmLeader);
    assert_eq!(app.leader_until, Some(8));
    assert_eq!(key(&mut app, KeyCode::Char('z')), Route::Leader);
    assert_eq!(app.leader_until, None);

    let left = app.leader_key(KeyCode::Char('z'), None, false, false, "ctrl+x n new");
    assert!(left.is_none());
    assert_eq!(said(&app.notice), "ctrl+x n new");
}

#[test]
fn a_chord_of_two_keys_goes_back_in_time_only() {
    let mut app = client(&["interactive.subscribe"]);
    app.open_session(Plane::Interactive, "s-1");
    let chord = Hits { backtrack: Chord::Two { first: true, second: true }, ..no_hits() };

    let (first, none) = app.key(press(KeyCode::Esc), &chord, &standing());
    assert_ne!(first, Route::Backtrack);
    assert!(none.is_none());
    let (second, key) = app.key(press(KeyCode::Esc), &chord, &standing());
    assert_eq!(second, Route::Backtrack);
    assert_eq!(key.map(|key| key.id), Some("s-1".to_string()));

    app.open_session(Plane::Interactive, "s-1");
    app.key(press(KeyCode::Esc), &chord, &standing());
    for _ in 0..5 {
        app.tick();
    }
    assert_ne!(app.key(press(KeyCode::Esc), &chord, &standing()).0, Route::Backtrack);
}

#[test]
fn digits_select_tabs_and_the_rest_fall_through() {
    let mut app = client(&[]);
    app.tab = Tab::Dashboard;

    key(&mut app, KeyCode::Char('7'));
    assert_eq!(app.tab, Tab::Logs);
    key(&mut app, KeyCode::Char('8'));
    assert_eq!(app.tab, Tab::Logs);
    key(&mut app, KeyCode::Tab);
    assert_eq!(app.tab, Tab::Dashboard);
    key(&mut app, KeyCode::BackTab);
    assert_eq!(app.tab, Tab::Logs);
}

#[test]
fn the_logs_scroll_up_and_back() {
    let mut app = client(&[]);
    app.tab = Tab::Logs;

    key(&mut app, KeyCode::PageUp);
    assert_eq!(app.log_scroll, 10);
    key(&mut app, KeyCode::Char('j'));
    assert_eq!(app.log_scroll, 9);
    key(&mut app, KeyCode::PageDown);
    assert_eq!(app.log_scroll, 0);
}

#[test]
fn quitting_an_attached_client_offers_to_disconnect() {
    let mut app = client(&[]);
    app.open_quit();

    assert_eq!(key(&mut app, KeyCode::Enter), Route::Overlay);
    assert_eq!(app.quit, Some(Quit::Disconnect));
    assert!(app.overlay.is_none());
}

#[test]
fn quitting_a_spawned_runtime_offers_both_ways() {
    let mut app = App::new(
        Mode::Spawned { pid: 41 },
        String::new(),
        hello(&["runtime.shutdown"]),
    );
    app.open_quit();
    match &app.overlay {
        Some(Overlay::Quit { options, choice: 0 }) => {
            assert_eq!(options.len(), 2);
            assert!(options[0].0.contains("pid 41"), "{}", options[0].0);
            assert!(options[1].0.contains("runtime.shutdown, then SIGTERM"), "{}", options[1].0);
        }
        other => panic!("{other:?}"),
    }
    key(&mut app, KeyCode::Down);
    key(&mut app, KeyCode::Down);
    key(&mut app, KeyCode::Enter);
    assert_eq!(app.quit, Some(Quit::Shutdown));
}

#[test]
fn a_query_moves_the_palette_to_what_it_could_mean() {
    let mut app = client(&[]);
    app.overlay = Some(Overlay::Commands(CommandPalette::new()));
    for c in "logs".chars() {
        key(&mut app, KeyCode::Char(c));
    }
    key(&mut app, KeyCode::Enter);

    assert_eq!(app.tab, Tab::Logs);
    assert!(app.overlay.is_none());
}

#[test]
fn a_tick_asks_for_what_is_due_and_no_more() {
    let mut app = client(&["interactive.list", "coding.list"]);
    app.tick();
    let asked = methods_of(&mut app);
    assert!(asked.contains(&"interactive.list".to_string()), "{asked:?}");
    assert!(asked.contains(&"coding.list".to_string()), "{asked:?}");

    app.tick();
    assert!(methods_of(&mut app).is_empty());
}

#[test]
fn a_notice_goes_when_its_time_has_come() {
    let mut app = client(&[]);
    app.inform("hello".to_string(), NoticeKind::Info);
    for _ in 0..19 {
        app.tick();
    }
    assert_eq!(said(&app.notice), "hello");
    app.tick();
    assert!(app.notice.is_none());
}

#[test]
fn a_lost_connection_is_known_and_a_new_one_is_said() {
    let mut app = client(&[]);
    app.apply(&mut no_ledger(), Msg::DaemonExited("signal 9".to_string()));
    match &app.connection {
        Connection::Lost { reason } => assert_eq!(reason, "the runtime exited: signal 9"),
        other => panic!("{other:?}"),
    }
    app.apply(&mut no_ledger(), Msg::Reconnected(Box::new(hello(&["interactive.list"]))));
    assert!(matches!(app.connection, Connection::Live));
    assert_eq!(said(&app.notice), "the connection was re-established; resubscribing");
}

#[test]
fn an_unknown_notification_is_said() {
    let mut app = client(&[]);
    app.apply(&mut no_ledger(), Msg::Notification(Notification {
        method: "stream.rewound".to_string(),
        id: String::new(),
        plane: None,
        event: None,
        dropped: 0,
        last_sequence: 0,
        status: String::new(),
    }));
    assert_eq!(
        said(&app.notice),
        "the gateway sent a notification this build does not know: stream.rewound"
    );
}

#[test]
fn opening_a_session_subscribes_once() {
    let mut app = client(&["interactive.subscribe", "interactive.replay"]);
    app.open_session(Plane::Interactive, "s-1");
    app.open_session(Plane::Interactive, "s-1");

    assert_eq!(methods_of(&mut app), vec!["interactive.subscribe"]);
    assert_eq!(app.sessions.watches.len(), 1);
}

#[test]
fn a_repair_during_a_repair_waits_for_it() {
    let mut app = client(&["interactive.subscribe", "interactive.replay"]);
    app.open_session(Plane::Interactive, "s-1");
    methods_of(&mut app);

    app.lagged(Some(Plane::Interactive), "s-1", 3, 9);
    assert!(methods_of(&mut app).is_empty());
    assert!(app.sessions.watches[0].resync_again);
    assert_eq!(
        said(&app.notice),
        "the gateway dropped 3 event frames for s-1; replaying from 0"
    );

    let tag = Tag::Resync {
        plane: Plane::Interactive,
        id: "s-1".to_string(),
        cursor: 0,
        subscribe: true,
    };
    app.answer(
        tag,
        Ok(Reply::Replay(Replay::Events { events: Vec::new(), refused: 0 })),
    );
    assert_eq!(methods_of(&mut app), vec!["interactive.replay"]);
}

#[test]
fn the_devices_view_reads_what_is_there_now() {
    let mut app = client(&["fleet.devices", "fleet.status"]);
    assert_eq!(
        app.devices_hint("ctrl+d").as_deref(),
        Some("devices   ctrl+d · the machines this runtime can see")
    );
    app.open_devices();
    assert_eq!(methods_of(&mut app), vec!["fleet.devices"]);

    let reply = Json::Object(vec![Member {
        name: "devices".to_string(),
        value: Json::List(Vec::new()),
    }]);
    app.answer(Tag::Inventory, Ok(Reply::Plain(reply)));
    assert!(app.devices.inventory.value.is_some());
    assert!(app.devices.refusal.is_none());

    app.poll_devices();
    assert!(methods_of(&mut app).is_empty(), "a list is not read again by itself");
    key(&mut app, KeyCode::Char('r'));
    assert_eq!(methods_of(&mut app), vec!["fleet.devices"]);
    app.open_devices();
    assert!(app.overlay.is_none());
}

#[test]
fn a_refused_inventory_asks_for_the_status_of_the_fleet() {
    let mut app = client(&["fleet.devices", "fleet.status"]);
    app.open_devices();
    methods_of(&mut app);

    let error = ClientError::Rpc(RpcError {
        code: ErrorCode::ScopeDenied,
        message: "no".to_string(),
        data: None,
    });
    app.answer(Tag::Inventory, Err(failure(error)));
    assert_eq!(app.devices.refusal, Some(Refusal::NotAdministrator));
    assert_eq!(methods_of(&mut app), vec!["fleet.status"]);

    let mut absent = client(&["fleet.status"]);
    absent.open_devices();
    assert_eq!(absent.devices.refusal, Some(Refusal::CapabilityAbsent));
    assert_eq!(methods_of(&mut absent), vec!["fleet.status"]);
}

fn failure(error: ClientError) -> Failure {
    Failure { error, refusal: String::new(), outcome_unknown: false, busy: false, native: None, pruned: None }
}

#[test]
fn a_search_takes_every_key() {
    let mut app = client(&["fleet.devices"]);
    app.open_devices();
    app.devices.searching = true;
    for c in "rq".chars() {
        key(&mut app, KeyCode::Char(c));
    }
    assert_eq!(app.devices.query, "rq");
    app.paste("a b\nc");
    assert_eq!(app.devices.query, "rqa b c");
    key(&mut app, KeyCode::Backspace);
    assert_eq!(app.devices.query, "rqa b ");
    key(&mut app, KeyCode::Esc);
    assert!(!app.devices.searching && app.devices.query.is_empty());
    assert!(app.overlay.is_some());
}
