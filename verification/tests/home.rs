use ouroboros_tui::app::{App, Config, Tab};
use ouroboros_tui::keys::leader_hint_text;
use ouroboros_tui::ledger::{Ledger, LedgerKey};
use ouroboros_tui::model::{ApprovalMode, Plane};
use ouroboros_tui::ownership::Mode;
use ouroboros_tui::press::{KeyCode, Press};
use ouroboros_tui::wire::Hello;

fn client(scope: &str, methods: &[&str]) -> App {
    let hello = Hello {
        scope: scope.to_string(),
        methods: methods.iter().map(|method| method.to_string()).collect(),
        ..Hello::default()
    };
    App::new(Mode::Attached, "127.0.0.1:4000".to_string(), hello)
}

fn methods_of(app: &mut App) -> Vec<String> {
    app.drain().into_iter().map(|call| call.method).collect()
}

#[test]
fn the_home_names_the_model_without_its_vendor() {
    let mut app = client("operate", &[]);
    app.config = Config {
        provider: Some("native".to_string()),
        model: Some("openai_codex:gpt".to_string()),
        ..Config::new()
    };
    assert_eq!(app.home_model_label(), "gpt");
    assert!(app.home_requires_chatgpt());

    app.config.model = Some("local".to_string());
    assert_eq!(app.home_model_label(), "local");
    assert!(!app.home_requires_chatgpt());

    app.config.provider = Some("acme".to_string());
    assert_eq!(app.home_model_label(), "acme");
}

#[test]
fn the_home_states_the_policy_in_words() {
    let mut app = client("operate", &[]);
    app.config.provider = Some("acme".to_string());
    assert_eq!(app.home_permission_label(), "Default approvals");
    app.config.approval_mode = Some(ApprovalMode::AutoEdit.as_str().to_string());
    assert_eq!(app.home_permission_label(), "Ask except for file edits");
    app.config.approval_mode = Some(ApprovalMode::AutoApprove.as_str().to_string());
    assert_eq!(app.home_permission_label(), "Approvals off");
    app.config.approval_mode = None;
    app.config.provider = Some("native".to_string());
    assert_eq!(app.home_permission_label(), "Ask before actions");
}

#[test]
fn a_start_is_blocked_for_one_stated_reason() {
    assert!(client("operate", &["interactive.start"]).home_start_blocker().is_none());
    assert_eq!(
        client("operate", &[]).home_start_blocker().as_deref(),
        Some(
            "This runtime does not serve interactive.start. Update it to start a task; /runtime has connection details."
        )
    );
    assert_eq!(
        client("observe", &["interactive.start"]).home_start_blocker().as_deref(),
        Some(
            "This connection has scope `observe` and cannot start tasks. Reconnect with operate access; /runtime has connection details."
        )
    );
}

#[test]
fn what_waits_to_be_taken_is_taken_once() {
    let mut app = client("operate", &[]);
    app.open_url_pending = Some("https://example.org/login".to_string());
    assert_eq!(app.take_open_url().as_deref(), Some("https://example.org/login"));
    assert_eq!(app.take_open_url(), None);

    app.config.provider = Some("acme".to_string());
    app.save_pending = true;
    assert_eq!(app.take_config_save().and_then(|config| config.provider).as_deref(), Some("acme"));
    assert!(app.take_config_save().is_none());
}

#[test]
fn opening_the_home_asks_for_the_sessions() {
    let mut app = client("operate", &["interactive.list", "runtime.status"]);
    app.tab = Tab::Logs;
    app.open_home();
    assert_eq!(app.tab, Tab::Sessions);
    assert_eq!(methods_of(&mut app), vec!["interactive.list"]);

    let mut app = client("operate", &["interactive.list", "runtime.status"]);
    app.machines_open = true;
    app.open_home();
    assert_eq!(methods_of(&mut app), vec!["interactive.list"]);
}

#[test]
fn opening_the_machines_asks_for_the_status() {
    let mut app = client("operate", &["runtime.status"]);
    app.desktop_machines_open(true);
    assert!(app.machines_open);
    assert_eq!(methods_of(&mut app), vec!["runtime.status"]);
    app.desktop_machines_open(false);
    assert!(!app.machines_open);
    assert!(methods_of(&mut app).is_empty());
}

#[test]
fn a_hint_names_the_verbs_of_the_leader() {
    let verbs = vec![
        ("n".to_string(), "new".to_string()),
        ("l".to_string(), "list".to_string()),
    ];
    assert_eq!(leader_hint_text("ctrl+x", &verbs), "ctrl+x n new \u{b7} l list");
}

#[test]
fn approvals_are_set_on_an_open_session_only() {
    let mut app = client("operate", &["interactive.subscribe"]);
    assert_eq!(app.desktop_auto_approve(), None);
    assert_eq!(app.desktop_set_auto_approve(true), Err("no session is open".to_string()));
    app.open_session(Plane::Interactive, "s-1");
    assert_eq!(app.desktop_auto_approve(), Some(false));
    assert_eq!(app.desktop_set_auto_approve(true), Ok(()));
}

#[test]
fn a_row_of_the_ledger_is_fetched_where_it_can_be() {
    let mut app = client("operate", &["interactive.event_detail"]);
    assert!(app.fetch_event_detail(Plane::Interactive, "s-1", 4));
    assert!(!app.fetch_event_detail(Plane::Coding, "s-1", 4));
    assert_eq!(methods_of(&mut app), vec!["interactive.event_detail"]);

    let mut ledger = Ledger { filter: String::new(), filtering: false, selected: 0 };
    let press = Press {
        code: KeyCode::Char('j'),
        ctrl: false,
        shift: false,
        alt: false,
        release: false,
    };
    assert_eq!(app.details_key(&mut ledger, press, 3), LedgerKey::Passed);
    assert_eq!(ledger.selected, 0);
}
