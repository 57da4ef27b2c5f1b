use ouroboros_tui::app::{App, Config, NoticeKind, Overlay, PendingFirstMessage};
use ouroboros_tui::desktop::{ApprovalDetail, ApprovalRequest};
use ouroboros_tui::facts::Activity;
use ouroboros_tui::forms::{
    approval_at, approval_index, clamp, provider_choices, wrap, NewSession, ProviderChoice,
    ProviderEntry, StartRefusal, StartRequest,
};
use ouroboros_tui::images::{
    mark_interrupted, persistable, Attachment, AttachmentKind, ImageDrafts, Kept, Recovery,
    TurnInput,
};
use ouroboros_tui::json::Json;
use ouroboros_tui::model::{
    ApprovalDecision, ApprovalMode, ApprovalScope, Capabilities, Capability, Effort, PlanChoice,
    Plane, SessionInfo, SessionStatus, SessionUsage,
};
use ouroboros_tui::ownership::Mode;
use ouroboros_tui::panel::Loadable;
use ouroboros_tui::sessions::Composer;
use ouroboros_tui::submit::{format_id, new_turn_id};
use ouroboros_tui::tags::ComposerVerb;
use ouroboros_tui::watch::{Event, EventType, Watch};
use ouroboros_tui::window::TriageRow;
use ouroboros_tui::wire::Hello;

fn hello(methods: &[&str]) -> Hello {
    Hello {
        scope: "operate".to_string(),
        node: "core@host".to_string(),
        methods: methods.iter().map(|method| method.to_string()).collect(),
        ..Hello::default()
    }
}

fn client(methods: &[&str]) -> App {
    App::new(Mode::Attached, "127.0.0.1:4000".to_string(), hello(methods))
}

fn session(id: &str, status: &str, terminal: bool) -> SessionInfo {
    SessionInfo {
        plane: Plane::Interactive,
        id: id.to_string(),
        title: Some("fix the parser".to_string()),
        status: SessionStatus { word: status.to_string(), terminal },
        provider: Some("native".to_string()),
        model: Some("openai_codex:gpt".to_string()),
        workspace: Some("/src".to_string()),
        node: None,
        updated_at: None,
        approval_mode: None,
        sandbox_mode: Some("read_only".to_string()),
        reasoning_effort: Some(Effort::Low),
        plan: false,
        last_known: false,
        capabilities: Capabilities {
            interrupt: Capability::Yes,
            dynamic_configuration: Capability::Yes,
        },
        usage: Some(SessionUsage {
            input_tokens: Some(7),
            output_tokens: None,
            cache_read_tokens: None,
            cache_creation_tokens: None,
            total_tokens: Some(9),
            turns_with_usage: None,
            context_window: None,
            cost_usd: Some("0.25".to_string()),
        }),
    }
}

fn list(app: &mut App, rows: Vec<SessionInfo>) {
    app.sessions.interactive =
        Loadable { value: Some(rows), error: None, pending: false, next_tick: 0 };
}

fn event(sequence: u64, kind: EventType) -> Event {
    Event { sequence, kind, request: None }
}

fn asks(sequence: u64, request_id: &str) -> Event {
    Event {
        sequence,
        kind: EventType::ApprovalRequested,
        request: Some(ApprovalRequest {
            request_id: request_id.to_string(),
            subject: "run ls".to_string(),
            question: false,
            detail: ApprovalDetail {
                kind: None,
                title: None,
                reason: None,
                command: Some("ls".to_string()),
                cwd: None,
                locations: Vec::new(),
                suggested_rule: None,
                diff: None,
                diff_excerpted: false,
                edits: Vec::new(),
                plan: None,
                options: Vec::new(),
                subagent: None,
            },
        }),
    }
}

fn methods_of(app: &mut App) -> Vec<String> {
    app.drain().into_iter().map(|call| call.method).collect()
}

// ----- the transcript ---------------------------------------------------------------

#[test]
fn a_cursor_ends_the_unbroken_run() {
    let mut watch = Watch::new(Plane::Interactive, "s".to_string());
    watch.absorb(vec![
        event(2, EventType::Other),
        event(1, EventType::Other),
        event(5, EventType::Other),
        event(2, EventType::Other),
    ]);

    assert_eq!(watch.cursor(), 2);
    assert_eq!(watch.newest(), 5);
    assert!(watch.has_gap());

    watch.raise_floor(4);
    assert_eq!(watch.cursor(), 5);
    assert!(!watch.has_gap());
}

#[test]
fn an_approval_is_claimed_once() {
    let mut watch = Watch::new(Plane::Interactive, "s".to_string());
    watch.absorb(vec![asks(1, "r-1")]);

    assert_eq!(watch.unanswered_approvals(), 1);
    assert!(watch.mark_approval_response("r-1"));
    assert!(!watch.mark_approval_response("r-1"));
    assert_eq!(watch.unanswered_approvals(), 0);
    watch.retry_approval_response("r-1");
    assert_eq!(watch.unanswered_approvals(), 1);
}

#[test]
fn scrolling_up_stops_at_what_was_drawn_and_down_follows_again() {
    let mut watch = Watch::new(Plane::Interactive, "s".to_string());
    watch.max_scroll = 6;
    watch.scroll_by(-10);
    assert_eq!((watch.scroll, watch.follow), (6, false));
    watch.scroll_by(4);
    assert_eq!((watch.scroll, watch.follow), (2, false));
    watch.scroll_by(4);
    assert_eq!((watch.scroll, watch.follow), (0, true));
}

// ----- a window's controls ----------------------------------------------------------

#[test]
fn a_stale_button_answers_nothing() {
    let mut app = client(&["interactive.subscribe", "interactive.respond_approval"]);
    assert_eq!(
        app.desktop_respond_approval("r-1", ApprovalDecision::Approve, ApprovalScope::Once),
        Err("no session is open".to_string())
    );
    app.open_session(Plane::Interactive, "s-1");
    methods_of(&mut app);
    assert_eq!(
        app.desktop_respond_approval("r-1", ApprovalDecision::Approve, ApprovalScope::Once),
        Err("this session is not waiting on approval".to_string())
    );
    app.event(Plane::Interactive, "s-1", Some(asks(1, "r-2")));
    assert_eq!(
        app.desktop_respond_approval("r-1", ApprovalDecision::Approve, ApprovalScope::Once),
        Err("the approval changed; review the new request before answering".to_string())
    );
    assert!(methods_of(&mut app).is_empty());

    let card = app.desktop_approval().expect("a card");
    assert_eq!(card.request_id, "r-2");
    assert_eq!(card.choices.len(), 4);
    assert_eq!(card.choices[0].label, "Allow once");

    assert_eq!(
        app.desktop_respond_approval("r-2", ApprovalDecision::Deny, ApprovalScope::Session),
        Ok(())
    );
    assert_eq!(methods_of(&mut app), vec!["interactive.respond_approval"]);
    assert_eq!(
        app.desktop_respond_plan(
            "r-2",
            &PlanChoice {
                word: "build".to_string(),
                decision: ApprovalDecision::Approve,
                scope: ApprovalScope::Once,
            }
        ),
        Err("this session is not waiting on a plan decision".to_string())
    );
}

#[test]
fn a_message_is_refused_before_it_is_sent() {
    let mut app = client(&["interactive.subscribe", "interactive.send_message"]);
    assert_eq!(
        app.desktop_submit_message("  \n", "t-1"),
        Err("write a message before sending".to_string())
    );
    assert_eq!(
        app.desktop_submit_message("hello", "t-1"),
        Err("open an interactive session before sending".to_string())
    );
    app.open_session(Plane::Coding, "c-1");
    assert_eq!(
        app.desktop_submit_message("hello", "t-1"),
        Err("c-1 is a coding task and does not accept follow-up messages".to_string())
    );
    list(&mut app, vec![session("s-1", "idle", false)]);
    app.open_session(Plane::Interactive, "s-1");
    assert_eq!(
        app.desktop_submit_message("hello", "t-1"),
        Err("connect ChatGPT before sending to this session".to_string())
    );
    app.sessions.interactive.value.as_mut().unwrap()[0].model = None;
    methods_of(&mut app);
    assert_eq!(app.desktop_submit_message("hello  ", "t-1"), Ok(()));
    assert_eq!(methods_of(&mut app), vec!["interactive.send_message"]);
}

#[test]
fn a_name_is_checked_before_it_is_given() {
    let mut app = client(&["interactive.rename"]);
    list(&mut app, vec![session("s-1", "idle", false)]);
    let rename = |app: &mut App, title: &str| {
        app.desktop_rename_session(Plane::Interactive, "s-1", title)
    };

    assert_eq!(rename(&mut app, "  "), Err("enter a session name".to_string()));
    assert_eq!(
        rename(&mut app, &"x".repeat(121)),
        Err("a session name can be at most 120 characters".to_string())
    );
    assert_eq!(
        rename(&mut app, "a\u{7}b"),
        Err("a session name cannot contain control characters".to_string())
    );
    assert_eq!(
        app.desktop_rename_session(Plane::Coding, "s-1", "x"),
        Err("coding tasks use their objective as their name".to_string())
    );
    assert_eq!(
        app.desktop_rename_session(Plane::Interactive, "s-9", "x"),
        Err("s-9 is no longer in the session list".to_string())
    );
    assert_eq!(rename(&mut app, &"é".repeat(120)), Ok(()));
    assert_eq!(methods_of(&mut app), vec!["interactive.rename"]);
}

#[test]
fn a_row_offers_what_can_be_done() {
    let mut app = client(&["interactive.delete"]);
    let (running, done) = (session("s-1", "running", false), session("s-2", "done", true));
    let rows = vec![
        TriageRow { session: &running, group: 0, depth: 0 },
        TriageRow { session: &done, group: 2, depth: 1 },
    ];
    let shown = app.desktop_sessions(&rows);
    assert!(!shown[0].can_delete && !shown[0].can_rename);
    assert!(shown[1].can_delete);
    assert_eq!((shown[1].triage, shown[1].depth), (2, 1));

    list(&mut app, vec![running.clone(), done.clone()]);
    assert_eq!(
        app.desktop_delete_session(Plane::Interactive, "s-1"),
        Err("finish or stop this session before deleting it".to_string())
    );
    assert_eq!(app.desktop_delete_session(Plane::Interactive, "s-2"), Ok(()));
    assert_eq!(methods_of(&mut app), vec!["interactive.delete"]);
}

#[test]
fn a_quick_start_is_made_again_only_as_it_was() {
    let mut app = client(&["interactive.start"]);
    app.config = Config { provider: Some("other".to_string()), ..Config::new() };
    assert!(app.desktop_quick_start_context().ready);
    assert_eq!(
        app.desktop_quick_start(" ", "s-1", "t-1"),
        Err("type what you want the agent to do".to_string())
    );
    assert_eq!(app.desktop_quick_start("fix it", "s-1", "t-1"), Ok(()));
    assert!(app.desktop_quick_start_context().pending);
    assert_eq!(
        app.desktop_quick_start("fix it", "s-2", "t-2"),
        Err("a session start is already in flight".to_string())
    );

    app.home_pending = false;
    if let Some(message) = app.first_message.as_mut() {
        message.start_outcome_unknown = true;
    }
    assert_eq!(
        app.desktop_quick_start("something else", "s-2", "t-2"),
        Err(
            "start s-1 may already exist; send that same prompt again to reconcile its session id before changing it"
                .to_string()
        )
    );
    app.drain();
    assert_eq!(app.desktop_quick_start("fix it", "s-2", "t-2"), Ok(()));
    assert_eq!(app.first_message.as_ref().unwrap().start.id, "s-1");
}

#[test]
fn a_window_cannot_start_what_the_gateway_refuses() {
    let mut app = client(&["interactive.start"]);
    assert_eq!(
        app.desktop_start_session("  ", None, "", None, None, "s-1"),
        Err(StartRefusal::NoProvider.message())
    );
    assert_eq!(
        app.desktop_start_session(
            "native",
            Some("openai_codex:gpt".to_string()),
            "",
            None,
            None,
            "s-1"
        ),
        Err("connect ChatGPT before starting this model".to_string())
    );
    assert_eq!(
        app.desktop_start_session("acme", None, "/src", None, Some(Effort::High), "s-1"),
        Ok("s-1".to_string())
    );
    let call = app.drain().pop().expect("a call");
    assert_eq!(call.method, "interactive.start");
    assert_eq!(call.params.get_str("reasoning_effort"), Some("high"));
    assert_eq!(call.params.get_str("model"), None);
}

#[test]
fn an_account_waits_for_its_sign_in() {
    let mut app = client(&["account.login.start"]);
    assert!(!app.desktop_account().resolved);
    assert_eq!(app.desktop_start_chatgpt_login(true), Ok(()));
    assert!(app.desktop_account().pending);
    assert_eq!(
        app.desktop_start_chatgpt_login(true),
        Err("ChatGPT sign-in is already waiting for completion".to_string())
    );
    app.desktop_cancel_chatgpt_login();
    assert!(app.overlay.is_none());

    let mut old = client(&[]);
    assert_eq!(
        old.desktop_start_chatgpt_login(false),
        Err(
            "this gateway does not expose managed ChatGPT sign-in; update the runtime".to_string()
        )
    );
}

// ----- facts ------------------------------------------------------------------------

#[test]
fn a_fact_that_was_not_reported_is_not_drawn() {
    let mut app = client(&["interactive.subscribe"]);
    assert!(app.session_facts(1_000, false).is_none());
    app.open_session(Plane::Interactive, "s-1");
    let facts = app.session_facts(1_000, true).expect("facts");
    assert_eq!(facts.status, "unknown");
    assert_eq!(facts.model, None);
    assert_eq!(facts.queued, None);
    assert!(!app.interrupt_offered(1_000, true));

    list(&mut app, vec![session("s-1", "running", false)]);
    app.sessions.watches[0].turn_started_ms = Some(400);
    let facts = app.session_facts(1_000, true).expect("facts");
    assert_eq!(facts.elapsed_ms, Some(600));
    assert_eq!(facts.model.as_deref(), Some("openai_codex:gpt"));
    assert!(app.interrupt_offered(1_000, true));
    assert!(!app.interrupt_offered(1_000, false));

    let payload = app.statusline_payload(1_000, true);
    let session = payload.get("session").expect("a session");
    assert_eq!(session.get_str("id"), Some("s-1"));
    assert!(matches!(session.get("machine"), Some(Json::Null)));
    assert!(matches!(payload.get("cost_usd"), Some(Json::Decimal(cost)) if cost == "0.25"));
    assert_eq!(payload.get("elapsed_ms").and_then(|ms| ms.as_u64()), Some(600));
}

#[test]
fn an_approval_out_of_sight_shows_in_the_title() {
    let mut app = client(&["interactive.subscribe"]);
    app.open_session(Plane::Interactive, "s-1");
    app.event(Plane::Interactive, "s-1", Some(asks(1, "r-1")));
    app.open_session(Plane::Interactive, "s-2");

    assert_eq!(app.activity(0, true), Activity::NeedsInput);
    app.sessions.watches[0].mark_approval_response("r-1");
    assert_eq!(app.activity(0, true), Activity::Working);
    assert_eq!(app.activity(0, false), Activity::Idle);
}

// ----- a writable session -----------------------------------------------------------

#[test]
fn no_second_writable_session_is_started() {
    let mut app = client(&["interactive.start"]);
    app.start_writable_session(Some(true), false, "w-1");
    assert_eq!(
        app.notice.as_ref().unwrap().text,
        "this session can already edit files in the workspace"
    );
    app.start_writable_session(Some(false), false, "w-1");
    app.start_writable_session(Some(false), false, "w-2");
    let ids: Vec<_> = app
        .drain()
        .into_iter()
        .map(|call| call.params.get_str("id").unwrap_or("").to_string())
        .collect();
    assert!(ids.iter().all(|id| id == "w-1"), "{ids:?}");
    assert_eq!(
        app.notice.as_ref().unwrap().text,
        "reconciling the same writable session id w-1; no duplicate will be started"
    );
    assert_eq!(app.notice.as_ref().unwrap().kind, NoticeKind::Warn);
}

#[test]
fn a_machine_alone_says_so() {
    let app = client(&[]);
    assert_eq!(app.machine_summary().mode, "Standalone");
    assert_eq!(app.machine_choices().len(), 1);
    assert_eq!(
        app.machine_hint(),
        "This is one machine. /machines adds your laptop and servers."
    );
}

#[test]
fn a_posture_nobody_stated_is_not_shown() {
    let mut app = client(&["interactive.subscribe"]);
    assert_eq!(app.desktop_sandbox_mode(), None);
    let unsaid = SessionInfo { sandbox_mode: None, ..session("s-2", "idle", false) };
    list(&mut app, vec![session("s-1", "idle", false), unsaid]);
    app.open_session(Plane::Interactive, "s-1");
    assert_eq!(app.desktop_sandbox_mode().as_deref(), Some("read_only"));
    app.open_session(Plane::Interactive, "s-2");
    assert_eq!(app.desktop_sandbox_mode(), None);
}

#[test]
fn a_restored_draft_is_taken_once() {
    let mut app = client(&[]);
    app.desktop_restored_draft = Some("fix the parser".to_string());
    assert_eq!(app.desktop_take_restored_draft().as_deref(), Some("fix the parser"));
    assert_eq!(app.desktop_take_restored_draft(), None);
}

// ----- drafts with images -----------------------------------------------------------

fn image(kind: AttachmentKind, ephemeral: bool) -> Attachment {
    Attachment { kind, name: None, path: "shot.png".to_string(), ephemeral }
}

fn kept(id: &str, images: Vec<Attachment>, turn_id: Option<&str>, sequence: u64) -> Kept {
    Kept {
        id: id.to_string(),
        node: None,
        input: TurnInput {
            prompt: format!("about {id}"),
            attachments: images,
            reasoning_effort: None,
        },
        turn_id: turn_id.map(str::to_string),
        sequence,
        follow_up: false,
    }
}

fn blank() -> ImageDrafts {
    ImageDrafts {
        draft_id: "d-0".to_string(),
        home_draft_id: "h-0".to_string(),
        home_images: Vec::new(),
        home_node: String::new(),
        composer_images: Vec::new(),
        composer_effort: None,
        drafts: Vec::new(),
        in_flight: Vec::new(),
        unsettled: Vec::new(),
        queued: Vec::new(),
    }
}

#[test]
fn only_images_that_outlive_the_client_are_kept() {
    assert!(!persistable(&vec![]));
    assert!(!persistable(&vec![image(AttachmentKind::Path, false)]));
    assert!(persistable(&vec![
        image(AttachmentKind::Path, true),
        image(AttachmentKind::ManagedImage, false)
    ]));
    assert!(!persistable(&vec![
        image(AttachmentKind::ManagedImage, false),
        image(AttachmentKind::Image, false)
    ]));
    assert!(!persistable(&vec![image(AttachmentKind::PendingImage, true)]));

    let marked = mark_interrupted(vec![image(AttachmentKind::PendingImage, false)]);
    assert_eq!(marked[0].kind, AttachmentKind::FailedImage);
    assert_eq!(
        marked[0].name.as_deref(),
        Some("Interrupted image upload · remove and attach again")
    );
}

#[test]
fn drafts_survive_a_restart() {
    let managed = || vec![image(AttachmentKind::ManagedImage, false)];
    let pending = || vec![image(AttachmentKind::PendingImage, false)];
    let mut images = blank();
    images.drafts = vec![kept("s-1", pending(), None, 0), kept("s-2", Vec::new(), None, 0)];
    images.in_flight =
        vec![kept("s-1", managed(), Some("t-2"), 9), kept("s-1", managed(), None, 1)];
    images.unsettled =
        vec![kept("s-1", managed(), Some("t-2"), 9), kept("s-1", managed(), Some("t-1"), 3)];
    images.home_images = managed();
    let mut app = client(&[]);
    app.home_draft.hold("look at this");

    let file = app.image_draft_snapshot(&images);
    assert_eq!(file.drafts.len(), 1);
    let turns: Vec<_> = file.pending.iter().map(|turn| turn.turn_id.clone().unwrap()).collect();
    assert_eq!(turns, vec!["t-1", "t-2"]);

    let mut restarted = client(&[]);
    let mut back = blank();
    restarted.restore_image_drafts(&mut back, file);
    assert_eq!(restarted.home_draft.text, "look at this");
    assert_eq!(back.drafts.len(), 1);
    assert_eq!(back.drafts[0].input.prompt, "about s-1");
    assert_eq!(back.drafts[0].input.attachments[0].kind, AttachmentKind::FailedImage);
    assert_eq!(back.unsettled.len(), 2);
    assert_eq!(back.home_images.len(), 1);
}

#[test]
fn a_recovery_file_of_another_version_is_left_alone() {
    let mut app = client(&[]);
    let mut images = blank();
    let start = StartRequest {
        plane: Plane::Interactive,
        provider: "acme".to_string(),
        machine: "server".to_string(),
        workspace: "/src".to_string(),
        approval_mode: None,
        objective: String::new(),
        id: "s-1".to_string(),
        model: None,
        sandbox_mode: None,
        reasoning_effort: None,
    };
    let file = |version: u64, start: StartRequest| Recovery {
        version,
        draft_id: Some("d-1".to_string()),
        home_draft_id: None,
        home: Some(vec![image(AttachmentKind::ManagedImage, false)]),
        home_text: "again".to_string(),
        home_node: "pi".to_string(),
        first_message: Some(PendingFirstMessage {
            input: "again".to_string(),
            turn_id: "t-1".to_string(),
            start,
            start_outcome_unknown: false,
        }),
        drafts: Vec::new(),
        pending: Vec::new(),
        queued: Vec::new(),
    };
    app.restore_image_drafts(&mut images, file(2, start.copy()));
    assert_eq!(images.draft_id, "d-0");
    app.restore_image_drafts(&mut images, file(1, start));
    assert_eq!((images.draft_id.as_str(), images.home_draft_id.as_str()), ("d-1", "d-1"));
    assert!(app.first_message.as_ref().unwrap().start_outcome_unknown);
    assert_eq!(app.config.location_machine, "server");
    assert_eq!(app.config.location_workspace.as_deref(), Some("/src"));
    assert_eq!(app.config.workspace, None);
}

#[test]
fn an_empty_composer_takes_the_draft_that_was_recovered() {
    let mut written = blank();
    written.drafts = vec![kept("s-1", vec![image(AttachmentKind::ManagedImage, false)], None, 0)];
    let file = client(&[]).image_draft_snapshot(&written);
    let again = client(&[]).image_draft_snapshot(&written);

    let mut app = client(&["interactive.subscribe", "interactive.send_message"]);
    app.open_session(Plane::Interactive, "s-1");
    app.sessions.composer = Some(Composer::new(ComposerVerb::Message));
    let mut images = blank();
    app.restore_image_drafts(&mut images, file);
    assert_eq!(app.sessions.composer.as_ref().unwrap().editor.text, "about s-1");
    assert_eq!(images.composer_images.len(), 1);

    let mut typed = client(&["interactive.subscribe"]);
    typed.open_session(Plane::Interactive, "s-1");
    let mut composer = Composer::new(ComposerVerb::Message);
    composer.editor.hold("newer");
    typed.sessions.composer = Some(composer);
    let mut images = blank();
    typed.restore_image_drafts(&mut images, again);
    assert_eq!(typed.sessions.composer.as_ref().unwrap().editor.text, "newer");
    assert!(images.composer_images.is_empty());
}

// ----- forms ------------------------------------------------------------------------

fn entry(name: &str) -> ProviderEntry {
    ProviderEntry { provider: name.to_string(), ready: true, efforts: Vec::new() }
}

#[test]
fn rows_wrap_and_clamp() {
    assert_eq!(wrap(0, -1, 5), 4);
    assert_eq!(wrap(4, 1, 5), 0);
    assert_eq!(clamp(0, -1, 5), 0);
    assert_eq!(clamp(4, 10, 5), 4);
    assert_eq!(clamp(3, 1, 0), 0);
}

#[test]
fn the_rows_of_the_approval_cycler_name_their_modes() {
    assert_eq!(approval_at(0), None);
    for mode in ApprovalMode::ALL {
        assert_eq!(approval_at(approval_index(Some(mode))), Some(mode));
        assert_eq!(ApprovalMode::parse(mode.as_str()), Some(mode));
    }
    assert_eq!(approval_index(None), 0);
}

#[test]
fn a_stored_provider_has_a_row() {
    let rows = provider_choices(&vec![entry("acme")], Some("gone"));
    assert!(rows.contains(&ProviderChoice::Unserved { name: "gone".to_string() }));
    assert!(rows.contains(&ProviderChoice::Unset));
    assert!(rows.contains(&ProviderChoice::Probed { name: "acme".to_string(), ready: true }));
}

#[test]
fn a_default_nobody_reports_is_said() {
    let mut app = client(&["interactive.start", "runtime.providers"]);
    app.config = Config { provider: Some("go\"ne".to_string()), ..Config::new() };
    app.providers =
        Loadable { value: Some(vec![entry("acme")]), error: None, pending: false, next_tick: 0 };
    app.open_new_session();

    assert!(matches!(app.overlay, Some(Overlay::New(_))));
    assert_eq!(
        app.notice.as_ref().map(|notice| notice.text.as_str()),
        Some(
            "the default provider \"go\\\"ne\" is not one this runtime reports; the list here is what it does serve"
        )
    );
}

#[test]
fn a_form_types_into_the_row_it_is_on() {
    let mut form = NewSession::new(Plane::Coding, "/src".to_string(), None, None);
    assert!(!form.type_in("x"));
    form.move_field(1);
    assert!(form.type_in("fix it"));
    assert!(form.erase());
    assert_eq!(form.request.objective, "fix i");
    form.request.machine = "server".to_string();
    let request = form.resolved(&vec![entry("acme")]);
    assert_eq!((request.provider.as_str(), request.machine.as_str()), ("acme", "server"));
    assert!(request.params().is_ok());
}

// ----- ids --------------------------------------------------------------------------

#[test]
fn an_id_is_made_of_random_bytes() {
    assert_eq!(
        format_id(&vec![0, 1, 2, 3, 4, 5, 6, 7, 8, 9, 10, 11, 12, 13, 14, 255]),
        "ouro-000102030405060708090a0b0c0d0eff"
    );
    let (one, other) = (new_turn_id("a"), new_turn_id("b"));
    assert_eq!(one.len(), 37);
    assert_ne!(one, other);
    assert_ne!(one, "ouro-00000000000000000000000000000000");
}
