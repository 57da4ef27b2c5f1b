//! The facts that the footer states, the window title carries and the status line is fed, gathered
//! in one place so that the three cannot disagree.
//!
//! Each comes from what the runtime declared or from the event stream. A fact that was not reported
//! is absent, and is not drawn.

use vstd::prelude::*;

use crate::app::{App, Connection, Tab};
use crate::json::{lemma_member_at, Json, JsonView};
use crate::model::{Capabilities, Capability, Plane, SessionInfo, SessionUsage};
use crate::tags::Params;
use crate::text::{copy_text, said};
use crate::watch::Watch;

verus! {

/// What the open session is, as of this frame.
#[derive(Debug)]
pub struct SessionFacts {
    pub id: String,
    pub provider: Option<String>,
    pub workspace: Option<String>,
    /// The machine a session's work is on.
    pub node: Option<String>,
    pub status: String,
    pub model: Option<String>,
    pub approval_mode: Option<String>,
    pub sandbox_mode: Option<String>,
    /// The session is planning. Silence does not say so.
    pub plan: bool,
    pub capabilities: Capabilities,
    pub usage: Option<SessionUsage>,
    /// A turn is in flight.
    pub working: bool,
    pub elapsed_ms: Option<u64>,
    /// None held and none reported are different.
    pub queued: Option<u64>,
    /// Approvals that wait on a person.
    pub approvals: usize,
}

/// What a transcript says of its turn and its queue.
#[derive(Debug, Clone, Copy, PartialEq, Eq, Structural)]
pub struct TranscriptFacts {
    pub queued: Option<u64>,
    pub elapsed_ms: Option<u64>,
}

impl TranscriptFacts {
    pub open spec fn of(watch: Watch, now_ms: u64) -> TranscriptFacts {
        TranscriptFacts {
            queued: watch.queue_depth,
            elapsed_ms: match watch.turn_started_ms {
                Some(started) => Some(
                    if now_ms < started {
                        0
                    } else {
                        (now_ms - started) as u64
                    },
                ),
                None => None,
            },
        }
    }

    pub fn read(watch: &Watch, now_ms: u64) -> (r: TranscriptFacts)
        ensures
            r == TranscriptFacts::of(*watch, now_ms),
    {
        TranscriptFacts {
            queued: watch.queue_depth,
            elapsed_ms: match watch.turn_started_ms {
                Some(started) => Some(now_ms.saturating_sub(started)),
                None => None,
            },
        }
    }
}

/// What the window title's mark says.
#[derive(Debug, Clone, Copy, PartialEq, Eq, Structural)]
pub enum Activity {
    NeedsInput,
    Working,
    Idle,
}

pub open spec fn text_or_null(text: Option<Seq<char>>) -> JsonView {
    match text {
        Some(text) => JsonView::Text(text),
        None => JsonView::Null,
    }
}

pub open spec fn number_or_null(n: Option<u64>) -> JsonView {
    match n {
        Some(n) => JsonView::Unsigned(n),
        None => JsonView::Null,
    }
}

fn text_member(text: &Option<String>) -> (r: Json)
    ensures
        r@ == text_or_null(said(*text)),
{
    match text {
        Some(text) => Json::Text(text.clone()),
        None => Json::Null,
    }
}

fn number_member(n: Option<u64>) -> (r: Json)
    ensures
        r@ == number_or_null(n),
{
    match n {
        Some(n) => Json::Unsigned(n),
        None => Json::Null,
    }
}

impl SessionFacts {
    pub open spec fn session_value(&self) -> JsonView {
        JsonView::Object(
            seq![
                ("id"@, JsonView::Text(self.id@)),
                ("provider"@, text_or_null(said(self.provider))),
                ("model"@, text_or_null(said(self.model))),
                ("workspace"@, text_or_null(said(self.workspace))),
                ("machine"@, text_or_null(said(self.node))),
                ("status"@, JsonView::Text(self.status@)),
            ],
        )
    }

    fn session_json(&self) -> (r: Json)
        ensures
            r@ == self.session_value(),
    {
        let params = Params::new().text("id", self.id.as_str()).with(
            "provider",
            text_member(&self.provider),
        ).with("model", text_member(&self.model)).with(
            "workspace",
            text_member(&self.workspace),
        ).with("machine", text_member(&self.node)).text("status", self.status.as_str());
        assert(JsonView::Object(params@) == self.session_value()) by {
            assert(params@ =~= self.session_value()->Object_0);
        }
        params.done()
    }

    pub open spec fn modes_value(&self) -> JsonView {
        JsonView::Object(
            seq![
                ("approval_mode"@, text_or_null(said(self.approval_mode))),
                ("sandbox_mode"@, text_or_null(said(self.sandbox_mode))),
            ],
        )
    }

    fn modes_json(&self) -> (r: Json)
        ensures
            r@ == self.modes_value(),
    {
        let params = Params::new().with("approval_mode", text_member(&self.approval_mode)).with(
            "sandbox_mode",
            text_member(&self.sandbox_mode),
        );
        assert(params@ =~= self.modes_value()->Object_0);
        params.done()
    }
}

pub open spec fn usage_value(usage: SessionUsage) -> JsonView {
    JsonView::Object(
        seq![
            ("input_tokens"@, number_or_null(usage.input_tokens)),
            ("output_tokens"@, number_or_null(usage.output_tokens)),
            ("cache_read_tokens"@, number_or_null(usage.cache_read_tokens)),
            ("cache_creation_tokens"@, number_or_null(usage.cache_creation_tokens)),
            ("total_tokens"@, number_or_null(usage.total_tokens)),
            ("turns_with_usage"@, number_or_null(usage.turns_with_usage)),
            ("context_window"@, number_or_null(usage.context_window)),
        ],
    )
}

fn usage_json(usage: &SessionUsage) -> (r: Json)
    ensures
        r@ == usage_value(*usage),
{
    let params = Params::new().with("input_tokens", number_member(usage.input_tokens)).with(
        "output_tokens",
        number_member(usage.output_tokens),
    ).with("cache_read_tokens", number_member(usage.cache_read_tokens)).with(
        "cache_creation_tokens",
        number_member(usage.cache_creation_tokens),
    ).with("total_tokens", number_member(usage.total_tokens)).with(
        "turns_with_usage",
        number_member(usage.turns_with_usage),
    ).with("context_window", number_member(usage.context_window));
    assert(params@ =~= usage_value(*usage)->Object_0);
    params.done()
}

impl App {
    /// The open session's facts. What a live event has said since the last list wins over the
    /// list, and an unlisted session states only what is known of it.
    pub open spec fn states(&self, facts: SessionFacts, now_ms: u64, working: bool) -> bool {
        let row = self.sessions.open_row();
        let at = self.sessions.open_index();
        let watch = self.sessions.watches@[at->0];
        &&& facts.id@ == self.sessions.open->0.id@
        &&& said(facts.provider) == match row {
            Some(row) => said(row.provider),
            None => None,
        }
        &&& said(facts.workspace) == match row {
            Some(row) => said(row.workspace),
            None => None,
        }
        &&& said(facts.node) == match row {
            Some(row) => said(row.node),
            None => None,
        }
        &&& facts.status@ == match row {
            Some(row) => row.status.word@,
            None => "unknown"@,
        }
        &&& said(facts.model) == self.open_model()
        &&& said(facts.approval_mode) == match row {
            Some(row) => said(row.approval_mode),
            None => None,
        }
        &&& said(facts.sandbox_mode) == match row {
            Some(row) => said(row.sandbox_mode),
            None => None,
        }
        &&& facts.plan == if at is Some && watch.planning is Some {
            watch.planning->0
        } else {
            row is Some && row->0.plan
        }
        &&& facts.capabilities == match row {
            Some(row) => row.capabilities,
            None => Capabilities {
                interrupt: Capability::Unreported,
                dynamic_configuration: Capability::Unreported,
            },
        }
        &&& match row {
            Some(row) => match row.usage {
                Some(usage) => facts.usage is Some && facts.usage->0.same_as(usage),
                None => facts.usage is None,
            },
            None => facts.usage is None,
        }
        &&& facts.working == working
        &&& facts.elapsed_ms == if at is Some {
            TranscriptFacts::of(watch, now_ms).elapsed_ms
        } else {
            None
        }
        &&& facts.queued == if at is Some {
            watch.queue_depth
        } else {
            None
        }
        &&& facts.approvals == if at is Some {
            Watch::open_count(watch.approvals@)
        } else {
            0
        }
    }

    /// The facts of the open session, where it is interactive: a coding task takes no input, and
    /// has no mode, model or queue to state. `working` where a turn of it runs.
    pub fn session_facts(&self, now_ms: u64, working: bool) -> (r: Option<SessionFacts>)
        requires
            self.wf(),
        ensures
            match r {
                Some(facts) => self.sessions.open is Some && self.sessions.open->0.plane
                    == Plane::Interactive && self.states(facts, now_ms, working),
                None => self.sessions.open is None || self.sessions.open->0.plane
                    != Plane::Interactive,
            },
    {
        let id = match &self.sessions.open {
            Some(key) => {
                if key.plane != Plane::Interactive {
                    return None;
                }
                key.id.clone()
            },
            None => {
                return None;
            },
        };
        let (queued, elapsed_ms, planning, watched_model, approvals) = match
            self.sessions.open_watch() {
            Some(watch) => {
                let facts = TranscriptFacts::read(watch, now_ms);
                (
                    facts.queued,
                    facts.elapsed_ms,
                    watch.planning,
                    copy_text(&watch.model),
                    watch.unanswered_approvals(),
                )
            },
            None => (None, None, None, None, 0),
        };
        match self.sessions.open_info() {
            Some(row) => Some(
                SessionFacts {
                    id,
                    provider: copy_text(&row.provider),
                    workspace: copy_text(&row.workspace),
                    node: copy_text(&row.node),
                    status: row.status.word.clone(),
                    model: match &row.model {
                        Some(model) => Some(model.clone()),
                        None => watched_model,
                    },
                    approval_mode: copy_text(&row.approval_mode),
                    sandbox_mode: copy_text(&row.sandbox_mode),
                    plan: match planning {
                        Some(planning) => planning,
                        None => row.plan,
                    },
                    capabilities: row.capabilities,
                    usage: match &row.usage {
                        Some(usage) => Some(usage.copy()),
                        None => None,
                    },
                    working,
                    elapsed_ms,
                    queued,
                    approvals,
                },
            ),
            None => Some(
                SessionFacts {
                    id,
                    provider: None,
                    workspace: None,
                    node: None,
                    status: "unknown".to_owned(),
                    model: watched_model,
                    approval_mode: None,
                    sandbox_mode: None,
                    plan: match planning {
                        Some(planning) => planning,
                        None => false,
                    },
                    capabilities: Capabilities {
                        interrupt: Capability::Unreported,
                        dynamic_configuration: Capability::Unreported,
                    },
                    usage: None,
                    working,
                    elapsed_ms,
                    queued,
                    approvals,
                },
            ),
        }
    }

    /// Some watched session waits on a person.
    pub open spec fn needs_input(&self) -> bool {
        exists|i: int|
            0 <= i < self.sessions.watches@.len() && Watch::open_count(
                (#[trigger] self.sessions.watches@[i]).approvals@,
            ) > 0
    }

    /// What the title says. A session that waits on a person wins, whichever session it is: an
    /// approval out of sight is what a title exists to surface. An approval whose answer is on its
    /// way waits on nobody.
    pub fn activity_of(&self, facts: &Option<SessionFacts>) -> (r: Activity)
        ensures
            r == if self.needs_input() {
                Activity::NeedsInput
            } else if *facts is Some && (*facts)->0.working {
                Activity::Working
            } else {
                Activity::Idle
            },
    {
        let mut i: usize = 0;
        while i < self.sessions.watches.len()
            invariant
                i <= self.sessions.watches@.len(),
                forall|k: int|
                    0 <= k < i ==> Watch::open_count(
                        (#[trigger] self.sessions.watches@[k]).approvals@,
                    ) == 0,
            decreases self.sessions.watches@.len() - i,
        {
            if self.sessions.watches[i].unanswered_approvals() > 0 {
                return Activity::NeedsInput;
            }
            i += 1;
        }
        match facts {
            Some(facts) if facts.working => Activity::Working,
            _ => Activity::Idle,
        }
    }

    /// The title's mark for the open session.
    pub fn activity(&self, now_ms: u64, working: bool) -> (r: Activity)
        requires
            self.wf(),
        ensures
            r == if self.needs_input() {
                Activity::NeedsInput
            } else if working && self.sessions.open is Some && self.sessions.open->0.plane
                == Plane::Interactive {
                Activity::Working
            } else {
                Activity::Idle
            },
    {
        let facts = self.session_facts(now_ms, working);
        self.activity_of(&facts)
    }

    /// The workspace the title names: the open session's, or the one a session would start in.
    pub fn title_workspace_of(&self, facts: &Option<SessionFacts>) -> (r: Option<String>)
        ensures
            said(r) == crate::window::either(
                crate::window::either(
                    match *facts {
                        Some(facts) => said(facts.workspace),
                        None => None,
                    },
                    said(self.config.workspace),
                ),
                said(self.launch_dir),
            ),
    {
        if let Some(facts) = facts {
            if let Some(workspace) = &facts.workspace {
                return Some(workspace.clone());
            }
        }
        match &self.config.workspace {
            Some(workspace) => Some(workspace.clone()),
            None => copy_text(&self.launch_dir),
        }
    }

    pub open spec fn connection_value(&self) -> JsonView {
        let (state, reason) = match self.connection {
            Connection::Live => ("live"@, JsonView::Null),
            Connection::Lost { reason } => ("lost"@, JsonView::Text(reason@)),
        };
        JsonView::Object(
            seq![
                ("state"@, JsonView::Text(state)),
                ("reason"@, reason),
                ("address"@, JsonView::Text(self.address@)),
                ("scope"@, JsonView::Text(self.hello.scope@)),
                ("node"@, JsonView::Text(self.hello.node@)),
                ("spawned"@, JsonView::Bool(self.mode is Spawned)),
            ],
        )
    }

    fn connection_json(&self) -> (r: Json)
        ensures
            r@ == self.connection_value(),
    {
        let (state, reason) = match &self.connection {
            Connection::Live => ("live", Json::Null),
            Connection::Lost { reason } => ("lost", Json::Text(reason.clone())),
        };
        let params = Params::new().text("state", state).with("reason", reason).text(
            "address",
            self.address.as_str(),
        ).text("scope", self.hello.scope.as_str()).text("node", self.hello.node.as_str()).with(
            "spawned",
            Json::Bool(self.spawned()),
        );
        assert(params@ =~= self.connection_value()->Object_0);
        params.done()
    }

    /// What a status line command is fed: fixed keys, with nothing where a fact is not known.
    pub open spec fn statusline_value(&self, facts: Option<SessionFacts>) -> JsonView {
        let usage = match facts {
            Some(facts) => facts.usage,
            None => None,
        };
        JsonView::Object(
            seq![
                (
                    "session"@,
                    match facts {
                        Some(facts) => facts.session_value(),
                        None => JsonView::Null,
                    },
                ),
                (
                    "modes"@,
                    match facts {
                        Some(facts) => facts.modes_value(),
                        None => JsonView::Null,
                    },
                ),
                (
                    "usage"@,
                    match usage {
                        Some(usage) => usage_value(usage),
                        None => JsonView::Null,
                    },
                ),
                (
                    "cost_usd"@,
                    match usage {
                        Some(usage) => match usage.cost_usd {
                            Some(cost) => JsonView::Decimal(cost@),
                            None => JsonView::Null,
                        },
                        None => JsonView::Null,
                    },
                ),
                (
                    "elapsed_ms"@,
                    match facts {
                        Some(facts) => number_or_null(facts.elapsed_ms),
                        None => JsonView::Null,
                    },
                ),
                ("connection"@, self.connection_value()),
            ],
        )
    }

    pub fn statusline_payload_of(&self, facts: &Option<SessionFacts>) -> (r: Json)
        ensures
            r@ == self.statusline_value(*facts),
    {
        let (session, modes, elapsed) = match facts {
            Some(facts) => (
                facts.session_json(),
                facts.modes_json(),
                number_member(facts.elapsed_ms),
            ),
            None => (Json::Null, Json::Null, Json::Null),
        };
        let (usage, cost) = match facts {
            Some(facts) => match &facts.usage {
                Some(usage) => (
                    usage_json(usage),
                    match &usage.cost_usd {
                        Some(cost) => Json::Decimal(cost.clone()),
                        None => Json::Null,
                    },
                ),
                None => (Json::Null, Json::Null),
            },
            None => (Json::Null, Json::Null),
        };
        let params = Params::new().with("session", session).with("modes", modes).with(
            "usage",
            usage,
        ).with("cost_usd", cost).with("elapsed_ms", elapsed).with(
            "connection",
            self.connection_json(),
        );
        assert(params@ =~= self.statusline_value(*facts)->Object_0);
        params.done()
    }

    /// The payload for the open session.
    pub fn statusline_payload(&self, now_ms: u64, working: bool) -> (r: Json)
        requires
            self.wf(),
        ensures
            if self.sessions.open is Some && self.sessions.open->0.plane == Plane::Interactive {
                exists|facts: SessionFacts|
                    #[trigger] self.states(facts, now_ms, working) && r@ == self.statusline_value(
                        Some(facts),
                    )
            } else {
                r@ == self.statusline_value(None)
            },
    {
        let facts = self.session_facts(now_ms, working);
        self.statusline_payload_of(&facts)
    }

    /// Whether the footer offers to interrupt: a turn runs, and the transport declared that it can
    /// be interrupted.
    pub fn interrupt_offered_for(&self, facts: &Option<SessionFacts>) -> (r: bool)
        ensures
            r == (self.tab == Tab::Sessions && *facts is Some && (*facts)->0.working
                && (*facts)->0.capabilities.interrupt is Yes),
    {
        self.tab == Tab::Sessions && match facts {
            Some(facts) => facts.working && facts.capabilities.interrupt.offered(),
            None => false,
        }
    }

    pub fn interrupt_offered(&self, now_ms: u64, working: bool) -> (r: bool)
        requires
            self.wf(),
        ensures
            r == (self.tab == Tab::Sessions && working && self.sessions.open is Some
                && self.sessions.open->0.plane == Plane::Interactive && match
                self.sessions.open_row() {
                Some(row) => row.capabilities.interrupt is Yes,
                None => false,
            }),
    {
        let facts = self.session_facts(now_ms, working);
        self.interrupt_offered_for(&facts)
    }
}

// ----- laws -------------------------------------------------------------------------

/// The status line, the title and the footer state the same facts: two readings of one state agree
/// on everything the three draw.
pub proof fn lemma_the_three_cannot_disagree(
    app: App,
    one: SessionFacts,
    other: SessionFacts,
    now_ms: u64,
    working: bool,
)
    requires
        app.states(one, now_ms, working),
        app.states(other, now_ms, working),
    ensures
        app.statusline_value(Some(one)) == app.statusline_value(Some(other)),
        one.working == other.working,
        one.capabilities == other.capabilities,
        said(one.workspace) == said(other.workspace),
{
    assert(one.session_value() == other.session_value());
    assert(one.modes_value() == other.modes_value());
    if one.usage is Some {
        assert(usage_value(one.usage->0) == usage_value(other.usage->0));
        assert(said(one.usage->0.cost_usd) == said(other.usage->0.cost_usd));
    }
    assert(app.statusline_value(Some(one))->Object_0 =~= app.statusline_value(
        Some(other),
    )->Object_0);
}

/// A status line states each fact of a session under the name a script reads it by.
#[verifier::rlimit(60)]
pub proof fn lemma_a_status_line_names_its_session(facts: SessionFacts)
    ensures
        ({
            let session = facts.session_value();
            &&& session.member("id"@) == Some(JsonView::Text(facts.id@))
            &&& session.member("provider"@) == Some(text_or_null(said(facts.provider)))
            &&& session.member("model"@) == Some(text_or_null(said(facts.model)))
            &&& session.member("workspace"@) == Some(text_or_null(said(facts.workspace)))
            &&& session.member("machine"@) == Some(text_or_null(said(facts.node)))
            &&& session.member("status"@) == Some(JsonView::Text(facts.status@))
        }),
{
    reveal_strlit("id");
    reveal_strlit("provider");
    reveal_strlit("model");
    reveal_strlit("workspace");
    reveal_strlit("machine");
    reveal_strlit("status");
    assert("id"@.len() == 2);
    assert("provider"@.len() == 8);
    assert("model"@.len() == 5);
    assert("workspace"@.len() == 9);
    assert("machine"@.len() == 7);
    assert("status"@.len() == 6);
    let members = facts.session_value()->Object_0;
    lemma_member_at(members, "id"@, 0);
    lemma_member_at(members, "provider"@, 1);
    lemma_member_at(members, "model"@, 2);
    lemma_member_at(members, "workspace"@, 3);
    lemma_member_at(members, "machine"@, 4);
    lemma_member_at(members, "status"@, 5);
}

/// So it does each mode the session runs in.
pub proof fn lemma_a_status_line_names_the_modes(facts: SessionFacts)
    ensures
        facts.modes_value().member("approval_mode"@) == Some(
            text_or_null(said(facts.approval_mode)),
        ),
        facts.modes_value().member("sandbox_mode"@) == Some(
            text_or_null(said(facts.sandbox_mode)),
        ),
{
    reveal_strlit("approval_mode");
    reveal_strlit("sandbox_mode");
    assert("approval_mode"@.len() == 13);
    assert("sandbox_mode"@.len() == 12);
    let members = facts.modes_value()->Object_0;
    lemma_member_at(members, "approval_mode"@, 0);
    lemma_member_at(members, "sandbox_mode"@, 1);
}

/// Each count of what a session used goes by its own name.
#[verifier::rlimit(60)]
pub proof fn lemma_a_status_line_counts_tokens_by_kind(usage: SessionUsage)
    ensures
        ({
            let value = usage_value(usage);
            &&& value.member("input_tokens"@) == Some(number_or_null(usage.input_tokens))
            &&& value.member("output_tokens"@) == Some(number_or_null(usage.output_tokens))
            &&& value.member("cache_read_tokens"@) == Some(number_or_null(usage.cache_read_tokens))
            &&& value.member("cache_creation_tokens"@) == Some(number_or_null(usage.cache_creation_tokens))
            &&& value.member("total_tokens"@) == Some(number_or_null(usage.total_tokens))
            &&& value.member("turns_with_usage"@) == Some(number_or_null(usage.turns_with_usage))
            &&& value.member("context_window"@) == Some(number_or_null(usage.context_window))
        }),
{
    reveal_strlit("input_tokens");
    reveal_strlit("output_tokens");
    reveal_strlit("cache_read_tokens");
    reveal_strlit("cache_creation_tokens");
    reveal_strlit("total_tokens");
    reveal_strlit("turns_with_usage");
    reveal_strlit("context_window");
    assert("input_tokens"@.len() == 12);
    assert("output_tokens"@.len() == 13);
    assert("cache_read_tokens"@.len() == 17);
    assert("cache_creation_tokens"@.len() == 21);
    assert("total_tokens"@.len() == 12);
    assert("turns_with_usage"@.len() == 16);
    assert("context_window"@.len() == 14);
    assert("input_tokens"@[0] == 'i' && "total_tokens"@[0] == 't');
    let members = usage_value(usage)->Object_0;
    lemma_member_at(members, "input_tokens"@, 0);
    lemma_member_at(members, "output_tokens"@, 1);
    lemma_member_at(members, "cache_read_tokens"@, 2);
    lemma_member_at(members, "cache_creation_tokens"@, 3);
    lemma_member_at(members, "total_tokens"@, 4);
    lemma_member_at(members, "turns_with_usage"@, 5);
    lemma_member_at(members, "context_window"@, 6);
}

/// A status line calls the connection live exactly where it is, and says why where it is lost.
#[verifier::rlimit(60)]
pub proof fn lemma_a_status_line_tells_the_connection(app: App)
    ensures
        ({
            let value = app.connection_value();
            &&& value.member_text("state"@) == Some("live"@) <==> app.connection is Live
            &&& value.member_text("state"@) == Some("lost"@) <==> app.connection is Lost
            &&& app.connection is Lost ==> value.member_text("reason"@) == Some(
                app.connection->reason@,
            )
            &&& app.connection is Live ==> value.member("reason"@) == Some(JsonView::Null)
            &&& value.member_text("address"@) == Some(app.address@)
            &&& value.member_text("scope"@) == Some(app.hello.scope@)
            &&& value.member_text("node"@) == Some(app.hello.node@)
            &&& value.member_truth("spawned"@) == Some(app.mode is Spawned)
        }),
{
    reveal_strlit("state");
    reveal_strlit("reason");
    reveal_strlit("address");
    reveal_strlit("scope");
    reveal_strlit("node");
    reveal_strlit("spawned");
    assert("state"@.len() == 5);
    assert("reason"@.len() == 6);
    assert("address"@.len() == 7);
    assert("scope"@.len() == 5);
    assert("node"@.len() == 4);
    assert("spawned"@.len() == 7);
    assert("state"@[1] == 't' && "scope"@[1] == 'c');
    assert("address"@[0] == 'a' && "spawned"@[0] == 's');
    reveal_strlit("live");
    reveal_strlit("lost");
    assert("live"@[1] == 'i' && "lost"@[1] == 'o');
    let members = app.connection_value()->Object_0;
    lemma_member_at(members, "state"@, 0);
    lemma_member_at(members, "reason"@, 1);
    lemma_member_at(members, "address"@, 2);
    lemma_member_at(members, "scope"@, 3);
    lemma_member_at(members, "node"@, 4);
    lemma_member_at(members, "spawned"@, 5);
}

/// The parts of a status line, by name: nothing is stated of a session that is not open.
#[verifier::rlimit(60)]
pub proof fn lemma_a_status_line_has_its_parts(app: App, facts: Option<SessionFacts>)
    ensures
        ({
            let value = app.statusline_value(facts);
            &&& value.member("connection"@) == Some(app.connection_value())
            &&& match facts {
                Some(facts) => {
                    &&& value.member("session"@) == Some(facts.session_value())
                    &&& value.member("modes"@) == Some(facts.modes_value())
                    &&& value.member("elapsed_ms"@) == Some(number_or_null(facts.elapsed_ms))
                    &&& value.member("usage"@) == Some(
                        match facts.usage {
                            Some(usage) => usage_value(usage),
                            None => JsonView::Null,
                        },
                    )
                    &&& facts.usage is Some && facts.usage->0.cost_usd is Some ==> value.member(
                        "cost_usd"@,
                    ) == Some(JsonView::Decimal(facts.usage->0.cost_usd->0@))
                },
                None => {
                    &&& value.member("session"@) == Some(JsonView::Null)
                    &&& value.member("modes"@) == Some(JsonView::Null)
                    &&& value.member("usage"@) == Some(JsonView::Null)
                    &&& value.member("cost_usd"@) == Some(JsonView::Null)
                    &&& value.member("elapsed_ms"@) == Some(JsonView::Null)
                },
            }
        }),
{
    reveal_strlit("session");
    reveal_strlit("modes");
    reveal_strlit("usage");
    reveal_strlit("cost_usd");
    reveal_strlit("elapsed_ms");
    reveal_strlit("connection");
    assert("session"@.len() == 7);
    assert("modes"@.len() == 5);
    assert("usage"@.len() == 5);
    assert("cost_usd"@.len() == 8);
    assert("elapsed_ms"@.len() == 10);
    assert("connection"@.len() == 10);
    assert("elapsed_ms"@[0] == 'e' && "connection"@[0] == 'c');
    assert("modes"@[0] == 'm' && "usage"@[0] == 'u');
    let members = app.statusline_value(facts)->Object_0;
    lemma_member_at(members, "session"@, 0);
    lemma_member_at(members, "modes"@, 1);
    lemma_member_at(members, "usage"@, 2);
    lemma_member_at(members, "cost_usd"@, 3);
    lemma_member_at(members, "elapsed_ms"@, 4);
    lemma_member_at(members, "connection"@, 5);
}

/// What the facts of the open session say is what the list and the live transcript said: a mode of
/// planning that an event announced wins over the list, and the time of a turn counts from its
/// start.
pub proof fn lemma_the_facts_are_those_of_the_open_session(
    app: App,
    facts: SessionFacts,
    now_ms: u64,
    working: bool,
    row: SessionInfo,
    at: int,
)
    requires
        app.states(facts, now_ms, working),
        app.sessions.open_row() == Some(row),
        app.sessions.open_index() == Some(at),
    ensures
        facts.id@ == app.sessions.open->0.id@,
        facts.status@ == row.status.word@,
        said(facts.provider) == said(row.provider),
        said(facts.workspace) == said(row.workspace),
        said(facts.node) == said(row.node),
        ({
            let watch = app.sessions.watches@[at];
            &&& watch.planning is Some ==> facts.plan == watch.planning->0
            &&& watch.planning is None ==> facts.plan == row.plan
            &&& watch.turn_started_ms is Some && now_ms >= watch.turn_started_ms->0 ==> facts.elapsed_ms
                is Some && facts.elapsed_ms->0 + watch.turn_started_ms->0 == now_ms
            &&& watch.turn_started_ms is None ==> facts.elapsed_ms is None
            &&& facts.queued == watch.queue_depth
        }),
{
}

} // verus!
