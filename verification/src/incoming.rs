//! What comes back: where each answer lands, and what a failure leaves behind.

use vstd::prelude::*;

use crate::answers::{failed_words, Conflict, Failure, Reply, TurnReply};
use crate::app::{AccountState, App, Errand, Restore};
use crate::cluster::RuntimeStatus;
use crate::forms::AccountDialog;
use crate::json::{Json, JsonView};
use crate::messages::Notification;
use crate::model::{Plane, SessionInfo};
use crate::outgoing::{
    left, lemma_an_answered_repair_leaves_no_hole, lemma_asked_holds, lemma_asking_keeps_the_watch,
    lemma_repair_call, newest, repair_method,
};
use crate::replies::{accepted_words, replied_words, Turn};
use crate::sessions::{
    but_for_turn, key_of, lemma_watch_at, waits_for, watch_at, watched, SessionsTab, Unsettled,
};
use crate::stream::Replay;
use crate::tags::{ComposerVerb, Tag, TagView};
use crate::text::{begins, said};
use crate::watch::Event;
use crate::wire::ErrorCode;

verus! {

/// The state once the question is no longer outstanding.
proof fn lemma_freed(before: App, after: App, tag: Tag, reply: Reply) -> (mid: App)
    requires
        before.answered(after, tag, Ok(reply)),
    ensures
        mid.accepted(after, tag, reply),
        mid.wf(),
        mid == (App { queue: mid.queue, ..before }),
        mid.queue@ == before.queue@.without(tag@),
{
    choose|mid: App| #[trigger]
        before.freed(mid, tag@, Ok::<Reply, Failure>(reply)) && mid.accepted(after, tag, reply)
}

proof fn lemma_freed_of_failure(before: App, after: App, tag: Tag, failure: Failure) -> (mid: App)
    requires
        before.answered(after, tag, Err(failure)),
    ensures
        mid.refused(after, tag, failure),
        mid.wf(),
        mid == (App { queue: mid.queue, connection: mid.connection, ..before }),
        mid.queue@ == before.queue@.without(tag@),
        failure.error is ConnectionClosed || failure.error is Stopped ==> mid.connection is Lost,
        failure.error is Rpc ==> mid.connection == before.connection,
{
    choose|mid: App| #[trigger]
        before.freed(mid, tag@, Err::<Reply, Failure>(failure)) && mid.refused(
            after,
            tag,
            failure,
        )
}

// ----- panels -----------------------------------------------------------------------

/// A detail that was asked for is shown beside its own list, and beside no other.
#[verifier::rlimit(60)]
pub proof fn lemma_a_detail_lands_beside_its_list(before: App, after: App, tag: Tag, value: Json)
    requires
        before.answered(after, tag, Ok(Reply::Plain(value))),
        tag is AgentState || tag is TeamState || tag is Plan || tag is ControlRun,
    ensures
        after.agents.detail.value == if tag is AgentState {
            Some(value)
        } else {
            before.agents.detail.value
        },
        after.teams.detail.value == if tag is TeamState {
            Some(value)
        } else {
            before.teams.detail.value
        },
        after.plans.detail.value == if tag is Plan {
            Some(value)
        } else {
            before.plans.detail.value
        },
        after.control.detail.value == if tag is ControlRun {
            Some(value)
        } else {
            before.control.detail.value
        },
        after.agents.rows == before.agents.rows,
        after.teams.rows == before.teams.rows,
        after.plans.rows == before.plans.rows,
        after.control.rows == before.control.rows,
        after.sessions == before.sessions,
        after.upgrade == before.upgrade,
{
    let mid = lemma_freed(before, after, tag, Reply::Plain(value));
    assert(mid.panel_filled(after, tag, value));
}

/// A list that was asked for fills its own panel, and no other.
#[verifier::rlimit(60)]
pub proof fn lemma_a_list_lands_in_its_own_panel(before: App, after: App, tag: Tag, value: Json)
    requires
        before.answered(after, tag, Ok(Reply::Plain(value))),
        tag is Agents || tag is Teams || tag is Plans || tag is ControlRuns,
    ensures
        tag is Agents ==> after.agents.rows.value is Some && after.agents.rows.error is None,
        tag is Teams ==> after.teams.rows.value is Some && after.teams.rows.error is None,
        tag is Plans ==> after.plans.rows.value is Some && after.plans.rows.error is None,
        tag is ControlRuns ==> after.control.rows.value is Some && after.control.rows.error is None,
        !(tag is Agents) ==> after.agents == before.agents,
        !(tag is Teams) ==> after.teams == before.teams,
        !(tag is Plans) ==> after.plans == before.plans,
        !(tag is ControlRuns) ==> after.control == before.control,
        after.sessions == before.sessions,
        after.upgrade == before.upgrade,
{
    let mid = lemma_freed(before, after, tag, Reply::Plain(value));
    assert(mid.panel_filled(after, tag, value));
}

/// Each section of the upgrade tab takes the answer to its own question.
#[verifier::rlimit(60)]
pub proof fn lemma_an_upgrade_answer_lands_in_its_section(
    before: App,
    after: App,
    tag: Tag,
    value: Json,
)
    requires
        before.answered(after, tag, Ok(Reply::Plain(value))),
        tag is UpgradeStatus || tag is Rollouts || tag is History || tag is Signing || tag is Grants,
    ensures
        after.upgrade.status.value == if tag is UpgradeStatus {
            Some(value)
        } else {
            before.upgrade.status.value
        },
        after.upgrade.rollouts.value == if tag is Rollouts {
            Some(value)
        } else {
            before.upgrade.rollouts.value
        },
        after.upgrade.history.value == if tag is History {
            Some(value)
        } else {
            before.upgrade.history.value
        },
        after.upgrade.signing.value == if tag is Signing {
            Some(value)
        } else {
            before.upgrade.signing.value
        },
        after.upgrade.grants.value == if tag is Grants {
            Some(value)
        } else {
            before.upgrade.grants.value
        },
        after.agents == before.agents,
        after.sessions == before.sessions,
{
    let mid = lemma_freed(before, after, tag, Reply::Plain(value));
    assert(mid.panel_filled(after, tag, value));
}

/// A list of sessions replaces that of its own plane, and that of the other plane stays.
#[verifier::rlimit(60)]
pub proof fn lemma_sessions_are_listed_by_plane(
    before: App,
    after: App,
    plane: Plane,
    sessions: Vec<SessionInfo>,
    conflicts: Vec<Conflict>,
)
    requires
        before.answered(
            after,
            Tag::Sessions { plane },
            Ok(Reply::Sessions { sessions, conflicts }),
        ),
    ensures
        plane == Plane::Interactive ==> after.sessions.interactive.value == Some(sessions)
            && after.sessions.coding == before.sessions.coding,
        plane == Plane::Coding ==> after.sessions.coding.value == Some(sessions)
            && after.sessions.interactive == before.sessions.interactive,
{
    let tag = Tag::Sessions { plane };
    let mid = lemma_freed(before, after, tag, Reply::Sessions { sessions, conflicts });
    assert(mid.sessions_listed(after, plane, sessions, conflicts@));
}

/// A status that is read is the one shown, and sessions are looked for again with it.
pub proof fn lemma_a_status_is_shown(before: App, after: App, status: RuntimeStatus)
    requires
        before.answered(after, Tag::Status, Ok(Reply::Status(status))),
    ensures
        after.status.value == Some(status),
        after.status.error is None,
        !after.status.pending,
        after.errands@ == before.errands@.push(Errand::RecoverSessions),
{
    let mid = lemma_freed(before, after, Tag::Status, Reply::Status(status));
}

// ----- the account ------------------------------------------------------------------

/// An account that is connected closes the dialog that waited for it, and becomes the default only
/// where nothing was chosen before.
#[verifier::rlimit(60)]
pub proof fn lemma_a_connected_account_is_taken_up(before: App, after: App, account: AccountState)
    requires
        before.answered(after, Tag::Account, Ok(Reply::Account(account))),
    ensures
        after.account.value == Some(account),
        account.connected && before.overlay is Some && before.overlay->0 is Account
            ==> after.overlay is None,
        !account.connected ==> after.config == before.config,
        before.config.provider is Some ==> after.config == before.config,
        account.connected && before.config.provider is None ==> said(after.config.provider) == Some(
            "native"@,
        ) && after.save_pending,
        !(before.overlay is Some && before.overlay->0 is Account) ==> after.overlay == before.overlay,
{
    let mid = lemma_freed(before, after, Tag::Account, Reply::Account(account));
    assert(mid.account_read(after, account));
}

// ----- failures ---------------------------------------------------------------------

/// Only a gateway that says no is certain: a failure on the way, a gateway that stopped waiting and
/// an answer that says itself that it does not know leave the outcome open.
pub proof fn lemma_only_a_refusal_is_certain(failure: Failure)
    ensures
        !(failure.error is Rpc) ==> failure.unknown(),
        failure.error is Rpc && failure.outcome_unknown ==> failure.unknown(),
        failure.error is Rpc && (failure.error->Rpc_0).code == ErrorCode::UpstreamTimeout
            ==> failure.unknown(),
        failure.error is Rpc && !failure.outcome_unknown && (failure.error->Rpc_0).code
            != ErrorCode::UpstreamTimeout ==> !failure.unknown(),
{
}

/// A start that got no answer may have taken effect. Its prompt stays, under the id it was sent
/// with, so that the next submission asks for the same session again.
#[verifier::rlimit(60)]
pub proof fn lemma_a_lost_start_keeps_its_prompt(
    before: App,
    after: App,
    plane: Plane,
    id: String,
    failure: Failure,
)
    requires
        before.answered(after, Tag::Start { plane, id: Some(id) }, Err(failure)),
        !(failure.error is Rpc),
        before.first_message is Some,
        before.first_message->0.start.id@ == id@,
    ensures
        after.first_message is Some,
        after.first_message->0.input == before.first_message->0.input,
        after.first_message->0.turn_id == before.first_message->0.turn_id,
        after.first_message->0.start == before.first_message->0.start,
        after.first_message->0.start_outcome_unknown,
        !after.home_pending,
{
    let mid = lemma_freed_of_failure(before, after, Tag::Start { plane, id: Some(id) }, failure);
}

/// A start that was refused never was: its prompt comes back to be written again, and goes to no
/// session that starts later.
#[verifier::rlimit(60)]
pub proof fn lemma_a_refused_start_gives_its_prompt_back(
    before: App,
    after: App,
    plane: Plane,
    id: String,
    failure: Failure,
)
    requires
        before.answered(after, Tag::Start { plane, id: Some(id) }, Err(failure)),
        failure.error is Rpc,
        !failure.outcome_unknown,
        (failure.error->Rpc_0).code != ErrorCode::UpstreamTimeout,
        before.first_message is Some,
        before.first_message->0.start.id@ == id@,
    ensures
        after.first_message is None,
        said(after.desktop_restored_draft) == Some(before.first_message->0.input@),
        key_of(after.sessions.open) == key_of(before.sessions.open),
{
    let mid = lemma_freed_of_failure(before, after, Tag::Start { plane, id: Some(id) }, failure);
}

/// The session that a start was answered with is the one that opens.
#[verifier::rlimit(60)]
pub proof fn lemma_a_started_session_is_opened(
    before: App,
    after: App,
    plane: Plane,
    id: Option<String>,
    started: String,
    written: String,
)
    requires
        before.answered(
            after,
            Tag::Start { plane, id },
            Ok(Reply::Started { id: Some(started), written }),
        ),
        id is Some ==> id->0@ == started@,
    ensures
        key_of(after.sessions.open) == Some((plane, started@)),
        watched(after.sessions.watches@, plane, started@),
        after.overlay is None,
        !after.home_pending,
        after.first_message is None,
{
    let reply = Reply::Started { id: Some(started), written };
    let mid = lemma_freed(before, after, Tag::Start { plane, id }, reply);
    assert(mid.start_answered(after, plane, said(id), Some(started@), written@));
    let settled = mid.background_settled(said(id));
    assert(settled.session_started(after, plane, started@));
    let (cleared, opened) = choose|cleared: App, opened: App| #[trigger]
        settled.start_cleared(cleared) && cleared.session_opened(opened, plane, started@)
            && #[trigger] opened.first_sent(after, plane, started@);
    let shown = choose|shown: App| #[trigger]
        cleared.opened(shown, plane, started@) && shown.resynced(opened, plane, started@, true);
    assert(shown.overlay is None && !shown.home_pending);
    let at = watch_at(shown.sessions.watches@, plane, started@);
    lemma_asking_keeps_the_watch(shown, opened, plane, started@, true, at);
    assert(opened.sessions.open == shown.sessions.open);
    assert(after.sessions.watches == opened.sessions.watches);
    assert(opened.sessions.watches@[at].is(plane, started@));
}

/// A start that was answered with another session than it asked for opens neither.
#[verifier::rlimit(60)]
pub proof fn lemma_another_session_is_not_opened(
    before: App,
    after: App,
    plane: Plane,
    id: String,
    started: String,
    written: String,
)
    requires
        before.answered(
            after,
            Tag::Start { plane, id: Some(id) },
            Ok(Reply::Started { id: Some(started), written }),
        ),
        id@ != started@,
    ensures
        after.sessions == before.sessions,
        before.holds_prompt_of(Some(id@)) ==> after.first_message is Some
            && after.first_message->0.start_outcome_unknown,
{
    let reply = Reply::Started { id: Some(started), written };
    let mid = lemma_freed(before, after, Tag::Start { plane, id: Some(id) }, reply);
}

/// An approval whose answer did not arrive can be answered again.
#[verifier::rlimit(60)]
pub proof fn lemma_a_failed_answer_can_be_given_again(
    before: App,
    after: App,
    plane: Plane,
    id: String,
    request_id: String,
    failure: Failure,
    i: int,
)
    requires
        before.answered(after, Tag::Approval { plane, id, request_id }, Err(failure)),
        before.wf(),
        watched(before.sessions.watches@, plane, id@),
        ({
            let watch = before.sessions.watches@[watch_at(before.sessions.watches@, plane, id@)];
            0 <= i < watch.approvals@.len() && watch.approvals@[i].request.request_id@ == request_id@
        }),
    ensures
        after.can_claim(plane, id@, request_id@),
        after.notice is Some,
{
    let tag = Tag::Approval { plane, id, request_id };
    let mid = lemma_freed_of_failure(before, after, tag, failure);
    assert(mid.approval_refused(after, plane, id@, request_id@, failure));
    let back = choose|back: App| #[trigger]
        mid.approval_returned(back, plane, id@, request_id@) && back.said_failed(
            after,
            "respond_approval"@,
            id@,
            failure,
        );
    let watches = mid.sessions.watches@;
    let at = watch_at(watches, plane, id@);
    let now = back.sessions.watches@;
    assert(now[at].approvals@[i].request.request_id@ == request_id@);
    assert(!now[at].approvals@[i].answering);
    assert(now[at].awaits(request_id@));
    assert(now[at].is(plane, id@));
    lemma_watch_at(now, at);
    assert(after.sessions == back.sessions);
}

// ----- turns ------------------------------------------------------------------------

/// A turn that nobody answered is never a new turn: its text is back in the composer under the id
/// that it went out with, or it waits, under that id, to be sent again before anything newer.
#[verifier::rlimit(60)]
pub proof fn lemma_a_lost_turn_keeps_its_id(before: App, after: App, turn: Turn, failure: Failure)
    requires
        before.answered(after, turn_tag(turn), Err(failure)),
        !(failure.error is Rpc),
        turn.turn_id is Some,
        turn.verb != ComposerVerb::Steer,
    ensures
        ({
            ||| key_of(after.sessions.open) == Some((turn.plane, turn.id@))
                && after.sessions.composer is Some && after.sessions.composer->0.editor.text@
                == turn.input@ && said(after.sessions.composer->0.next_turn_id) == Some(
                turn.turn_id->0@,
            )
            ||| waits_for(
                after.sessions.pending_reconciliations@,
                turn.plane,
                turn.id@,
                turn.turn_id->0@,
            )
        }),
        after.sessions.pending_replies == before.sessions.pending_replies,
{
    let mid = lemma_freed_of_failure(before, after, turn_tag(turn), failure);
    assert(mid.turn_refused(after, turn, failure));
    let restored = lemma_refused_turn(mid, after, turn, failure);
    let (cleared, restore) = restored;
    lemma_taken_back(cleared.sessions, after.sessions, restore);
}

/// A turn that the gateway refused is over. Its text goes back into the empty composer of its
/// session without an id, so that it goes out as a turn of its own, and no reply is waited for.
#[verifier::rlimit(60)]
pub proof fn lemma_a_refused_turn_starts_over(before: App, after: App, turn: Turn, failure: Failure)
    requires
        before.answered(after, turn_tag(turn), Err(failure)),
        failure.error is Rpc,
        !failure.outcome_unknown,
        (failure.error->Rpc_0).code != ErrorCode::UpstreamTimeout,
        !turn.reconciling,
        key_of(before.sessions.open) == Some((turn.plane, turn.id@)),
        before.sessions.composer is Some,
        before.sessions.composer->0.editor.blank(),
    ensures
        after.sessions.composer is Some,
        after.sessions.composer->0.editor.text@ == turn.input@,
        after.sessions.composer->0.next_turn_id is None,
        after.sessions.composer->0.verb == if turn.verb == ComposerVerb::Message && failure.busy {
            ComposerVerb::FollowUp
        } else {
            turn.verb
        },
        turn.label@ == "send_message"@ || turn.label@ == "follow_up"@
            ==> !after.sessions.pending_replies@.contains((turn.plane, turn.id@)),
        after.sessions.pending_reconciliations == before.sessions.pending_reconciliations,
{
    let mid = lemma_freed_of_failure(before, after, turn_tag(turn), failure);
    assert(mid.turn_refused(after, turn, failure));
    let restored = lemma_refused_turn(mid, after, turn, failure);
    let (cleared, restore) = restored;
    assert(cleared.sessions.takes_back(restore));
}

/// The tag a turn goes out under.
pub open spec fn turn_tag(turn: Turn) -> Tag {
    Tag::ComposerAction {
        label: turn.label,
        verb: turn.verb,
        plane: turn.plane,
        id: turn.id,
        turn_id: turn.turn_id,
        input: turn.input,
        reconciling: turn.reconciling,
        submission_sequence: turn.submission_sequence,
    }
}

#[verifier::rlimit(60)]
proof fn lemma_refused_turn(mid: App, after: App, turn: Turn, failure: Failure) -> (r: (App, Restore))
    requires
        mid.turn_refused(after, turn, failure),
        !failure.unknown() ==> !turn.reconciling,
    ensures
        mid.reply_cleared(r.0, turn.plane, turn.id@, turn.ends_wait(failure)),
        turn.comes_back(
            r.1,
            turn.retry_verb(failure.says_busy()),
            failure.unknown() && turn.verb != ComposerVerb::Steer,
            failure.unknown(),
            failure.diagnosis(),
            failed_words(turn.label@, turn.id@, failure, mid.hello.scope@),
        ),
        r.0.submission_restored(after, r.1),
{
    let words = failed_words(turn.label@, turn.id@, failure, mid.hello.scope@);
    let unknown = failure.unknown();
    let verb = turn.retry_verb(failure.says_busy());
    let keeps = unknown && turn.verb != ComposerVerb::Steer;
    let cleared = choose|cleared: App| #[trigger]
        mid.reply_cleared(cleared, turn.plane, turn.id@, turn.ends_wait(failure))
            && cleared.restoring(after, turn, verb, keeps, unknown, failure.diagnosis(), words);
    let restore = choose|restore: Restore| #[trigger]
        turn.comes_back(restore, verb, keeps, unknown, failure.diagnosis(), words)
            && cleared.submission_restored(after, restore);
    (cleared, restore)
}

proof fn lemma_taken_back(before: SessionsTab, after: SessionsTab, restore: Restore)
    requires
        before.takes(after, restore),
        restore.turn_id is Some,
    ensures
        ({
            ||| key_of(after.open) == Some((restore.plane, restore.id@)) && after.composer is Some
                && after.composer->0.editor.text@ == restore.input@ && said(
                after.composer->0.next_turn_id,
            ) == Some(restore.turn_id->0@)
            ||| waits_for(
                after.pending_reconciliations@,
                restore.plane,
                restore.id@,
                restore.turn_id->0@,
            )
        }),
{
    if !before.takes_back(restore) && !waits_for(
        before.pending_reconciliations@,
        restore.plane,
        restore.id@,
        restore.turn_id->0@,
    ) {
        let last = after.pending_reconciliations@.len() - 1;
        assert(after.pending_reconciliations@[last].turn_id@ == restore.turn_id->0@);
    }
}

// ----- repairs ----------------------------------------------------------------------

/// A repair closes the hole it was asked for, from the question to its answer: where the gateway
/// answers with every event above the cursor that was sent to it, no event from the floor up to
/// the last one answered is missing afterwards.
#[verifier::rlimit(60)]
pub proof fn lemma_an_answer_closes_the_hole(
    before: App,
    asked: App,
    met: App,
    after: App,
    tag: Tag,
    plane: Plane,
    id: String,
    subscribe: bool,
    sent: u64,
    asked_from: u64,
    events: Vec<Event>,
    refused: u64,
    s: u64,
)
    requires
        before.wf(),
        before.resynced(asked, plane, id@, subscribe),
        asked.queue@.outbound != before.queue@.outbound,
        newest(asked).params.member("cursor"@) == Some(JsonView::Unsigned(sent)),
        // The answer comes back by the tag of the question.
        tag == (Tag::Resync { plane, id, cursor: asked_from, subscribe }),
        newest(asked).tag == tag@,
        // The watch may have grown meanwhile.
        met.wf(),
        watched(met.sessions.watches@, plane, id@),
        ({
            let was = before.sessions.watches@[watch_at(before.sessions.watches@, plane, id@)];
            let now = met.sessions.watches@[watch_at(met.sessions.watches@, plane, id@)];
            &&& now.floor == was.floor
            &&& was.held@.to_set().subset_of(now.held@.to_set())
        }),
        met.answered(after, tag, Ok(Reply::Replay(Replay::Events { events, refused }))),
        forall|i: int| 0 <= i < events@.len() ==> (#[trigger] events@[i]).sequence == sent + 1 + i,
        before.sessions.watches@[watch_at(before.sessions.watches@, plane, id@)].floor < s <= sent
            + events@.len(),
    ensures
        watched(after.sessions.watches@, plane, id@),
        after.sessions.watches@[watch_at(after.sessions.watches@, plane, id@)].held@.contains(s),
{
    let mid = lemma_freed(met, after, tag, Reply::Replay(Replay::Events { events, refused }));
    lemma_an_answered_repair_leaves_no_hole(
        before,
        asked,
        mid,
        after,
        plane,
        id@,
        subscribe,
        sent,
        asked_from,
        events,
        refused,
        s,
    );
}

// ----- notifications ----------------------------------------------------------------

/// The plane whose events a notification brings.
pub open spec fn event_plane(method: Seq<char>) -> Option<Plane> {
    if method == "interactive.event"@ {
        Some(Plane::Interactive)
    } else if method == "coding.event"@ {
        Some(Plane::Coding)
    } else {
        None
    }
}

/// What an event leaves of every watch: the one it is for holds it, and no watch loses anything.
#[verifier::rlimit(60)]
proof fn lemma_evented_watches(
    before: App,
    after: App,
    plane: Plane,
    id: Seq<char>,
    event: Event,
    i: int,
)
    requires
        before.wf(),
        before.evented(after, plane, id, event),
        watched(before.sessions.watches@, plane, id),
        0 <= i < before.sessions.watches@.len(),
    ensures
        after.sessions.watches@.len() == before.sessions.watches@.len(),
        after.wf(),
        ({
            let at = watch_at(before.sessions.watches@, plane, id);
            let (was, now) = (before.sessions.watches@[i], after.sessions.watches@[i]);
            &&& now.plane == was.plane && now.id == was.id && now.floor == was.floor
            &&& i != at ==> now.held == was.held
            &&& i == at ==> was.held@.to_set().subset_of(now.held@.to_set())
            &&& i == at && event.sequence > was.floor ==> now.held@.contains(event.sequence)
        }),
{
    let watches = before.sessions.watches@;
    let at = watch_at(watches, plane, id);
    let (taken, repaired) = if event.kind is ApprovalRequested {
        choose|taken: App, repaired: App| #[trigger]
            before.took_event(taken, plane, id, event) && (if taken.sessions.watches@[at].gap() {
                taken.resynced(repaired, plane, id, false)
            } else {
                repaired == taken
            }) && #[trigger] repaired.approval_opened(after, plane, id)
    } else {
        (
            choose|taken: App| #[trigger]
                before.took_event(taken, plane, id, event) && (if taken.sessions.watches@[at].gap() {
                    taken.resynced(after, plane, id, false)
                } else {
                    after == taken
                }),
            after,
        )
    };
    if repaired != taken {
        lemma_asking_keeps_the_watch(taken, repaired, plane, id, false, i);
    }
    assert(after.sessions == repaired.sessions);
    let (was, now) = (watches[at], taken.sessions.watches@[at]);
    lemma_asked_holds(was.held@.to_set(), was.floor, was.approvals@, seq![event]);
    assert(seq![event][0] == event);
    if event.sequence > was.floor {
        assert(now.held@.to_set().contains(event.sequence));
    }
}

/// An event that arrives is held by the watch of its session on its own plane, and by no other.
#[verifier::rlimit(60)]
pub proof fn lemma_an_event_is_held_by_its_session(
    before: App,
    after: App,
    n: Notification,
    plane: Plane,
    event: Event,
    i: int,
)
    requires
        before.wf(),
        before.notified(after, n),
        event_plane(n.method@) == Some(plane),
        n.event == Some(event),
        watched(before.sessions.watches@, plane, n.id@),
        0 <= i < before.sessions.watches@.len(),
    ensures
        after.sessions.watches@.len() == before.sessions.watches@.len(),
        ({
            let (was, now) = (before.sessions.watches@[i], after.sessions.watches@[i]);
            &&& now.plane == was.plane && now.id == was.id && now.floor == was.floor
            &&& was.is(plane, n.id@) && event.sequence > was.floor ==> now.held@.contains(
                event.sequence,
            )
            &&& was.is(plane, n.id@) ==> was.held@.to_set().subset_of(now.held@.to_set())
            &&& !was.is(plane, n.id@) ==> now.held == was.held
        }),
{
    reveal_strlit("interactive.event");
    reveal_strlit("coding.event");
    assert("interactive.event"@.len() != "coding.event"@.len());
    let watches = before.sessions.watches@;
    let at = watch_at(watches, plane, n.id@);
    assert(before.evented(after, plane, n.id@, event));
    lemma_evented_watches(before, after, plane, n.id@, event, i);
    if watches[i].is(plane, n.id@) {
        lemma_watch_at(watches, i);
    } else {
        assert(watches[at].is(plane, n.id@));
    }
}

/// The status a stream ended with is that of its session, which is not waited for any more.
#[verifier::rlimit(60)]
pub proof fn lemma_an_ended_stream_is_over(before: App, after: App, n: Notification, plane: Plane)
    requires
        before.wf(),
        before.notified(after, n),
        n.method@ == "stream.ended"@,
        n.plane == Some(plane),
        watched(before.sessions.watches@, plane, n.id@),
    ensures
        ({
            let at = watch_at(before.sessions.watches@, plane, n.id@);
            &&& after.sessions.watches@.len() == before.sessions.watches@.len()
            &&& after.sessions.watches@[at].ended == Some(n.status)
            &&& forall|k: int|
                0 <= k < before.sessions.watches@.len() && k != at ==> (
                #[trigger] after.sessions.watches@[k]) == before.sessions.watches@[k]
        }),
        !after.sessions.pending_replies@.contains((plane, n.id@)),
{
    lemma_notification_names();
    let watches = before.sessions.watches@;
    let at = watch_at(watches, plane, n.id@);
    assert(watches[at].is(plane, n.id@));
    assert(before.end_taken(after, n.plane, n.id@, n.status));
    assert(!before.nowhere(n.id@));
}

proof fn lemma_notification_names()
    ensures
        "interactive.event"@.len() == 17,
        "coding.event"@.len() == 12 && "coding.event"@[0] == 'c',
        "stream.lagged"@.len() == 13,
        "stream.ended"@.len() == 12 && "stream.ended"@[0] == 's',
{
    reveal_strlit("interactive.event");
    reveal_strlit("coding.event");
    reveal_strlit("stream.lagged");
    reveal_strlit("stream.ended");
}

/// Frames that the gateway dropped are counted against their session and asked for again from its
/// cursor, where the session can be repaired at all.
#[verifier::rlimit(60)]
pub proof fn lemma_dropped_frames_are_asked_for_again(
    before: App,
    after: App,
    n: Notification,
    plane: Plane,
)
    requires
        before.wf(),
        before.notified(after, n),
        n.method@ == "stream.lagged"@,
        n.plane == Some(plane),
        watched(before.sessions.watches@, plane, n.id@),
        ({
            let watch = before.sessions.watches@[watch_at(
                before.sessions.watches@,
                plane,
                n.id@,
            )];
            &&& watch.ended is None
            &&& !watch.resyncing
            &&& watch.dropped + n.dropped <= u64::MAX
            &&& before.hello.lists(repair_method(plane, false))
            &&& !before.queue@.in_flight.contains(
                TagView::Resync {
                    plane,
                    id: n.id@,
                    cursor: watch.at() as u64,
                    subscribe: false,
                },
            )
        }),
    ensures
        ({
            let at = watch_at(before.sessions.watches@, plane, n.id@);
            let (was, now) = (before.sessions.watches@[at], after.sessions.watches@[at]);
            &&& now.dropped == was.dropped + n.dropped
            &&& now.resyncing
            &&& left(before, after)
            &&& newest(after).method == repair_method(plane, false)
            &&& newest(after).params.member_text("id"@) == Some(n.id@)
            &&& newest(after).params.member("cursor"@) == Some(
                JsonView::Unsigned(was.at() as u64),
            )
        }),
{
    lemma_notification_names();
    let watches = before.sessions.watches@;
    let at = watch_at(watches, plane, n.id@);
    assert(watches[at].is(plane, n.id@));
    assert(!before.nowhere(n.id@));
    assert(before.lag_taken(after, n.plane, n.id@, n.dropped, n.last_sequence));
    let noted = choose|noted: App| #[trigger]
        before.lag_noted(noted, at, n.id@, n.dropped, n.last_sequence) && noted.resynced(
            after,
            plane,
            n.id@,
            false,
        );
    let now = noted.sessions.watches@;
    assert(now[at].is(plane, n.id@));
    lemma_watch_at(now, at);
    lemma_repair_call(plane, n.id@, watches[at].at() as u64, false);
    assert(noted.next_round(plane, n.id@) == 1);
    assert(after.queue@.outbound.drop_last() =~= before.queue@.outbound);
}

/// The first event that shows a request has reached its session ends the wait for a reply, and an
/// event of another kind does not.
pub proof fn lemma_an_event_ends_the_wait(
    before: App,
    taken: App,
    plane: Plane,
    id: Seq<char>,
    event: Event,
)
    requires
        before.took_event(taken, plane, id, event),
    ensures
        event.kind is OutputTextDelta || event.kind is TurnStarted || event.kind is InputAccepted
            || event.kind is TurnCompleted || event.kind is TurnFailed || event.kind
            is ApprovalRequested ==> !taken.sessions.pending_replies@.contains((plane, id)),
        event.kind is Other ==> taken.sessions.pending_replies@ == before.sessions.pending_replies@,
        taken.cursors@.contains_key((plane, id)),
{
}

/// What a sign-in is answered with is what the dialog shows: its id, its code, and the address that
/// the browser opens, but only where that is a secure one.
pub proof fn lemma_a_sign_in_shows_what_was_answered(
    before: App,
    after: App,
    dialog: AccountDialog,
    value: JsonView,
)
    requires
        before.login_shown(after, dialog, value),
    ensures
        after.overlay is Some && after.overlay->0 is Account,
        ({
            let now = *(after.overlay->0->Account_0);
            &&& now.pending
            &&& said(now.login_id) == value.member_text("loginId"@)
            &&& said(now.code) == value.member_text("userCode"@)
            &&& value.member("authUrl"@) is Some ==> said(now.url) == value.member_text("authUrl"@)
            &&& value.member("authUrl"@) is None ==> said(now.url) == value.member_text(
                "verificationUrl"@,
            )
            &&& now.error is None
            &&& said(after.open_url_pending) != said(before.open_url_pending) ==> said(
                after.open_url_pending,
            ) == said(now.url) && after.open_url_pending is Some
                && after.open_url_pending->0@.len() >= 8 && after.open_url_pending->0@.take(8)
                == "https://"@
        }),
{
    reveal_strlit("https://");
    let url = App::login_url(value);
    if url is Some && begins(url->0, "https://"@) {
        assert(url->0.take(8) =~= "https://"@);
    }
}

// ----- actions ----------------------------------------------------------------------

/// A session leaves the list exactly where its own removal was accepted: an answer to anything else
/// removes nothing.
#[verifier::rlimit(60)]
pub proof fn lemma_only_a_removal_removes(
    before: App,
    after: App,
    label: &'static str,
    plane: Plane,
    id: String,
    turn_id: Option<String>,
    value: Json,
)
    requires
        before.answered(after, Tag::Action { label, plane, id, turn_id }, Ok(Reply::Plain(value))),
    ensures
        label@ == "remove"@ ==> after.errands@ == before.errands@.push(
            Errand::Removed { plane, id },
        ),
        label@ == "close"@ || label@ == "kill"@ || label@ == "interrupt"@ || label@ == "rename"@
            ==> after.errands@ == before.errands@ + seq![
            Errand::RefreshSessions,
            Errand::ResumePicker,
        ] && after.notice is Some && after.notice->0.text@.take(label@.len() as int) == label@,
        after.sessions == before.sessions,
{
    reveal_strlit("remove");
    reveal_strlit("close");
    reveal_strlit("kill");
    reveal_strlit("interrupt");
    reveal_strlit("rename");
    reveal_strlit("preview");
    reveal_strlit("admit");
    reveal_strlit("list capabilities");
    assert("remove"@.len() == 6 && "remove"@[2] == 'm');
    assert("rename"@.len() == 6 && "rename"@[2] == 'n');
    assert("close"@.len() == 5 && "close"@[0] == 'c');
    assert("admit"@.len() == 5 && "admit"@[0] == 'a');
    assert("kill"@.len() == 4);
    assert("interrupt"@.len() == 9);
    assert("preview"@.len() == 7);
    assert("list capabilities"@.len() == 17);
    let tag = Tag::Action { label, plane, id, turn_id };
    let mid = lemma_freed(before, after, tag, Reply::Plain(value));
    assert(mid.action_accepted(after, tag, value));
    if label@ == "remove"@ {
        assert(after.errands@ == mid.errands@.push(Errand::Removed { plane, id }));
    } else if label@ == "close"@ || label@ == "kill"@ || label@ == "interrupt"@ || label@
        == "rename"@ {
        let words = accepted_words(label@, id@);
        assert(words.take(label@.len() as int) =~= label@);
    }
}

/// What is said of a verb that was refused begins with the verb. A scope that is too small is named;
/// an outcome that is not known is not called a refusal.
#[verifier::rlimit(60)]
pub proof fn lemma_a_refusal_names_its_verb(
    label: Seq<char>,
    id: Seq<char>,
    failure: Failure,
    scope: Seq<char>,
)
    ensures
        failed_words(label, id, failure, scope).take(label.len() as int) == label,
        failure.error is Rpc && (failure.error->Rpc_0).code == ErrorCode::ScopeDenied
            ==> failed_words(label, id, failure, scope).subrange(
            label.len() as int + 43,
            label.len() as int + 43 + scope.len(),
        ) == scope,
        !(failure.error is Rpc) ==> failed_words(label, id, failure, scope).skip(
            failed_words(label, id, failure, scope).len() - failure.error.words().len(),
        ) == failure.error.words(),
{
    reveal_strlit(" was refused: this listener runs at scope `");
    reveal_strlit("` and ");
    reveal_strlit(" mutates the runtime");
    reveal_strlit(" on ");
    reveal_strlit(" failed: ");
    let words = failed_words(label, id, failure, scope);
    assert(words.take(label.len() as int) =~= label);
    if failure.error is Rpc && (failure.error->Rpc_0).code == ErrorCode::ScopeDenied {
        assert(words.subrange(label.len() as int + 43, label.len() as int + 43 + scope.len())
            =~= scope);
    }
    if !(failure.error is Rpc) {
        let n = failure.error.words().len();
        assert(words.skip(words.len() - n) =~= failure.error.words());
    }
}

// ----- replies ----------------------------------------------------------------------

/// A reply that the outcome is not known leaves the turn its id, and a rejection takes it away; a
/// turn that was accepted gives its composer nothing back.
#[verifier::rlimit(60)]
pub proof fn lemma_a_reply_decides_over_the_turn(
    before: App,
    after: App,
    turn: Turn,
    reply: TurnReply,
    busy: bool,
    diagnostic: String,
)
    requires
        before.answered(after, turn_tag(turn), Ok(Reply::Turn { reply, busy, diagnostic })),
        !turn.reconciling,
        turn.turn_id is Some,
        turn.verb != ComposerVerb::Steer,
        key_of(before.sessions.open) == Some((turn.plane, turn.id@)),
        before.sessions.composer is Some,
        before.sessions.composer->0.editor.blank(),
    ensures
        reply is Accepted ==> after.sessions == before.sessions,
        !(reply is Accepted) ==> after.sessions.composer is Some
            && after.sessions.composer->0.editor.text@ == turn.input@,
        reply is OutcomeUnknown ==> said(after.sessions.composer->0.next_turn_id) == Some(
            turn.turn_id->0@,
        ),
        reply is Rejected ==> after.sessions.composer->0.next_turn_id is None
            && !after.sessions.pending_replies@.contains((turn.plane, turn.id@)),
{
    let mid = lemma_freed(before, after, turn_tag(turn), Reply::Turn { reply, busy, diagnostic });
    assert(mid.turn_replied(after, turn, reply, busy, diagnostic@));
    let words = replied_words(turn.label@, turn.id@, diagnostic@);
    match reply {
        TurnReply::Accepted => {},
        TurnReply::OutcomeUnknown => {
            let plain = words + "; the exact draft and turn id were restored"@;
            let restore = choose|restore: Restore| #[trigger]
                turn.comes_back(restore, turn.verb, true, true, diagnostic@, plain)
                    && mid.submission_restored(after, restore);
            assert(mid.sessions.takes_back(restore));
        },
        TurnReply::Rejected => {
            let cleared = choose|cleared: App| #[trigger]
                mid.reply_cleared(cleared, turn.plane, turn.id@, turn.owes_reply())
                    && cleared.restoring(
                    after,
                    turn,
                    turn.retry_verb(busy),
                    false,
                    false,
                    diagnostic@,
                    words,
                );
            let restore = choose|restore: Restore| #[trigger]
                turn.comes_back(restore, turn.retry_verb(busy), false, false, diagnostic@, words)
                    && cleared.submission_restored(after, restore);
            assert(cleared.sessions.takes_back(restore));
        },
    }
}

/// A first message that nobody answered keeps its turn's id in the composer of its session, and one
/// that was refused is free to go out as a turn of its own.
#[verifier::rlimit(60)]
pub proof fn lemma_a_lost_first_message_keeps_its_id(
    before: App,
    after: App,
    id: String,
    turn_id: String,
    input: String,
    submission_sequence: u64,
    failure: Failure,
)
    requires
        before.answered(
            after,
            Tag::FirstMessage {
                plane: Plane::Interactive,
                id,
                turn_id,
                input,
                submission_sequence,
            },
            Err(failure),
        ),
        key_of(before.sessions.open) == Some((Plane::Interactive, id@)),
        before.sessions.composer is None || before.sessions.composer->0.editor.blank(),
    ensures
        after.sessions.composer is Some,
        after.sessions.composer->0.editor.text@ == input@,
        !(failure.error is Rpc) ==> said(after.sessions.composer->0.next_turn_id) == Some(turn_id@),
        failure.error is Rpc && !failure.outcome_unknown && (failure.error->Rpc_0).code
            != ErrorCode::UpstreamTimeout ==> after.sessions.composer->0.next_turn_id is None,
        key_of(after.sessions.open) == Some((Plane::Interactive, id@)),
{
    let tag = Tag::FirstMessage {
        plane: Plane::Interactive,
        id,
        turn_id,
        input,
        submission_sequence,
    };
    let mid = lemma_freed_of_failure(before, after, tag, failure);
    assert(mid.first_refused(after, Plane::Interactive, id@, turn_id@, input@, failure));
}

proof fn lemma_but_for_turn(list: Seq<Unsettled>, plane: Plane, id: Seq<char>, turn_id: Seq<char>)
    ensures
        !waits_for(but_for_turn(list, plane, id, turn_id), plane, id, turn_id),
        forall|p: Plane, i: Seq<char>, t: Seq<char>|
            (p, i, t) != (plane, id, turn_id) ==> (#[trigger] waits_for(
                but_for_turn(list, plane, id, turn_id),
                p,
                i,
                t,
            ) <==> waits_for(list, p, i, t)),
    decreases list.len(),
{
    if list.len() > 0 {
        let rest = list.drop_last();
        let inner = but_for_turn(rest, plane, id, turn_id);
        let out = but_for_turn(list, plane, id, turn_id);
        lemma_but_for_turn(rest, plane, id, turn_id);
        assert(list[list.len() - 1] == list.last());
        if waits_for(out, plane, id, turn_id) {
            let k = choose|k: int|
                0 <= k < out.len() && (#[trigger] out[k]).key@ == (plane, id) && out[k].turn_id@
                    == turn_id;
            if k < inner.len() {
                assert(inner[k] == out[k]);
            }
        }
        assert forall|p: Plane, i: Seq<char>, t: Seq<char>|
            (p, i, t) != (plane, id, turn_id) implies (#[trigger] waits_for(out, p, i, t)
            <==> waits_for(list, p, i, t)) by {
            assert(waits_for(inner, p, i, t) <==> waits_for(rest, p, i, t));
            if waits_for(out, p, i, t) {
                let k = choose|k: int|
                    0 <= k < out.len() && (#[trigger] out[k]).key@ == (p, i) && out[k].turn_id@ == t;
                if k < inner.len() {
                    assert(inner[k] == out[k]);
                    let j = choose|j: int|
                        0 <= j < rest.len() && (#[trigger] rest[j]).key@ == (p, i)
                            && rest[j].turn_id@ == t;
                    assert(list[j] == rest[j]);
                }
            }
            if waits_for(list, p, i, t) {
                let j = choose|j: int|
                    0 <= j < list.len() && (#[trigger] list[j]).key@ == (p, i) && list[j].turn_id@
                        == t;
                if j < rest.len() {
                    assert(rest[j] == list[j]);
                    let k = choose|k: int|
                        0 <= k < inner.len() && (#[trigger] inner[k]).key@ == (p, i)
                            && inner[k].turn_id@ == t;
                    assert(out[k] == inner[k]);
                } else {
                    assert(out[inner.len() as int] == list[j]);
                }
            }
        }
    }
}

/// A turn that is settled waits no longer, and every other does as it did.
pub proof fn lemma_settling_a_turn_settles_no_other(
    before: SessionsTab,
    after: SessionsTab,
    plane: Plane,
    id: Seq<char>,
    turn_id: Seq<char>,
    other: Seq<char>,
)
    requires
        App::turn_settled(before, after, plane, id, turn_id),
        other != turn_id,
    ensures
        !waits_for(after.pending_reconciliations@, plane, id, turn_id),
        waits_for(after.pending_reconciliations@, plane, id, other) <==> waits_for(
            before.pending_reconciliations@,
            plane,
            id,
            other,
        ),
        after.composer == before.composer,
{
    lemma_but_for_turn(before.pending_reconciliations@, plane, id, turn_id);
}

} // verus!
