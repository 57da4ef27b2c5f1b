//! What leaves: each call that goes out, by the method it names and by what a gateway finds under
//! each member's name.

use vstd::prelude::*;

use crate::actions::{action_call, confirm_rows, quit_rows, ways_to_end};
use crate::app::{asked_queue, detail_queue, turned, App, NoticeKind, Overlay, PromptKind, Tab};
use crate::explorer::Explorer;
use crate::forms::{
    lemma_a_start_states_each_field, lemma_a_start_states_its_choices, slash_of, written,
    AccountFlow, NewSession, StartRequest,
};
use crate::json::{lemma_member_at, lemma_no_member, JsonView};
use crate::model::{ApprovalDecision, ApprovalScope, Effort, Plane};
use crate::ownership::{Mode, Quit};
use crate::press::KeyCode;
use crate::sessions::{key_of, lemma_watch_at, unsettled_at, watch_at, watched, Unsettled};
use crate::starts::message_params;
use crate::stream::{resync_call, Replay};
use crate::tags::{
    id_params, no_params, plain_call, Call, CallView, ComposerVerb, QueueView, TagView,
};
use crate::text::{said, trimmed};
use crate::watch::{lemma_the_cursor_ends_the_unbroken_run, Event, Pending, Watch};
use crate::wire::Hello;

verus! {

/// One call joined the queue, behind what was there.
pub open spec fn left(before: App, after: App) -> bool {
    &&& after.queue@.outbound.len() == before.queue@.outbound.len() + 1
    &&& after.queue@.outbound.drop_last() == before.queue@.outbound
}

/// The call that joined last.
pub open spec fn newest(after: App) -> CallView {
    after.queue@.outbound.last()
}

/// A call that is sent is served, and not outstanding, joins the queue, and nothing else changes.
pub proof fn lemma_a_served_call_joins_the_queue(before: App, after: App, call: CallView)
    requires
        before.sent(after, call),
        before.hello.lists(call.method),
        !before.queue@.in_flight.contains(call.tag),
    ensures
        left(before, after),
        newest(after) == call,
        after.queue@.in_flight == before.queue@.in_flight.insert(call.tag),
        after == (App { queue: after.queue, ..before }),
{
    assert(after.queue@.outbound.drop_last() =~= before.queue@.outbound);
}

proof fn lemma_put(before: QueueView, after: QueueView, call: CallView)
    requires
        after == before.with(call),
        !before.in_flight.contains(call.tag),
    ensures
        after.outbound.len() == before.outbound.len() + 1,
        after.outbound.drop_last() == before.outbound,
        after.outbound.last() == call,
{
    assert(after.outbound.drop_last() =~= before.outbound);
}

/// The names of members, told apart by their lengths.
proof fn lemma_names()
    ensures
        "id"@.len() == 2,
        "flow"@.len() == 4,
        "scope"@.len() == 5,
        "title"@.len() == 5,
        "limit"@.len() == 5,
        "input"@.len() == 5,
        "cursor"@.len() == 6,
        "module"@.len() == 6,
        "turn_id"@.len() == 7,
        "decision"@.len() == 8,
        "sequence"@.len() == 8,
        "login_id"@.len() == 8,
        "principal"@.len() == 9,
        "request_id"@.len() == 10,
{
    reveal_strlit("id");
    reveal_strlit("flow");
    reveal_strlit("scope");
    reveal_strlit("title");
    reveal_strlit("limit");
    reveal_strlit("input");
    reveal_strlit("cursor");
    reveal_strlit("module");
    reveal_strlit("turn_id");
    reveal_strlit("decision");
    reveal_strlit("sequence");
    reveal_strlit("login_id");
    reveal_strlit("principal");
    reveal_strlit("request_id");
}

// ----- approvals --------------------------------------------------------------------

pub open spec fn approval_method(plane: Plane) -> Seq<char> {
    match plane {
        Plane::Interactive => "interactive.respond_approval"@,
        Plane::Coding => "coding.respond_approval"@,
    }
}

proof fn lemma_approval_method(plane: Plane)
    ensures
        plane.method_of("respond_approval"@) == approval_method(plane),
{
    reveal_strlit("interactive");
    reveal_strlit("coding");
    reveal_strlit(".");
    reveal_strlit("respond_approval");
    reveal_strlit("interactive.respond_approval");
    reveal_strlit("coding.respond_approval");
    assert(plane.method_of("respond_approval"@) =~= approval_method(plane));
}

/// A call answers a request: which one, of which session, and what was decided for how long.
pub open spec fn answers_request(
    call: CallView,
    plane: Plane,
    id: Seq<char>,
    request_id: Seq<char>,
    decision: ApprovalDecision,
    scope: ApprovalScope,
) -> bool {
    &&& call.method == approval_method(plane)
    &&& call.params.member_text("id"@) == Some(id)
    &&& call.params.member_text("request_id"@) == Some(request_id)
    &&& call.params.member_text("decision"@) == Some("approve"@) <==> decision
        == ApprovalDecision::Approve
    &&& call.params.member_text("decision"@) == Some("deny"@) <==> decision
        == ApprovalDecision::Deny
    &&& call.params.member_text("scope"@) == Some("once"@) <==> scope == ApprovalScope::Once
    &&& call.params.member_text("scope"@) == Some("session"@) <==> scope == ApprovalScope::Session
}

#[verifier::rlimit(60)]
proof fn lemma_approval_call(
    plane: Plane,
    id: Seq<char>,
    request_id: Seq<char>,
    decision: ApprovalDecision,
    scope: ApprovalScope,
)
    ensures
        answers_request(
            App::approval_call(plane, id, request_id, decision, scope),
            plane,
            id,
            request_id,
            decision,
            scope,
        ),
{
    lemma_names();
    reveal_strlit("approve");
    reveal_strlit("deny");
    reveal_strlit("once");
    reveal_strlit("session");
    lemma_approval_method(plane);
    let call = App::approval_call(plane, id, request_id, decision, scope);
    let members = call.params->Object_0;
    assert("approve"@.len() != "deny"@.len());
    assert("once"@.len() != "session"@.len());
    lemma_member_at(members, "id"@, 0);
    lemma_member_at(members, "request_id"@, 1);
    lemma_member_at(members, "decision"@, 2);
    lemma_member_at(members, "scope"@, 3);
}

/// The answer to an approval carries what the operator decided: `approve` exactly where they
/// approved, `deny` exactly where they denied, and for this once or for the whole session as they
/// chose.
#[verifier::rlimit(60)]
pub proof fn lemma_an_answer_says_what_was_decided(
    before: App,
    after: App,
    plane: Plane,
    id: Seq<char>,
    request_id: Seq<char>,
    decision: ApprovalDecision,
    scope: ApprovalScope,
)
    requires
        before.approval_answered(after, plane, id, request_id, decision, scope),
        before.can_claim(plane, id, request_id),
        before.hello.lists(approval_method(plane)),
        !before.queue@.in_flight.contains(TagView::Approval { plane, id, request_id }),
    ensures
        left(before, after),
        answers_request(newest(after), plane, id, request_id, decision, scope),
{
    let call = App::approval_call(plane, id, request_id, decision, scope);
    lemma_approval_call(plane, id, request_id, decision, scope);
    let claimed = choose|claimed: App|
        #[trigger] before.approval_claimed(claimed, plane, id, request_id) && claimed.sent(
            after,
            call,
        );
    lemma_a_served_call_joins_the_queue(claimed, after, call);
}

/// The dialog of an approval answers by the row under its cursor: the first two approve and the
/// last two deny, and of each two the first is for this once.
#[verifier::rlimit(60)]
pub proof fn lemma_a_dialog_answers_by_its_row(before: App, after: App)
    requires
        before.approval_submitted(after),
        before.overlay is Some && before.overlay->0 is Approval,
        ({
            let (plane, id, request_id) = (
                before.overlay->0->Approval_plane,
                before.overlay->0->Approval_id@,
                before.overlay->0->Approval_request_id@,
            );
            &&& before.can_claim(plane, id, request_id)
            &&& before.hello.lists(approval_method(plane))
            &&& !before.queue@.in_flight.contains(TagView::Approval { plane, id, request_id })
        }),
    ensures
        left(before, after),
        after.overlay is None,
        ({
            let row = before.overlay->0->Approval_choice;
            let call = newest(after);
            &&& call.method == approval_method(before.overlay->0->Approval_plane)
            &&& call.params.member_text("id"@) == Some(before.overlay->0->Approval_id@)
            &&& call.params.member_text("request_id"@) == Some(
                before.overlay->0->Approval_request_id@,
            )
            &&& call.params.member_text("decision"@) == Some("approve"@) <==> row < 2
            &&& call.params.member_text("decision"@) == Some("deny"@) <==> row >= 2
            &&& call.params.member_text("scope"@) == Some("once"@) <==> row == 0 || row == 2
            &&& call.params.member_text("scope"@) == Some("session"@) <==> row == 1 || row >= 3
        }),
{
    let (plane, id, request_id, row) = (
        before.overlay->0->Approval_plane,
        before.overlay->0->Approval_id@,
        before.overlay->0->Approval_request_id@,
        before.overlay->0->Approval_choice,
    );
    let bare = App { overlay: None, ..before };
    let at = if row < 4 {
        row as int
    } else {
        3
    };
    let (decision, scope) = (
        crate::actions::APPROVAL_CHOICES@[at].0,
        crate::actions::APPROVAL_CHOICES@[at].1,
    );
    assert(bare.can_claim(plane, id, request_id));
    lemma_an_answer_says_what_was_decided(bare, after, plane, id, request_id, decision, scope);
    let call = App::approval_call(plane, id, request_id, decision, scope);
    let claimed = choose|claimed: App|
        #[trigger] bare.approval_claimed(claimed, plane, id, request_id) && claimed.sent(
            after,
            call,
        );
    lemma_approval_method(plane);
    lemma_a_served_call_joins_the_queue(claimed, after, call);
}

// ----- repairs ----------------------------------------------------------------------

pub open spec fn repair_method(plane: Plane, subscribe: bool) -> Seq<char> {
    match (plane, subscribe) {
        (Plane::Interactive, true) => "interactive.subscribe"@,
        (Plane::Interactive, false) => "interactive.replay"@,
        (Plane::Coding, true) => "coding.subscribe"@,
        (Plane::Coding, false) => "coding.replay"@,
    }
}

#[verifier::rlimit(60)]
pub(crate) proof fn lemma_repair_call(plane: Plane, id: Seq<char>, cursor: u64, subscribe: bool)
    ensures
        ({
            let call = resync_call(plane, id, cursor, subscribe);
            &&& call.method == repair_method(plane, subscribe)
            &&& call.tag == (TagView::Resync { plane, id, cursor, subscribe })
            &&& call.params.member("id"@) == Some(JsonView::Text(id))
            &&& call.params.member("cursor"@) == Some(JsonView::Unsigned(cursor))
            &&& call.params.member("limit"@) == if subscribe {
                None
            } else {
                Some(JsonView::Unsigned(500))
            }
        }),
{
    reveal_strlit("interactive");
    reveal_strlit("coding");
    reveal_strlit(".");
    reveal_strlit("subscribe");
    reveal_strlit("replay");
    reveal_strlit("interactive.subscribe");
    reveal_strlit("interactive.replay");
    reveal_strlit("coding.subscribe");
    reveal_strlit("coding.replay");
    lemma_names();
    let call = resync_call(plane, id, cursor, subscribe);
    let members = call.params->Object_0;
    assert(call.method =~= repair_method(plane, subscribe));
    lemma_member_at(members, "id"@, 0);
    lemma_member_at(members, "cursor"@, 1);
    if subscribe {
        lemma_no_member(members, "limit"@);
    } else {
        lemma_member_at(members, "limit"@, 2);
    }
}

/// A repair asks from where the transcript stops: the cursor that it sends is that of the watch,
/// and so is the one that its answer comes back with. No event up to it is missing, and the next
/// one is.
#[verifier::rlimit(60)]
pub proof fn lemma_a_repair_asks_from_the_cursor(
    before: App,
    after: App,
    plane: Plane,
    id: Seq<char>,
    subscribe: bool,
)
    requires
        before.wf(),
        before.resynced(after, plane, id, subscribe),
        after.queue@.outbound != before.queue@.outbound,
    ensures
        left(before, after),
        watched(before.sessions.watches@, plane, id),
        ({
            let watch = before.sessions.watches@[watch_at(before.sessions.watches@, plane, id)];
            let call = newest(after);
            let cursor = watch.at() as u64;
            &&& cursor == watch.at()
            &&& call.method == repair_method(plane, subscribe)
            &&& call.params.member_text("id"@) == Some(id)
            &&& call.params.member("cursor"@) == Some(JsonView::Unsigned(cursor))
            &&& call.tag == (TagView::Resync { plane, id, cursor, subscribe })
            &&& forall|s: u64|
                watch.floor < s <= cursor ==> #[trigger] watch.held@.contains(s)
            &&& forall|s: u64| s == cursor + 1 ==> !#[trigger] watch.held@.contains(s)
        }),
{
    let watches = before.sessions.watches@;
    let at = watch_at(watches, plane, id);
    let watch = watches[at];
    let cursor = watch.at() as u64;
    lemma_repair_call(plane, id, cursor, subscribe);
    assert(watched(watches, plane, id));
    assert(watch.wf());
    lemma_the_cursor_ends_the_unbroken_run(watch);
    let call = resync_call(plane, id, cursor, subscribe);
    assert(after.queue@ == before.queue@.with(call));
    lemma_put(before.queue@, after.queue@, call);
}

pub(crate) proof fn lemma_asked_holds(held: Set<u64>, floor: u64, approvals: Seq<Pending>, events: Seq<Event>)
    ensures
        held.subset_of(Watch::asked(held, floor, approvals, events).0),
        forall|i: int|
            0 <= i < events.len() && (#[trigger] events[i]).sequence > floor ==> Watch::asked(
                held,
                floor,
                approvals,
                events,
            ).0.contains(events[i].sequence),
    decreases events.len(),
{
    if events.len() > 0 {
        let rest = events.drop_last();
        lemma_asked_holds(held, floor, approvals, rest);
        assert forall|i: int|
            0 <= i < events.len() && (#[trigger] events[i]).sequence > floor implies Watch::asked(
            held,
            floor,
            approvals,
            events,
        ).0.contains(events[i].sequence) by {
            if i < rest.len() {
                assert(rest[i] == events[i]);
            }
        }
    }
}

/// A watch holds what it held: the same events of the same session, above the same floor.
pub open spec fn same_run(before: Watch, after: Watch) -> bool {
    &&& after.held == before.held
    &&& after.floor == before.floor
    &&& after.plane == before.plane
    &&& after.id == before.id
}

/// Asking for a repair takes nothing from a watch.
#[verifier::rlimit(60)]
pub proof fn lemma_asking_keeps_the_watch(
    before: App,
    after: App,
    plane: Plane,
    id: Seq<char>,
    subscribe: bool,
    at: int,
)
    requires
        before.resynced(after, plane, id, subscribe),
        0 <= at < before.sessions.watches@.len(),
    ensures
        after.wf(),
        after.sessions.watches@.len() == before.sessions.watches@.len(),
        same_run(before.sessions.watches@[at], after.sessions.watches@[at]),
{
    let watches = before.sessions.watches@;
    if watched(watches, plane, id) {
        let found = watch_at(watches, plane, id);
        assert(0 <= found < watches.len());
    }
}

#[verifier::rlimit(60)]
proof fn lemma_rest_keeps_the_watch(
    taken: App,
    rested: App,
    after: App,
    plane: Plane,
    id: Seq<char>,
    at: int,
)
    requires
        taken.resynced(rested, plane, id, false) || taken.settled(rested, plane, id),
        rested.approval_opened(after, plane, id) || after == rested,
        0 <= at < taken.sessions.watches@.len(),
    ensures
        after.wf(),
        after.sessions.watches@.len() == taken.sessions.watches@.len(),
        same_run(taken.sessions.watches@[at], after.sessions.watches@[at]),
{
    if taken.resynced(rested, plane, id, false) {
        lemma_asking_keeps_the_watch(taken, rested, plane, id, false, at);
    }
    assert(rested.wf());
    assert(after.sessions == rested.sessions);
}

/// What a repair is answered with is held from then on: every event of the answer that is above
/// the floor, beside those that were held already and are.
#[verifier::rlimit(60)]
pub proof fn lemma_an_answered_event_is_held(
    before: App,
    after: App,
    plane: Plane,
    id: Seq<char>,
    asked_from: u64,
    subscribe: bool,
    events: Vec<Event>,
    refused: u64,
    s: u64,
)
    requires
        before.wf(),
        watched(before.sessions.watches@, plane, id),
        before.resync_settled(
            after,
            plane,
            id,
            asked_from,
            subscribe,
            Replay::Events { events, refused },
        ),
        before.sessions.watches@[watch_at(before.sessions.watches@, plane, id)].held@.contains(s)
            || exists|i: int| 0 <= i < events@.len() && (#[trigger] events@[i]).sequence == s,
    ensures
        watched(after.sessions.watches@, plane, id),
        ({
            let was = before.sessions.watches@[watch_at(before.sessions.watches@, plane, id)];
            let watch = after.sessions.watches@[watch_at(after.sessions.watches@, plane, id)];
            &&& watch.floor < s ==> watch.held@.contains(s)
            &&& watch.floor == if events@.len() > 0 && events@[0].sequence > asked_from + 1
                && events@[0].sequence - 1 > was.floor {
                events@[0].sequence - 1
            } else {
                was.floor as int
            }
        }),
{
    let watches = before.sessions.watches@;
    let at = watch_at(watches, plane, id);
    let was = watches[at];
    let list = events@;
    assert(before.replayed(after, plane, id, asked_from, list, refused));
    let (taken, raised) = choose|taken: App, raised: Watch|
        {
            &&& #[trigger] before.took_replay(taken, raised, plane, id, asked_from, list, refused)
            &&& exists|rested: App|
                {
                    &&& taken.resynced(rested, plane, id, false) || taken.settled(rested, plane, id)
                    &&& rested.approval_opened(after, plane, id) || after == rested
                }
        };
    let rested = choose|rested: App|
        {
            &&& taken.resynced(rested, plane, id, false) || taken.settled(rested, plane, id)
            &&& rested.approval_opened(after, plane, id) || after == rested
        };
    lemma_rest_keeps_the_watch(taken, rested, after, plane, id, at);
    let now = taken.sessions.watches@[at];
    let end = after.sessions.watches@[at];
    lemma_watch_at(after.sessions.watches@, at);
    lemma_asked_holds(raised.held@.to_set(), raised.floor, raised.approvals@, list);
    assert(now.floor == raised.floor);
    if end.floor < s {
        if was.held@.contains(s) {
            assert(raised.held@.contains(s));
            assert(raised.held@.to_set().contains(s));
        } else {
            let i = choose|i: int| 0 <= i < list.len() && (#[trigger] list[i]).sequence == s;
            assert(list[i].sequence > raised.floor);
        }
        assert(now.held@.to_set().contains(s));
    }
}

/// A repair closes the hole it was asked for. Where the gateway answers with every event above the
/// cursor that was sent to it, no event from the floor up to the last one answered is missing
/// afterwards, whatever else arrived between the question and the answer.
pub proof fn lemma_an_answered_repair_leaves_no_hole(
    before: App,
    asked: App,
    then: App,
    after: App,
    plane: Plane,
    id: Seq<char>,
    subscribe: bool,
    sent: u64,
    asked_from: u64,
    events: Vec<Event>,
    refused: u64,
    s: u64,
)
    requires
        before.wf(),
        before.resynced(asked, plane, id, subscribe),
        asked.queue@.outbound != before.queue@.outbound,
        // What the question said, and what it was filed under.
        newest(asked).params.member("cursor"@) == Some(JsonView::Unsigned(sent)),
        newest(asked).tag == (TagView::Resync { plane, id, cursor: asked_from, subscribe }),
        // The watch may have grown meanwhile.
        then.wf(),
        watched(then.sessions.watches@, plane, id),
        ({
            let was = before.sessions.watches@[watch_at(before.sessions.watches@, plane, id)];
            let met = then.sessions.watches@[watch_at(then.sessions.watches@, plane, id)];
            &&& met.floor == was.floor
            &&& was.held@.to_set().subset_of(met.held@.to_set())
        }),
        // The answer: the events above the cursor that was sent, none left out.
        then.resync_settled(
            after,
            plane,
            id,
            asked_from,
            subscribe,
            Replay::Events { events, refused },
        ),
        forall|i: int| 0 <= i < events@.len() ==> (#[trigger] events@[i]).sequence == sent + 1 + i,
        before.sessions.watches@[watch_at(before.sessions.watches@, plane, id)].floor < s <= sent
            + events@.len(),
    ensures
        watched(after.sessions.watches@, plane, id),
        after.sessions.watches@[watch_at(after.sessions.watches@, plane, id)].held@.contains(s),
{
    lemma_a_repair_asks_from_the_cursor(before, asked, plane, id, subscribe);
    let was = before.sessions.watches@[watch_at(before.sessions.watches@, plane, id)];
    let met = then.sessions.watches@[watch_at(then.sessions.watches@, plane, id)];
    if s <= sent {
        assert(was.held@.contains(s));
        assert(was.held@.to_set().contains(s));
        assert(met.held@.to_set().contains(s));
        assert(met.held@.contains(s));
    } else {
        assert(events@[s - sent - 1].sequence == s);
    }
    if events@.len() > 0 {
        assert(events@[0].sequence == sent + 1);
    }
    lemma_an_answered_event_is_held(
        then,
        after,
        plane,
        id,
        asked_from,
        subscribe,
        events,
        refused,
        s,
    );
}

// ----- turns ------------------------------------------------------------------------

pub open spec fn turn_method(plane: Plane, verb: ComposerVerb) -> Seq<char> {
    match (plane, verb) {
        (Plane::Interactive, ComposerVerb::Message) => "interactive.send_message"@,
        (Plane::Interactive, ComposerVerb::FollowUp) => "interactive.follow_up"@,
        (Plane::Interactive, ComposerVerb::Steer) => "interactive.steer"@,
        (Plane::Coding, ComposerVerb::Message) => "coding.send_message"@,
        (Plane::Coding, ComposerVerb::FollowUp) => "coding.follow_up"@,
        (Plane::Coding, ComposerVerb::Steer) => "coding.steer"@,
    }
}

#[verifier::rlimit(60)]
proof fn lemma_turn_method(plane: Plane, verb: ComposerVerb)
    ensures
        plane.method_of(verb.verb()) == turn_method(plane, verb),
{
    reveal_strlit("interactive");
    reveal_strlit("coding");
    reveal_strlit(".");
    reveal_strlit("send_message");
    reveal_strlit("follow_up");
    reveal_strlit("steer");
    reveal_strlit("interactive.send_message");
    reveal_strlit("interactive.follow_up");
    reveal_strlit("interactive.steer");
    reveal_strlit("coding.send_message");
    reveal_strlit("coding.follow_up");
    reveal_strlit("coding.steer");
    assert(plane.method_of(verb.verb()) =~= turn_method(plane, verb));
}

/// A call brings a text to a session, by a verb and under the id of its turn.
pub open spec fn brings(
    call: CallView,
    plane: Plane,
    id: Seq<char>,
    verb: ComposerVerb,
    input: Seq<char>,
    turn_id: Seq<char>,
) -> bool {
    &&& call.method == turn_method(plane, verb)
    &&& call.params.member_text("id"@) == Some(id)
    &&& call.params.member_text("input"@) == Some(input)
    &&& call.params.member_text("turn_id"@) == Some(turn_id)
}

proof fn lemma_message_params(id: Seq<char>, input: Seq<char>, turn_id: Seq<char>)
    ensures
        message_params(id, input, turn_id).member_text("id"@) == Some(id),
        message_params(id, input, turn_id).member_text("input"@) == Some(input),
        message_params(id, input, turn_id).member_text("turn_id"@) == Some(turn_id),
{
    lemma_names();
    let members = message_params(id, input, turn_id)->Object_0;
    lemma_member_at(members, "id"@, 0);
    lemma_member_at(members, "input"@, 1);
    lemma_member_at(members, "turn_id"@, 2);
}

/// No question about a turn is outstanding.
pub open spec fn turn_is_free(queue: QueueView, turn_id: Seq<char>) -> bool {
    forall|tag: TagView| #[trigger]
        queue.in_flight.contains(tag) && tag is ComposerAction ==> tag->ComposerAction_turn_id != Some(
            turn_id,
        )
}

/// What was typed goes out as it stands, to the session that is open, by the composer's verb and
/// under the turn's id; and the composer is empty afterwards.
#[verifier::rlimit(60)]
pub proof fn lemma_what_was_typed_goes_out(before: App, after: App, fresh: Seq<char>)
    requires
        before.composer_submitted(after, fresh),
        before.sessions.composer is Some,
        before.sessions.open is Some,
        before.turn_to_reconcile() is None,
        ({
            let composer = before.sessions.composer->0;
            let text = composer.editor.text@;
            &&& trimmed(text).len() > 0
            &&& slash_of(text) is None
            &&& before.hello.lists(turn_method(before.sessions.open->0.plane, composer.verb))
            &&& turn_is_free(
                before.queue@,
                match composer.next_turn_id {
                    Some(turn_id) => turn_id@,
                    None => fresh,
                },
            )
        }),
    ensures
        left(before, after),
        ({
            let composer = before.sessions.composer->0;
            brings(
                newest(after),
                before.sessions.open->0.plane,
                before.sessions.open->0.id@,
                composer.verb,
                composer.editor.text@,
                match composer.next_turn_id {
                    Some(turn_id) => turn_id@,
                    None => fresh,
                },
            )
        }),
        after.sessions.composer is Some,
        after.sessions.composer->0.editor.blank(),
        after.sessions.composer->0.next_turn_id is None,
        after.sessions.open == before.sessions.open,
{
    let composer = before.sessions.composer->0;
    let text = composer.editor.text@;
    let (plane, id) = (before.sessions.open->0.plane, before.sessions.open->0.id@);
    let turn_id = App::outgoing_id(composer, fresh);
    assert(key_of(before.sessions.open) == Some((plane, id)));
    assert(composer.editor.submission_of() == Some(text));
    assert(before.text_sent(after, composer, text, fresh));
    let call = App::turn_call(
        composer.verb,
        plane,
        id,
        text,
        turn_id,
        composer.next_turn_id is Some,
        before.next_submission(),
    );
    let gone = choose|gone: App| #[trigger]
        before.text_left(gone, composer) && gone.sent(after, call);
    lemma_turn_method(plane, composer.verb);
    lemma_message_params(id, text, turn_id);
    assert(!before.queue@.in_flight.contains(call.tag));
    lemma_a_served_call_joins_the_queue(gone, after, call);
}

proof fn lemma_unsettled_at(turns: Seq<Unsettled>, plane: Plane, id: Seq<char>, from: int)
    requires
        unsettled_at(turns, plane, id, from) is Some,
    ensures
        ({
            let at = unsettled_at(turns, plane, id, from)->0;
            from <= at < turns.len() && turns[at].key@ == (plane, id)
        }),
    decreases turns.len() - from,
{
    if 0 <= from < turns.len() && turns[from].key@ != (plane, id) {
        lemma_unsettled_at(turns, plane, id, from + 1);
    }
}

/// A turn of the open session whose outcome is not known goes out before anything newer, as it
/// was: the same text under the same id. What is in the composer stays there.
#[verifier::rlimit(60)]
pub proof fn lemma_an_unsettled_turn_goes_again_as_it_was(before: App, after: App, fresh: Seq<char>)
    requires
        before.composer_submitted(after, fresh),
        before.sessions.composer is Some,
        slash_of(before.sessions.composer->0.editor.text@) is None,
        before.turn_to_reconcile() is Some,
        ({
            let turn = before.sessions.pending_reconciliations@[before.turn_to_reconcile()->0];
            &&& before.hello.lists(turn_method(turn.key.plane, turn.verb))
            &&& turn_is_free(before.queue@, turn.turn_id@)
        }),
    ensures
        left(before, after),
        ({
            let turn = before.sessions.pending_reconciliations@[before.turn_to_reconcile()->0];
            &&& key_of(before.sessions.open) == Some((turn.key.plane, turn.key.id@))
            &&& brings(
                newest(after),
                turn.key.plane,
                turn.key.id@,
                turn.verb,
                turn.input@,
                turn.turn_id@,
            )
        }),
        after.sessions.composer == before.sessions.composer,
{
    let at = before.turn_to_reconcile()->0;
    let (plane, id) = key_of(before.sessions.open)->0;
    lemma_unsettled_at(before.sessions.pending_reconciliations@, plane, id, 0);
    let turn = before.sessions.pending_reconciliations@[at];
    let call = App::turn_call(
        turn.verb,
        turn.key.plane,
        turn.key.id@,
        turn.input@,
        turn.turn_id@,
        true,
        turn.submission_sequence,
    );
    assert(before.sent(after, call));
    lemma_turn_method(turn.key.plane, turn.verb);
    lemma_message_params(turn.key.id@, turn.input@, turn.turn_id@);
    assert(!before.queue@.in_flight.contains(call.tag));
    lemma_a_served_call_joins_the_queue(before, after, call);
}

/// The prompt a session was started with is the first message it gets.
pub proof fn lemma_a_prompt_follows_its_start(before: App, after: App, plane: Plane, id: Seq<char>)
    requires
        before.first_sent(after, plane, id),
        before.first_message is Some,
        before.hello.lists(turn_method(plane, ComposerVerb::Message)),
        forall|tag: TagView| #[trigger]
            before.queue@.in_flight.contains(tag) && tag is FirstMessage
                ==> tag->FirstMessage_turn_id != before.first_message->0.turn_id@,
    ensures
        left(before, after),
        brings(
            newest(after),
            plane,
            id,
            ComposerVerb::Message,
            before.first_message->0.input@,
            before.first_message->0.turn_id@,
        ),
        after.first_message is None,
{
    let message = before.first_message->0;
    let call = App::first_call(plane, id, message);
    lemma_turn_method(plane, ComposerVerb::Message);
    lemma_message_params(id, message.input@, message.turn_id@);
    assert(!before.queue@.in_flight.contains(call.tag));
    lemma_put(before.queue@, after.queue@, call);
}

// ----- starts -----------------------------------------------------------------------

pub open spec fn start_method(plane: Plane) -> Seq<char> {
    match plane {
        Plane::Interactive => "interactive.start"@,
        Plane::Coding => "coding.start"@,
    }
}

pub(crate) proof fn lemma_start_method(plane: Plane)
    ensures
        plane.method_of("start"@) == start_method(plane),
{
    reveal_strlit("interactive");
    reveal_strlit("coding");
    reveal_strlit(".");
    reveal_strlit("start");
    reveal_strlit("interactive.start");
    reveal_strlit("coding.start");
    assert(plane.method_of("start"@) =~= start_method(plane));
}

/// What a form that is filled in starts: each of its rows goes out under its own name, and the
/// provider is the one its cursor is on.
#[verifier::rlimit(60)]
pub proof fn lemma_a_form_starts_what_its_rows_say(before: App, after: App)
    requires
        before.form_submitted(after),
        before.overlay is Some && before.overlay->0 is New,
        ({
            let form = before.overlay->0->New_0;
            let providers = before.known_providers();
            &&& form.provider < providers.len()
            &&& trimmed(providers[form.provider as int].provider@).len() > 0
            &&& form.request.plane == Plane::Coding ==> trimmed(form.request.objective@).len() > 0
            &&& before.hello.lists(start_method(form.request.plane))
            &&& !before.queue@.in_flight.contains(
                TagView::Start { plane: form.request.plane, id: None },
            )
        }),
    ensures
        left(before, after),
        ({
            let form = before.overlay->0->New_0;
            let call = newest(after);
            &&& call.method == start_method(form.request.plane)
            &&& call.params.member("provider"@) == written(
                before.known_providers()[form.provider as int].provider@,
            )
            &&& call.params.member("machine"@) == written(form.request.machine@)
            &&& call.params.member("workspace"@) == written(form.request.workspace@)
            &&& call.params.member("id"@) == written(form.request.id@)
            &&& call.params.member("objective"@) == if form.request.plane == Plane::Coding {
                written(form.request.objective@)
            } else {
                None
            }
            &&& call.params.member("model"@) == match form.request.model {
                Some(model) => written(model@),
                None => None,
            }
            &&& call.params.member("sandbox_mode"@) == match form.request.sandbox_mode {
                Some(mode) => written(mode@),
                None => None,
            }
            &&& call.params.member("approval_mode"@) == match form.approval {
                1 => Some(JsonView::Text("default"@)),
                2 => Some(JsonView::Text("prompt"@)),
                3 => Some(JsonView::Text("auto_edit"@)),
                4 => Some(JsonView::Text("auto_approve"@)),
                _ => None,
            }
        }),
{
    let form = before.overlay->0->New_0;
    let providers = before.known_providers();
    let request = choose|request: StartRequest| #[trigger]
        App::form_request(*form, request, providers) && match request.refusal() {
            Some(refusal) => {
                &&& after.overlay matches Some(Overlay::New(now))
                &&& said(now.error) == Some(refusal.words())
                &&& *now == (NewSession { error: now.error, ..*form })
                &&& after == (App { overlay: after.overlay, ..before })
            },
            None => (App {
                overlay: Some(
                    Overlay::New(Box::new(NewSession { error: None, pending: true, ..*form })),
                ),
                ..before
            }).sent(after, App::start_call(request, None)),
        };
    let shown = App {
        overlay: Some(Overlay::New(Box::new(NewSession { error: None, pending: true, ..*form }))),
        ..before
    };
    assert(request.refusal() is None);
    let call = App::start_call(request, None);
    assert(shown.sent(after, call));
    lemma_start_method(request.plane);
    lemma_a_start_states_each_field(request);
    lemma_a_start_states_its_choices(request);
    lemma_a_served_call_joins_the_queue(shown, after, call);
}

/// A start that has an id to go by asks for that id, and is answered under it.
pub proof fn lemma_a_start_asks_for_its_id(request: StartRequest)
    requires
        trimmed(request.id@) == request.id@,
        request.id@.len() > 0,
    ensures
        ({
            let call = App::start_call(request, Some(request.id@));
            &&& call.method == start_method(request.plane)
            &&& call.params.member_text("id"@) == Some(request.id@)
            &&& call.tag == (TagView::Start { plane: request.plane, id: Some(request.id@) })
        }),
{
    lemma_start_method(request.plane);
    lemma_a_start_states_each_field(request);
}

/// A prompt on the home starts the session it asks for under the id it was given, and is kept to
/// follow the start.
#[verifier::rlimit(60)]
pub proof fn lemma_a_quick_start_goes_out_with_its_prompt(
    before: App,
    after: App,
    request: StartRequest,
    prompt: Seq<char>,
    turn_id: Seq<char>,
)
    requires
        before.quick_started(after, request, prompt, turn_id),
        !before.reconciling(),
        request.refusal() is None,
        before.hello.lists(start_method(request.plane)),
        !before.queue@.in_flight.contains(
            TagView::Start { plane: request.plane, id: Some(request.id@) },
        ),
    ensures
        left(before, after),
        newest(after).method == start_method(request.plane),
        newest(after).params.member("provider"@) == written(request.provider@),
        newest(after).params.member("id"@) == written(request.id@),
        newest(after).params.member("workspace"@) == written(request.workspace@),
        newest(after).params.member("model"@) == match request.model {
            Some(model) => written(model@),
            None => None,
        },
        newest(after).tag == (TagView::Start { plane: request.plane, id: Some(request.id@) }),
        after.first_message is Some,
        after.first_message->0.input@ == prompt,
        after.first_message->0.turn_id@ == turn_id,
        after.first_message->0.start.id@ == request.id@,
        after.home_pending,
{
    let call = App::start_call(request, Some(request.id@));
    let held = choose|held: App| #[trigger]
        before.start_held(held, request, prompt, turn_id) && held.sent(after, call);
    lemma_start_method(request.plane);
    lemma_a_start_states_each_field(request);
    lemma_a_served_call_joins_the_queue(held, after, call);
}

/// What a window's form says is what its start says, under the id that comes back.
#[verifier::rlimit(60)]
pub proof fn lemma_a_window_starts_what_its_form_says(
    before: App,
    after: App,
    request: StartRequest,
    provider: Seq<char>,
    model: Option<Seq<char>>,
    workspace: Seq<char>,
    sandbox_mode: Option<Seq<char>>,
    effort: Option<Effort>,
    id: Seq<char>,
)
    requires
        before.window_request(request, provider, model, workspace, sandbox_mode, effort, id),
        before.start_offered(after, request, None),
        before.hello.lists("interactive.start"@),
        !before.queue@.in_flight.contains(
            TagView::Start { plane: Plane::Interactive, id: Some(id) },
        ),
    ensures
        left(before, after),
        newest(after).method == "interactive.start"@,
        newest(after).params.member("provider"@) == written(trimmed(provider)),
        newest(after).params.member("workspace"@) == written(trimmed(workspace)),
        newest(after).params.member("id"@) == written(id),
        newest(after).params.member("model"@) == match model {
            Some(model) => if trimmed(model).len() == 0 {
                None
            } else {
                written(trimmed(model))
            },
            None => None,
        },
        newest(after).params.member("sandbox_mode"@) == match sandbox_mode {
            Some(mode) => written(mode),
            None => match before.config.sandbox_mode {
                Some(mode) => written(mode@),
                None => None,
            },
        },
        newest(after).params.member("reasoning_effort"@) == match effort {
            Some(Effort::Low) => Some(JsonView::Text("low"@)),
            Some(Effort::Medium) => Some(JsonView::Text("medium"@)),
            Some(Effort::High) => Some(JsonView::Text("high"@)),
            None => None,
        },
        newest(after).params.member("machine"@) is None,
        newest(after).params.member("objective"@) is None,
        newest(after).tag == (TagView::Start { plane: Plane::Interactive, id: Some(id) }),
{
    let call = App::start_call(request, Some(request.id@));
    lemma_start_method(request.plane);
    lemma_a_start_states_each_field(request);
    lemma_a_start_states_its_choices(request);
    assert(request.machine@ =~= Seq::empty());
    assert(trimmed(Seq::<char>::empty()) == Seq::<char>::empty());
    lemma_a_served_call_joins_the_queue(before, after, call);
}

// ----- a session is stopped, named or removed ---------------------------------------

proof fn lemma_action_call(label: Seq<char>, plane: Plane, id: Seq<char>, method: Seq<char>)
    ensures
        action_call(label, plane, id, method).params.member_text("id"@) == Some(id),
        id_params(id).member_text("id"@) == Some(id),
{
    let members = id_params(id)->Object_0;
    lemma_member_at(members, "id"@, 0);
}

/// Interrupting asks the session that is open, and no other, to stop its turn; it ends neither the
/// session nor the client.
pub proof fn lemma_an_interrupt_names_the_open_session(before: App, after: App, id: Seq<char>)
    requires
        before.turn_interrupted(after),
        key_of(before.sessions.open) == Some((Plane::Interactive, id)),
        before.hello.lists("interactive.interrupt"@),
        !before.queue@.in_flight.contains(
            TagView::Action {
                label: "interrupt"@,
                plane: Plane::Interactive,
                id,
                turn_id: None,
            },
        ),
    ensures
        left(before, after),
        newest(after).method == "interactive.interrupt"@,
        newest(after).params.member_text("id"@) == Some(id),
        after.quit == before.quit,
        after.sessions.open == before.sessions.open,
{
    let call = action_call("interrupt"@, Plane::Interactive, id, "interactive.interrupt"@);
    lemma_action_call("interrupt"@, Plane::Interactive, id, "interactive.interrupt"@);
    let mid = choose|mid: App| #[trigger]
        before.sent(mid, call) && mid.noticed(
            after,
            "interrupting the active turn of "@ + id,
            NoticeKind::Info,
        );
    lemma_a_served_call_joins_the_queue(before, mid, call);
    assert(after.queue == mid.queue);
}

/// What a row of the dialog that ends a session asks for, and the word its answer comes back by.
pub open spec fn ending(plane: Plane, row: usize) -> Option<(Seq<char>, Seq<char>)> {
    match (plane, row) {
        (Plane::Interactive, 0) => Some(("interactive.close"@, "close"@)),
        (Plane::Interactive, 1) => Some(("interactive.kill"@, "kill"@)),
        (Plane::Coding, 0) => Some(("coding.cancel"@, "cancel"@)),
        _ => None,
    }
}

/// The rows of the dialog that ends a session do what they say, to the session that is open: the
/// first closes it, the second kills it, the last leaves it alone. A coding task is cancelled or
/// left alone.
#[verifier::rlimit(50)]
pub proof fn lemma_an_ending_does_what_its_row_says(
    before: App,
    asked: App,
    after: App,
    plane: Plane,
    id: Seq<char>,
    title: String,
    detail: String,
    options: Vec<(String, Option<Call>)>,
    row: usize,
)
    requires
        before.end_asked(asked),
        before.tab == Tab::Sessions,
        key_of(before.sessions.open) == Some((plane, id)),
        asked.overlay matches Some(Overlay::Confirm { options: listed, .. }) && listed == options,
        asked.confirm_keyed(after, KeyCode::Enter, title, detail, options, row),
        ending(plane, row) matches Some((method, label)) ==> before.hello.lists(method)
            && !before.queue@.in_flight.contains(
            TagView::Action { label, plane, id, turn_id: None },
        ),
    ensures
        match ending(plane, row) {
            Some((method, _)) => {
                &&& left(before, after)
                &&& newest(after).method == method
                &&& newest(after).params.member_text("id"@) == Some(id)
            },
            None => after.queue == before.queue,
        },
        after.overlay is None,
{
    let rows = ways_to_end(plane, id);
    assert(confirm_rows(options@) == rows);
    assert(confirm_rows(options@).len() == options@.len());
    if row < options@.len() {
        assert(confirm_rows(options@)[row as int] == rows[row as int]);
        if let Some(call) = options@[row as int].1 {
            let bare = asked.bare();
            lemma_action_call((ending(plane, row)->0).1, plane, id, call.method@);
            assert(bare.sent(after, call@));
            lemma_a_served_call_joins_the_queue(bare, after, call@);
        }
    }
}

/// A name that is given reaches the gateway with the session it is for.
pub proof fn lemma_a_rename_carries_the_title(before: App, after: App, id: Seq<char>, title: Seq<char>)
    requires
        before.sent(after, App::rename_call(id, title)),
        before.hello.lists("interactive.rename"@),
        !before.queue@.in_flight.contains(
            TagView::Action { label: "rename"@, plane: Plane::Interactive, id, turn_id: None },
        ),
    ensures
        left(before, after),
        newest(after).method == "interactive.rename"@,
        newest(after).params.member_text("id"@) == Some(id),
        newest(after).params.member_text("title"@) == Some(title),
{
    lemma_names();
    let call = App::rename_call(id, title);
    lemma_member_at(call.params->Object_0, "id"@, 0);
    lemma_member_at(call.params->Object_0, "title"@, 1);
    lemma_a_served_call_joins_the_queue(before, after, call);
}

pub open spec fn delete_method(plane: Plane) -> Seq<char> {
    match plane {
        Plane::Interactive => "interactive.delete"@,
        Plane::Coding => "coding.delete"@,
    }
}

pub(crate) proof fn lemma_delete_method(plane: Plane)
    ensures
        plane.method_of("delete"@) == delete_method(plane),
{
    reveal_strlit("interactive");
    reveal_strlit("coding");
    reveal_strlit(".");
    reveal_strlit("delete");
    reveal_strlit("interactive.delete");
    reveal_strlit("coding.delete");
    assert(plane.method_of("delete"@) =~= delete_method(plane));
}

/// What is removed is the session that was named, on its own plane.
pub proof fn lemma_a_removal_names_its_session(before: App, after: App, plane: Plane, id: Seq<char>)
    requires
        before.sent(after, App::delete_call(plane, id)),
        before.hello.lists(delete_method(plane)),
        !before.queue@.in_flight.contains(
            TagView::Action { label: "remove"@, plane, id, turn_id: None },
        ),
    ensures
        left(before, after),
        newest(after).method == delete_method(plane),
        newest(after).params.member_text("id"@) == Some(id),
{
    lemma_delete_method(plane);
    let call = App::delete_call(plane, id);
    lemma_action_call("remove"@, plane, id, call.method);
    lemma_a_served_call_joins_the_queue(before, after, call);
}

// ----- the account ------------------------------------------------------------------

/// A sign-in goes through the browser where the client started the runtime, and so runs beside it,
/// and by a device code everywhere else.
pub proof fn lemma_a_sign_in_takes_the_flow_of_its_mode(before: App, after: App)
    requires
        before.account_opened(after),
        !before.is_connected(),
        before.login_blocker() is None,
        !before.queue@.in_flight.contains(TagView::AccountLogin),
        !before.queue@.in_flight.contains(TagView::AccountCancel),
    ensures
        left(before, after),
        newest(after).method == "account.login.start"@,
        newest(after).tag == TagView::AccountLogin,
        newest(after).params.member_text("flow"@) == Some("browser"@) <==> before.mode is Spawned,
        newest(after).params.member_text("flow"@) == Some("device_code"@)
            <==> before.mode is Attached,
{
    reveal_strlit("browser");
    reveal_strlit("device_code");
    assert("browser"@.len() != "device_code"@.len());
    let call = App::login_call(before.flow());
    lemma_member_at(call.params->Object_0, "flow"@, 0);
    lemma_put(before.queue@, after.queue@, call);
}

/// A sign-in that is begun names the flow it goes by.
pub proof fn lemma_a_sign_in_names_its_flow(before: App, after: App, flow: AccountFlow)
    requires
        before.login_begun(after, flow),
        !before.queue@.in_flight.contains(TagView::AccountLogin),
    ensures
        left(before, after),
        newest(after).method == "account.login.start"@,
        newest(after).params.member_text("flow"@) == Some("browser"@) <==> flow
            == AccountFlow::Browser,
        newest(after).params.member_text("flow"@) == Some("device_code"@) <==> flow
            == AccountFlow::DeviceCode,
{
    reveal_strlit("browser");
    reveal_strlit("device_code");
    assert("browser"@.len() != "device_code"@.len());
    let call = App::login_call(flow);
    lemma_member_at(call.params->Object_0, "flow"@, 0);
    lemma_put(before.queue@, after.queue@, call);
}

/// Giving up a sign-in cancels that sign-in.
pub proof fn lemma_a_cancel_names_its_sign_in(before: App, after: App, login_id: Seq<char>)
    requires
        before.cancelled(after, login_id),
        before.hello.lists("account.login.cancel"@),
        !before.queue@.in_flight.contains(TagView::AccountCancel),
    ensures
        left(before, after),
        newest(after).method == "account.login.cancel"@,
        newest(after).params.member_text("login_id"@) == Some(login_id),
{
    let call = App::cancel_call(login_id);
    lemma_member_at(call.params->Object_0, "login_id"@, 0);
    lemma_put(before.queue@, after.queue@, call);
}

// ----- single events and upgrades ---------------------------------------------------

pub open spec fn detail_method(plane: Plane) -> Seq<char> {
    match plane {
        Plane::Interactive => "interactive.event_detail"@,
        Plane::Coding => "coding.event_detail"@,
    }
}

pub(crate) proof fn lemma_detail_method(plane: Plane)
    ensures
        plane.method_of("event_detail"@) == detail_method(plane),
{
    reveal_strlit("interactive");
    reveal_strlit("coding");
    reveal_strlit(".");
    reveal_strlit("event_detail");
    reveal_strlit("interactive.event_detail");
    reveal_strlit("coding.event_detail");
    assert(plane.method_of("event_detail"@) =~= detail_method(plane));
}

/// The event that is fetched whole is the one that was asked for, of the session it is of.
pub proof fn lemma_a_detail_names_its_event(
    before: App,
    after: App,
    plane: Plane,
    id: Seq<char>,
    sequence: u64,
)
    requires
        before.event_detail_fetched(after, plane, id, sequence),
        before.hello.lists(detail_method(plane)),
        !before.queue@.in_flight.contains(TagView::EventDetail { plane, id, sequence }),
    ensures
        left(before, after),
        newest(after).method == detail_method(plane),
        newest(after).params.member_text("id"@) == Some(id),
        newest(after).params.member("sequence"@) == Some(JsonView::Unsigned(sequence)),
{
    lemma_detail_method(plane);
    lemma_names();
    let call = App::event_detail_call(plane, id, sequence);
    lemma_member_at(call.params->Object_0, "id"@, 0);
    lemma_member_at(call.params->Object_0, "sequence"@, 1);
    lemma_a_served_call_joins_the_queue(before, after, call);
}

/// The sections of the upgrade tab ask for what was named in them: the history of a module, the
/// grants of a principal.
#[verifier::rlimit(60)]
pub proof fn lemma_a_section_asks_for_what_was_named(app: App)
    ensures
        match app.section_call() {
            Some(call) => match app.upgrade.section {
                2 => {
                    &&& call.method == "upgrade.history"@
                    &&& app.upgrade.history_module is Some
                    &&& call.params.member_text("module"@) == Some(
                        app.upgrade.history_module->0@,
                    )
                },
                3 => call.method == "signing.decisions"@,
                0 | 1 => false,
                _ => {
                    &&& call.method == "grants.list"@
                    &&& app.upgrade.grants_principal is Some
                    &&& call.params.member_text("principal"@) == Some(
                        app.upgrade.grants_principal->0@,
                    )
                },
            },
            None => match app.upgrade.section {
                0 | 1 => true,
                2 => app.upgrade.history_module is None,
                3 => false,
                _ => app.upgrade.grants_principal is None,
            },
        },
{
    if let Some(call) = app.section_call() {
        let members = call.params->Object_0;
        if app.upgrade.chosen() is History {
            lemma_member_at(members, "module"@, 0);
        }
        if app.upgrade.chosen() is Grants {
            lemma_member_at(members, "principal"@, 0);
        }
    }
}

/// What is typed into a prompt of the upgrade tab is what its section then asks about.
#[verifier::rlimit(60)]
pub proof fn lemma_a_prompt_names_what_is_asked(before: App, after: App)
    requires
        before.prompt_submitted(after),
        before.overlay is Some && before.overlay->0 is Prompt,
        trimmed(before.overlay->0->Prompt_buffer@).len() > 0,
    ensures
        match before.overlay->0->Prompt_kind {
            PromptKind::HistoryModule => {
                &&& said(after.upgrade.history_module) == Some(
                    trimmed(before.overlay->0->Prompt_buffer@),
                )
                &&& after.upgrade.grants_principal == before.upgrade.grants_principal
            },
            PromptKind::GrantsPrincipal => {
                &&& said(after.upgrade.grants_principal) == Some(
                    trimmed(before.overlay->0->Prompt_buffer@),
                )
                &&& after.upgrade.history_module == before.upgrade.history_module
            },
        },
        after.overlay is None,
{
    let kind = before.overlay->0->Prompt_kind;
    let value = trimmed(before.overlay->0->Prompt_buffer@);
    let named = choose|named: App|
        {
            &&& App::prompted(before.upgrade, named.upgrade, kind, value)
            &&& named == (App { overlay: None, upgrade: named.upgrade, ..before })
            &&& #[trigger] named.section_polled(after)
        };
    assert(named.section_asked(after.upgrade));
}

// ----- leaving ----------------------------------------------------------------------

/// Leaving does what its row says. A runtime that this client started is left running by the first
/// row and shut down by the second; one that it attached to can only be disconnected from.
pub proof fn lemma_leaving_does_what_its_row_says(
    before: App,
    asked: App,
    after: App,
    options: Vec<(String, Quit)>,
    row: usize,
)
    requires
        before.quit_opened(asked),
        asked.overlay matches Some(Overlay::Quit { options: listed, .. }) && listed == options,
        asked.quit_keyed(after, KeyCode::Enter, options, row),
    ensures
        after.quit == match (before.mode, row) {
            (Mode::Spawned { .. }, 0) => Some(Quit::Detach),
            (Mode::Spawned { .. }, 1) => Some(Quit::Shutdown),
            (Mode::Attached, 0) => Some(Quit::Disconnect),
            _ => None,
        },
        after.overlay is None,
        after.queue == before.queue,
{
    assert(quit_rows(options@).len() == options@.len());
    if row < options@.len() {
        assert(quit_rows(options@)[row as int].1 == options@[row as int].1);
    }
}

// ----- polling ----------------------------------------------------------------------

/// A question of this method waits to go out, to be answered by this tag.
pub open spec fn asks(queue: QueueView, method: Seq<char>, tag: TagView) -> bool {
    exists|i: int|
        0 <= i < queue.outbound.len() && (#[trigger] queue.outbound[i]).method == method
            && queue.outbound[i].tag == tag
}

/// So does one about a single thing, by its id.
pub open spec fn asks_about(queue: QueueView, method: Seq<char>, tag: TagView, id: Seq<char>) -> bool {
    exists|i: int|
        0 <= i < queue.outbound.len() && (#[trigger] queue.outbound[i]).method == method
            && queue.outbound[i].tag == tag && queue.outbound[i].params.member_text("id"@) == Some(
            id,
        )
}

proof fn lemma_asked_queue(queue: QueueView, due: bool, served: bool, call: CallView)
    ensures
        due && served && !queue.in_flight.contains(call.tag) ==> asks(
            asked_queue(queue, due, served, call),
            call.method,
            call.tag,
        ),
        due && served && !queue.in_flight.contains(call.tag) && call.params == id_params(
            call.params.member_text("id"@)->0,
        ) ==> asks_about(
            asked_queue(queue, due, served, call),
            call.method,
            call.tag,
            call.params.member_text("id"@)->0,
        ),
        forall|method: Seq<char>, tag: TagView| #[trigger]
            asks(queue, method, tag) ==> asks(asked_queue(queue, due, served, call), method, tag),
        forall|tag: TagView|
            tag != call.tag ==> (asked_queue(queue, due, served, call).in_flight.contains(tag)
                <==> #[trigger] queue.in_flight.contains(tag)),
{
    let after = asked_queue(queue, due, served, call);
    let n = queue.outbound.len() as int;
    if due && served && !queue.in_flight.contains(call.tag) {
        assert(after.outbound[n] == call);
        lemma_action_call(Seq::empty(), Plane::Interactive, call.params.member_text("id"@)->0, Seq::empty());
    }
    assert forall|method: Seq<char>, tag: TagView| #[trigger] asks(queue, method, tag) implies asks(
        after,
        method,
        tag,
    ) by {
        let i = choose|i: int|
            0 <= i < queue.outbound.len() && (#[trigger] queue.outbound[i]).method == method
                && queue.outbound[i].tag == tag;
        assert(after.outbound[i] == queue.outbound[i]);
    }
}

/// Each panel of the tab in view is asked for by its own method, once it is due, where the gateway
/// serves it and it is not asked for already.
#[verifier::rlimit(60)]
pub proof fn lemma_a_tab_asks_for_what_it_shows(app: App, queue: QueueView)
    ensures
        ({
            let after = app.tab_queue(queue);
            let (t, hello) = (app.ticks, app.hello);
            &&& app.tab == Tab::Dashboard && app.status.is_due(t) && hello.lists("runtime.status"@)
                && !queue.in_flight.contains(TagView::Status) ==> asks(
                after,
                "runtime.status"@,
                TagView::Status,
            )
            &&& app.tab == Tab::Dashboard && app.providers.is_due(t) && hello.lists(
                "runtime.providers"@,
            ) && !queue.in_flight.contains(TagView::Providers) ==> asks(
                after,
                "runtime.providers"@,
                TagView::Providers,
            )
            &&& app.tab == Tab::Sessions && app.sessions.interactive.is_due(t) && hello.lists(
                "interactive.list"@,
            ) && !queue.in_flight.contains(TagView::Sessions { plane: Plane::Interactive }) ==> asks(
                after,
                "interactive.list"@,
                TagView::Sessions { plane: Plane::Interactive },
            )
            &&& app.tab == Tab::Sessions && app.sessions.coding.is_due(t) && hello.lists(
                "coding.list"@,
            ) && !queue.in_flight.contains(TagView::Sessions { plane: Plane::Coding }) ==> asks(
                after,
                "coding.list"@,
                TagView::Sessions { plane: Plane::Coding },
            )
            &&& app.tab == Tab::Agents && app.agents.rows.is_due(t) && hello.lists("agents.list"@)
                && !queue.in_flight.contains(TagView::Agents) ==> asks(
                after,
                "agents.list"@,
                TagView::Agents,
            )
            &&& app.tab == Tab::Teams && app.teams.rows.is_due(t) && hello.lists("teams.list"@)
                && !queue.in_flight.contains(TagView::Teams) ==> asks(
                after,
                "teams.list"@,
                TagView::Teams,
            )
            &&& app.tab == Tab::Plans && app.plans.rows.is_due(t) && hello.lists("plans.list"@)
                && !queue.in_flight.contains(TagView::Plans) ==> asks(
                after,
                "plans.list"@,
                TagView::Plans,
            )
            &&& app.tab == Tab::Plans && app.control.rows.is_due(t) && hello.lists("control.list"@)
                && !queue.in_flight.contains(TagView::ControlRuns) ==> asks(
                after,
                "control.list"@,
                TagView::ControlRuns,
            )
            &&& app.tab == Tab::Upgrade && app.upgrade.status.is_due(t) && hello.lists(
                "upgrade.status"@,
            ) && !queue.in_flight.contains(TagView::UpgradeStatus) ==> asks(
                after,
                "upgrade.status"@,
                TagView::UpgradeStatus,
            )
            &&& app.tab == Tab::Upgrade && app.upgrade.rollouts.is_due(t) && hello.lists(
                "upgrade.rollouts"@,
            ) && !queue.in_flight.contains(TagView::Rollouts) ==> asks(
                after,
                "upgrade.rollouts"@,
                TagView::Rollouts,
            )
            &&& app.tab == Tab::Logs ==> after == queue
        }),
{
    let (t, hello) = (app.ticks, app.hello);
    match app.tab {
        Tab::Dashboard => {
            let call = plain_call(TagView::Status, "runtime.status"@, no_params());
            let due = app.status.is_due(t);
            lemma_asked_queue(queue, due, hello.lists("runtime.status"@), call);
            lemma_asked_queue(
                asked_queue(queue, due, hello.lists("runtime.status"@), call),
                app.providers.is_due(t),
                hello.lists("runtime.providers"@),
                plain_call(TagView::Providers, "runtime.providers"@, no_params()),
            );
        },
        Tab::Sessions => {
            let call = plain_call(
                TagView::Sessions { plane: Plane::Interactive },
                "interactive.list"@,
                no_params(),
            );
            let due = app.sessions.interactive.is_due(t);
            lemma_asked_queue(queue, due, hello.lists("interactive.list"@), call);
            lemma_asked_queue(
                asked_queue(queue, due, hello.lists("interactive.list"@), call),
                app.sessions.coding.is_due(t),
                hello.lists("coding.list"@),
                plain_call(TagView::Sessions { plane: Plane::Coding }, "coding.list"@, no_params()),
            );
        },
        Tab::Agents => {
            let call = plain_call(TagView::Agents, "agents.list"@, no_params());
            let (due, served) = (app.agents.rows.is_due(t), hello.lists("agents.list"@));
            lemma_asked_queue(queue, due, served, call);
            lemma_detail_queue(
                asked_queue(queue, due, served, call),
                app.agents,
                t,
                hello,
                |id: Seq<char>| TagView::AgentState { id },
                "agents.state"@,
            );
        },
        Tab::Teams => {
            let call = plain_call(TagView::Teams, "teams.list"@, no_params());
            let (due, served) = (app.teams.rows.is_due(t), hello.lists("teams.list"@));
            lemma_asked_queue(queue, due, served, call);
            lemma_detail_queue(
                asked_queue(queue, due, served, call),
                app.teams,
                t,
                hello,
                |id: Seq<char>| TagView::TeamState { id },
                "teams.state"@,
            );
        },
        Tab::Plans => {
            let call = plain_call(TagView::Plans, "plans.list"@, no_params());
            let (due, served) = (app.plans.rows.is_due(t), hello.lists("plans.list"@));
            lemma_asked_queue(queue, due, served, call);
            let first = asked_queue(queue, due, served, call);
            let call = plain_call(TagView::ControlRuns, "control.list"@, no_params());
            let (due, served) = (app.control.rows.is_due(t), hello.lists("control.list"@));
            lemma_asked_queue(first, due, served, call);
            let second = asked_queue(first, due, served, call);
            let plan = |id: Seq<char>| TagView::Plan { id };
            lemma_detail_queue(second, app.plans, t, hello, plan, "plans.get"@);
            lemma_detail_queue(
                detail_queue(second, app.plans, t, hello, plan, "plans.get"@),
                app.control,
                t,
                hello,
                |id: Seq<char>| TagView::ControlRun { id },
                "control.get"@,
            );
        },
        Tab::Upgrade => {
            let call = plain_call(TagView::UpgradeStatus, "upgrade.status"@, no_params());
            let (due, served) = (app.upgrade.status.is_due(t), hello.lists("upgrade.status"@));
            lemma_asked_queue(queue, due, served, call);
            let first = asked_queue(queue, due, served, call);
            let call = plain_call(TagView::Rollouts, "upgrade.rollouts"@, no_params());
            let (due, served) = (app.upgrade.rollouts.is_due(t), hello.lists("upgrade.rollouts"@));
            lemma_asked_queue(first, due, served, call);
            let second = asked_queue(first, due, served, call);
            if let Some(call) = app.section_call() {
                lemma_asked_queue(
                    second,
                    app.upgrade.panel_of(app.upgrade.chosen()).is_due(t),
                    hello.lists(call.method),
                    call,
                );
            }
        },
        Tab::Logs => {},
    }
}

proof fn lemma_detail_queue(
    queue: QueueView,
    explorer: Explorer,
    ticks: u64,
    hello: Hello,
    tag: spec_fn(Seq<char>) -> TagView,
    method: Seq<char>,
)
    ensures
        forall|m: Seq<char>, g: TagView| #[trigger]
            asks(queue, m, g) ==> asks(
                detail_queue(queue, explorer, ticks, hello, tag, method),
                m,
                g,
            ),
        explorer.chosen() matches Some(row) ==> hello.lists(method) && turned(
            explorer,
            row.id@,
        ).is_due(ticks) && !queue.in_flight.contains(tag(row.id@)) ==> asks_about(
            detail_queue(queue, explorer, ticks, hello, tag, method),
            method,
            tag(row.id@),
            row.id@,
        ),
{
    if let Some(row) = explorer.chosen() {
        let call = plain_call(tag(row.id@), method, id_params(row.id@));
        lemma_action_call(Seq::empty(), Plane::Interactive, row.id@, Seq::empty());
        lemma_asked_queue(
            queue,
            turned(explorer, row.id@).is_due(ticks),
            hello.lists(method),
            call,
        );
    }
}

/// The detail that a tab asks for is that of the row under its cursor.
#[verifier::rlimit(60)]
pub proof fn lemma_a_detail_is_of_the_row_under_the_cursor(app: App, queue: QueueView)
    ensures
        app.tab == Tab::Agents ==> (app.agents.chosen() matches Some(row) ==> app.hello.lists(
            "agents.state"@,
        ) && turned(app.agents, row.id@).is_due(app.ticks) && !queue.in_flight.contains(
            TagView::AgentState { id: row.id@ },
        ) ==> asks_about(
            app.tab_queue(queue),
            "agents.state"@,
            TagView::AgentState { id: row.id@ },
            row.id@,
        )),
        app.tab == Tab::Teams ==> (app.teams.chosen() matches Some(row) ==> app.hello.lists(
            "teams.state"@,
        ) && turned(app.teams, row.id@).is_due(app.ticks) && !queue.in_flight.contains(
            TagView::TeamState { id: row.id@ },
        ) ==> asks_about(
            app.tab_queue(queue),
            "teams.state"@,
            TagView::TeamState { id: row.id@ },
            row.id@,
        )),
        app.tab == Tab::Plans ==> (app.control.chosen() matches Some(row) ==> app.hello.lists(
            "control.get"@,
        ) && turned(app.control, row.id@).is_due(app.ticks) && !queue.in_flight.contains(
            TagView::ControlRun { id: row.id@ },
        ) ==> asks_about(
            app.tab_queue(queue),
            "control.get"@,
            TagView::ControlRun { id: row.id@ },
            row.id@,
        )),
{
    let (t, hello) = (app.ticks, app.hello);
    match app.tab {
        Tab::Agents => {
            let call = plain_call(TagView::Agents, "agents.list"@, no_params());
            let (due, served) = (app.agents.rows.is_due(t), hello.lists("agents.list"@));
            lemma_asked_queue(queue, due, served, call);
            lemma_detail_queue(
                asked_queue(queue, due, served, call),
                app.agents,
                t,
                hello,
                |id: Seq<char>| TagView::AgentState { id },
                "agents.state"@,
            );
        },
        Tab::Teams => {
            let call = plain_call(TagView::Teams, "teams.list"@, no_params());
            let (due, served) = (app.teams.rows.is_due(t), hello.lists("teams.list"@));
            lemma_asked_queue(queue, due, served, call);
            lemma_detail_queue(
                asked_queue(queue, due, served, call),
                app.teams,
                t,
                hello,
                |id: Seq<char>| TagView::TeamState { id },
                "teams.state"@,
            );
        },
        Tab::Plans => {
            let call = plain_call(TagView::Plans, "plans.list"@, no_params());
            let (due, served) = (app.plans.rows.is_due(t), hello.lists("plans.list"@));
            lemma_asked_queue(queue, due, served, call);
            let first = asked_queue(queue, due, served, call);
            let call = plain_call(TagView::ControlRuns, "control.list"@, no_params());
            let (due, served) = (app.control.rows.is_due(t), hello.lists("control.list"@));
            lemma_asked_queue(first, due, served, call);
            let second = asked_queue(first, due, served, call);
            let plan = |id: Seq<char>| TagView::Plan { id };
            if let Some(row) = app.plans.chosen() {
                let call = plain_call(plan(row.id@), "plans.get"@, id_params(row.id@));
                lemma_asked_queue(
                    second,
                    turned(app.plans, row.id@).is_due(t),
                    hello.lists("plans.get"@),
                    call,
                );
            }
            lemma_detail_queue(
                detail_queue(second, app.plans, t, hello, plan, "plans.get"@),
                app.control,
                t,
                hello,
                |id: Seq<char>| TagView::ControlRun { id },
                "control.get"@,
            );
        },
        _ => {},
    }
}

// ----- sessions that open -----------------------------------------------------------

/// A session that opens is subscribed to from where its transcript stops, and is the one that is
/// open afterwards.
#[verifier::rlimit(60)]
pub proof fn lemma_an_opened_session_is_subscribed_to(
    before: App,
    after: App,
    plane: Plane,
    id: Seq<char>,
)
    requires
        before.wf(),
        before.session_opened(after, plane, id),
        before.hello.lists(repair_method(plane, true)),
        before.next_round(plane, id) <= 40,
        ({
            let watches = before.sessions.watches@;
            watched(watches, plane, id) ==> !watches[watch_at(watches, plane, id)].resyncing
        }),
        forall|cursor: u64|
            !#[trigger] before.queue@.in_flight.contains(
                TagView::Resync { plane, id, cursor, subscribe: true },
            ),
    ensures
        key_of(after.sessions.open) == Some((plane, id)),
        after.tab == Tab::Sessions,
        left(before, after),
        newest(after).method == repair_method(plane, true),
        newest(after).params.member_text("id"@) == Some(id),
        newest(after).params.member("cursor"@) == Some(
            JsonView::Unsigned(
                if watched(before.sessions.watches@, plane, id) {
                    before.sessions.watches@[watch_at(
                        before.sessions.watches@,
                        plane,
                        id,
                    )].at() as u64
                } else {
                    0
                },
            ),
        ),
{
    let shown = choose|shown: App| #[trigger]
        before.opened(shown, plane, id) && shown.resynced(after, plane, id, true);
    let now = shown.sessions.watches@;
    let at = watch_at(now, plane, id);
    assert(now[at].is(plane, id));
    if !watched(before.sessions.watches@, plane, id) {
        let last = now.len() - 1;
        assert(now[last] == now.last());
        lemma_watch_at(now, last);
        assert(at == last);
    }
    assert(shown.next_round(plane, id) == before.next_round(plane, id));
    let call = resync_call(plane, id, now[at].at() as u64, true);
    lemma_repair_call(plane, id, now[at].at() as u64, true);
    assert(after.queue@ == shown.queue@.with(call));
    lemma_put(before.queue@, after.queue@, call);
}

/// A reply is waited for once a message went out, and no reply of its own for a steer.
pub proof fn lemma_a_sent_message_awaits_a_reply(before: App, gone: App)
    requires
        before.sessions.composer is Some,
        before.sessions.open is Some,
        before.text_left(gone, before.sessions.composer->0),
    ensures
        ({
            let key = (before.sessions.open->0.plane, before.sessions.open->0.id@);
            &&& before.sessions.composer->0.verb != ComposerVerb::Steer
                ==> gone.sessions.pending_replies@.contains(key)
            &&& before.sessions.composer->0.verb == ComposerVerb::Steer
                ==> gone.sessions.pending_replies@ == before.sessions.pending_replies@
        }),
        before.sessions.composer->0.verb == ComposerVerb::Message ==> gone.sessions.composer->0.verb
            == ComposerVerb::FollowUp,
{
}

// ----- how long a repair goes on ----------------------------------------------------

proof fn lemma_same_cursor(a: Watch, b: Watch)
    requires
        a.wf(),
        b.wf(),
        a.floor == b.floor,
        forall|s: u64| #[trigger] a.held@.contains(s) <==> b.held@.contains(s),
    ensures
        a.at() == b.at(),
{
    lemma_the_cursor_ends_the_unbroken_run(a);
    lemma_the_cursor_ends_the_unbroken_run(b);
    if a.at() < b.at() {
        let s = (a.at() + 1) as u64;
        assert(b.held@.contains(s));
        assert(a.held@.contains(s));
    } else if b.at() < a.at() {
        let s = (b.at() + 1) as u64;
        assert(a.held@.contains(s));
        assert(b.held@.contains(s));
    }
}

/// An answer that is full may not be all there is: the client reads on from where the transcript
/// stops after it.
#[verifier::rlimit(60)]
pub proof fn lemma_a_full_answer_is_read_on(
    before: App,
    after: App,
    plane: Plane,
    id: Seq<char>,
    subscribe: bool,
    asked_from: u64,
    events: Vec<Event>,
    refused: u64,
)
    requires
        before.wf(),
        watched(before.sessions.watches@, plane, id),
        before.resync_settled(
            after,
            plane,
            id,
            asked_from,
            subscribe,
            Replay::Events { events, refused },
        ),
        events@.len() >= 500,
        events@[0].sequence == asked_from + 1,
        asked_from == before.sessions.watches@[watch_at(
            before.sessions.watches@,
            plane,
            id,
        )].at(),
        before.sessions.watches@[watch_at(before.sessions.watches@, plane, id)].ended is None,
        before.next_round(plane, id) <= 40,
        before.hello.lists(repair_method(plane, false)),
        forall|cursor: u64|
            !#[trigger] before.queue@.in_flight.contains(
                TagView::Resync { plane, id, cursor, subscribe: false },
            ),
    ensures
        left(before, after),
        newest(after).method == repair_method(plane, false),
        newest(after).params.member_text("id"@) == Some(id),
        ({
            let now = after.sessions.watches@[watch_at(after.sessions.watches@, plane, id)];
            &&& now.at() > asked_from
            &&& newest(after).params.member("cursor"@) == Some(JsonView::Unsigned(now.at() as u64))
            &&& now.resyncing
        }),
{
    let watches = before.sessions.watches@;
    let at = watch_at(watches, plane, id);
    let was = watches[at];
    let list = events@;
    assert(before.replayed(after, plane, id, asked_from, list, refused));
    let (taken, raised, rested) = if App::asks_approval(list) {
        choose|taken: App, raised: Watch, rested: App| #[trigger]
            before.took_replay(taken, raised, plane, id, asked_from, list, refused) && (
            if App::another_round(
                raised,
                taken.sessions.watches@[at],
                list.len(),
                was.resync_again,
            ) {
                taken.resynced(rested, plane, id, false)
            } else {
                taken.settled(rested, plane, id)
            }) && #[trigger] rested.approval_opened(after, plane, id)
    } else {
        let (taken, raised) = choose|taken: App, raised: Watch| #[trigger]
            before.took_replay(taken, raised, plane, id, asked_from, list, refused) && (
            if App::another_round(
                raised,
                taken.sessions.watches@[at],
                list.len(),
                was.resync_again,
            ) {
                taken.resynced(after, plane, id, false)
            } else {
                taken.settled(after, plane, id)
            });
        (taken, raised, after)
    };
    let now = taken.sessions.watches@[at];
    assert(raised.floor == was.floor);
    assert forall|s: u64| #[trigger] raised.held@.contains(s) <==> was.held@.contains(s) by {
        if was.held@.contains(s) {
            let i = choose|i: int| 0 <= i < was.held@.len() && was.held@[i] == s;
            assert(was.held@[i] > was.floor);
        }
    }
    lemma_same_cursor(raised, was);
    lemma_the_cursor_ends_the_unbroken_run(was);
    lemma_the_cursor_ends_the_unbroken_run(now);
    lemma_asked_holds(raised.held@.to_set(), raised.floor, raised.approvals@, list);
    let next = (asked_from + 1) as u64;
    assert(list[0].sequence == next);
    assert(now.held@.to_set().contains(next));
    if now.at() <= asked_from {
        let s = (now.at() + 1) as u64;
        if s == next {
            assert(now.held@.contains(s));
        } else {
            assert(was.held@.contains(s));
            assert(raised.held@.contains(s));
            assert(raised.held@.to_set().contains(s));
            assert(now.held@.to_set().contains(s));
            assert(now.held@.contains(s));
        }
    }
    assert(App::another_round(raised, now, list.len(), was.resync_again));
    lemma_read_on(taken, rested, after, plane, id, at);
    assert(taken.queue == before.queue);
}

#[verifier::rlimit(60)]
proof fn lemma_read_on(taken: App, rested: App, after: App, plane: Plane, id: Seq<char>, at: int)
    requires
        taken.wf(),
        taken.resynced(rested, plane, id, false),
        rested.approval_opened(after, plane, id) || after == rested,
        0 <= at < taken.sessions.watches@.len(),
        taken.sessions.watches@[at].is(plane, id),
        !taken.sessions.watches@[at].resyncing,
        taken.sessions.watches@[at].ended is None,
        taken.next_round(plane, id) <= 40,
        taken.hello.lists(repair_method(plane, false)),
        forall|cursor: u64|
            !#[trigger] taken.queue@.in_flight.contains(
                TagView::Resync { plane, id, cursor, subscribe: false },
            ),
    ensures
        left(taken, after),
        newest(after).method == repair_method(plane, false),
        newest(after).params.member_text("id"@) == Some(id),
        newest(after).params.member("cursor"@) == Some(
            JsonView::Unsigned(taken.sessions.watches@[at].at() as u64),
        ),
        watch_at(after.sessions.watches@, plane, id) == at,
        after.sessions.watches@[at].resyncing,
        after.sessions.watches@[at].at() == taken.sessions.watches@[at].at(),
{
    let watches = taken.sessions.watches@;
    let watch = watches[at];
    lemma_watch_at(watches, at);
    let call = resync_call(plane, id, watch.at() as u64, false);
    lemma_repair_call(plane, id, watch.at() as u64, false);
    assert(rested.queue@ == taken.queue@.with(call));
    assert(after.queue == rested.queue);
    assert(after.sessions == rested.sessions);
    lemma_put(taken.queue@, after.queue@, call);
    let now = rested.sessions.watches@;
    assert(now[at] == (Watch { resyncing: true, ..watch }));
    lemma_watch_at(now, at);
}

/// A session that makes history faster than it can be read is not asked for ever: past the fortieth
/// repair nothing goes out, and it is said.
pub proof fn lemma_a_repair_is_given_up(
    before: App,
    after: App,
    plane: Plane,
    id: Seq<char>,
    subscribe: bool,
)
    requires
        before.resynced(after, plane, id, subscribe),
        before.next_round(plane, id) > 40,
        watched(before.sessions.watches@, plane, id),
        ({
            let watch = before.sessions.watches@[watch_at(before.sessions.watches@, plane, id)];
            watch.ended is None && !watch.resyncing
        }),
    ensures
        after.queue == before.queue,
        after.sessions.watches == before.sessions.watches,
        after.notice is Some,
{
}

} // verus!
