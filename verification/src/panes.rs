//! What a window offers, held against what comes of it.

use vstd::prelude::*;

use crate::app::App;
use crate::desktop::{choices_of, offered_choices, ApprovalRequest, DesktopApproval};
use crate::explorer::{
    are_rows, listed_values, paths, with_id, Explorer, Listing, Pane, Row, TreeState,
};
use crate::forms::{slash_of, written, StartRequest};
use crate::json::JsonView;
use crate::model::{Effort, Plane, SessionInfo};
use crate::outgoing::{
    left, lemma_a_quick_start_goes_out_with_its_prompt, lemma_what_was_typed_goes_out, newest,
    turn_method,
};
use crate::sessions::{key_of, watch_at, watched};
use crate::tags::{ComposerVerb, TagView};
use crate::text::{said, trimmed, trimmed_end};
use crate::watch::{Pending, Watch};
use crate::window::{
    catalogue_row, either, model_row, provider_row, shared, CatalogueRow, DesktopAccount,
    DesktopSession,
};

verus! {

// ----- messages ---------------------------------------------------------------------

/// A message that a window sends, and that is not refused, goes to the session that is open, as it
/// was written but for white space at its end.
#[verifier::rlimit(60)]
pub proof fn lemma_a_window_sends_what_was_written(
    before: App,
    after: App,
    text: Seq<char>,
    fresh: Seq<char>,
    id: Seq<char>,
)
    requires
        before.message_offered(after, text, fresh, None),
        key_of(before.sessions.open) == Some((Plane::Interactive, id)),
        trimmed(trimmed_end(text)).len() > 0,
        slash_of(trimmed_end(text)) is None,
        before.turn_to_reconcile() is None,
        forall|verb: ComposerVerb|
            before.hello.lists(#[trigger] turn_method(Plane::Interactive, verb)),
        forall|tag: TagView| #[trigger]
            before.queue@.in_flight.contains(tag) ==> !(tag is ComposerAction),
    ensures
        left(before, after),
        newest(after).params.member_text("id"@) == Some(id),
        newest(after).params.member_text("input"@) == Some(trimmed_end(text)),
        exists|verb: ComposerVerb|
            newest(after).method == #[trigger] turn_method(Plane::Interactive, verb),
        after.sessions.composer is Some,
        after.sessions.composer->0.editor.blank(),
{
    let words = trimmed_end(text);
    let composed = choose|composed: App|
        {
            &&& #[trigger] before.composing(composed, ComposerVerb::Message)
            &&& match composed.composer_blocker(words) {
                Some(_) => false,
                None => composed.message_sent(after, words, fresh),
            }
        };
    let held = choose|held: App| #[trigger]
        composed.message_written(held, words) && held.composer_submitted(after, fresh);
    assert(composed.queue == before.queue);
    assert(composed.hello == before.hello);
    assert(composed.sessions.open == before.sessions.open);
    assert(composed.sessions.pending_reconciliations == before.sessions.pending_reconciliations);
    assert(held.queue == before.queue);
    assert(held.sessions.open == before.sessions.open);
    assert(held.turn_to_reconcile() is None);
    lemma_what_was_typed_goes_out(held, after, fresh);
    assert(newest(after).method == turn_method(
        Plane::Interactive,
        held.sessions.composer->0.verb,
    ));
}

/// A message is refused for one of three reasons and for no other: it is blank, no session that
/// takes messages is open, or the session needs an account that is not there.
pub proof fn lemma_a_message_is_refused_for_a_reason(app: App, text: Seq<char>)
    ensures
        app.message_blocker(text) is Some <==> {
            ||| trimmed(trimmed_end(text)).len() == 0
            ||| app.sessions.open is None
            ||| app.sessions.open->0.plane == Plane::Coding
            ||| app.session_needs_account() && !app.is_usable()
        },
{
}

/// A prompt that starts a session from a window goes out with the stored preferences, under the id
/// that was made for it, and follows its start.
#[verifier::rlimit(60)]
pub proof fn lemma_a_window_starts_with_the_stored_preferences(
    before: App,
    after: App,
    text: Seq<char>,
    session_id: Seq<char>,
    turn_id: Seq<char>,
)
    requires
        before.quick_offered(after, text, session_id, turn_id, None),
        !before.reconciling(),
        before.hello.lists("interactive.start"@),
        !before.queue@.in_flight.contains(
            TagView::Start { plane: Plane::Interactive, id: Some(session_id) },
        ),
    ensures
        left(before, after),
        newest(after).method == "interactive.start"@,
        newest(after).params.member("id"@) == written(session_id),
        newest(after).params.member("provider"@) == written(before.provider()),
        newest(after).params.member("model"@) == written(before.model()),
        newest(after).params.member("workspace"@) == written(before.workspace()),
        after.first_message is Some,
        after.first_message->0.input@ == trimmed(text),
        after.first_message->0.turn_id@ == turn_id,
        after.first_message->0.start.id@ == session_id,
{
    let request = choose|request: StartRequest|
        {
            &&& #[trigger] before.quick_request(
                request,
                before.provider(),
                trimmed(text),
                session_id,
            )
            &&& request.refusal() is None
            &&& before.quick_started(after, request, trimmed(text), turn_id)
        };
    lemma_a_quick_start_goes_out_with_its_prompt(before, after, request, trimmed(text), turn_id);
}

// ----- the list of sessions ---------------------------------------------------------

proof fn lemma_open_count(approvals: Seq<Pending>)
    ensures
        Watch::open_count(approvals) == approvals.filter(|p: Pending| !p.answering).len(),
    decreases approvals.len(),
{
    reveal(Seq::filter);
    if approvals.len() > 0 {
        lemma_open_count(approvals.drop_last());
    }
}

/// A row of a window's list is about its own session: it is marked where that one is open, counts
/// the approvals of that one that nobody is answering yet, and offers no change to a session whose
/// owner is away but to take its row off the list.
pub proof fn lemma_a_row_is_about_its_session(
    app: App,
    row: DesktopSession,
    session: SessionInfo,
    group: usize,
    depth: usize,
)
    requires
        app.shows_session(row, session, group, depth),
    ensures
        row.plane == session.plane,
        row.id@ == session.id@,
        row.selected <==> key_of(app.sessions.open) == Some((session.plane, session.id@)),
        watched(app.sessions.watches@, session.plane, session.id@) ==> row.pending_approvals
            == app.sessions.watches@[watch_at(
            app.sessions.watches@,
            session.plane,
            session.id@,
        )].approvals@.filter(|p: Pending| !p.answering).len(),
        !watched(app.sessions.watches@, session.plane, session.id@) ==> row.pending_approvals == 0,
        row.can_rename ==> session.plane == Plane::Interactive && !session.last_known,
        row.can_delete ==> session.last_known || session.status.terminal,
        !app.hello.can_operate() ==> !row.can_rename && !row.can_delete,
{
    let watches = app.sessions.watches@;
    if watched(watches, session.plane, session.id@) {
        lemma_open_count(watches[watch_at(watches, session.plane, session.id@)].approvals@);
    }
}

// ----- the account ------------------------------------------------------------------

/// What a window says of the account: a sign-in is pending while a dialog or the runtime waits for
/// one, an address comes before a plan, and nothing is usable that was not read.
pub proof fn lemma_a_window_reads_the_account(app: App, r: DesktopAccount)
    requires
        app.reads_account(r),
    ensures
        app.account.value is None ==> !r.usable && r.identity is None,
        app.account.value is Some ==> r.resolved && r.usable == app.account.value->0.usable,
        app.account.value is Some && app.account.value->0.login_status@ == "pending"@ ==> r.pending,
        app.account_dialog() is None && app.account.value is None ==> !r.pending && r.url is None
            && r.code is None,
        app.account.value is Some && app.account.value->0.known && app.account.value->0.email is Some
            ==> said(r.identity) == Some(app.account.value->0.email->0@),
        app.account_dialog() is Some ==> said(r.url) == said(app.account_dialog()->0.url) && said(
            r.code,
        ) == said(app.account_dialog()->0.code),
        app.account_dialog() is Some && app.account_dialog()->0.error is Some ==> said(r.error)
            == Some(app.account_dialog()->0.error->0@),
{
}

// ----- approval cards ---------------------------------------------------------------

/// A card shows the request that waits and can be answered by its own id: what it names is what
/// the request names.
pub proof fn lemma_a_card_is_of_the_request_that_waits(
    app: App,
    card: DesktopApproval,
    request: ApprovalRequest,
)
    requires
        app.sessions.open is Some,
        app.open_approval_request() == Some(request),
        card.presents(
            app.sessions.open->0.plane,
            app.sessions.open->0.id@,
            request,
            app.open_node(),
        ),
    ensures
        app.approval_blocker(card.request_id@) is None,
        app.plan_blocker(card.request_id@) is None,
        card.request_id@ == request.request_id@,
        card.session_id@ == app.sessions.open->0.id@,
        card.subject@ == request.subject@,
        said(card.title) == said(request.detail.title),
        said(card.reason) == said(request.detail.reason),
        said(card.command) == said(request.detail.command),
        said(card.cwd) == said(request.detail.cwd),
        card.question == request.question,
        choices_of(card.choices@) == offered_choices(request.detail),
        card.diff is Some <==> request.detail.diff is Some,
{
}

/// A card of a request that no longer waits answers nothing.
pub proof fn lemma_a_stale_card_answers_nothing(app: App, request_id: Seq<char>)
    requires
        app.open_approval_request() matches Some(request) ==> request.request_id@ != request_id,
    ensures
        app.approval_blocker(request_id) is Some,
        app.plan_blocker(request_id) is Some,
{
}

// ----- explorers --------------------------------------------------------------------

proof fn lemma_with_id(values: Seq<JsonView>)
    ensures
        with_id(values) == values.filter(|v: JsonView| v.member("id"@) is Some),
    decreases values.len(),
{
    reveal(Seq::filter);
    if values.len() > 0 {
        lemma_with_id(values.drop_last());
    }
}

/// A list shows every value that has an id, in the order they came, and each row begins with its
/// id.
#[verifier::rlimit(60)]
pub proof fn lemma_a_list_shows_each_value_with_an_id(
    rows: Seq<Row>,
    listing: Listing,
    items: Seq<JsonView>,
    i: int,
)
    requires
        are_rows(rows, listing, listed_values(JsonView::List(items))),
        0 <= i < rows.len(),
    ensures
        rows.len() == items.filter(|v: JsonView| v.member("id"@) is Some).len(),
        rows[i].raw@ == items.filter(|v: JsonView| v.member("id"@) is Some)[i],
        rows[i].raw@.member("id"@) is Some,
        rows[i].id@ == rows[i].raw@.member("id"@)->0.brief(),
        rows[i].label@.take(rows[i].id@.len() as int) == rows[i].id@,
        listing != Listing::Agents && rows[i].raw@.member("status"@) is Some ==> said(
            rows[i].status,
        ) == Some(rows[i].raw@.member("status"@)->0.brief()),
{
    lemma_with_id(items);
    let kept = items.filter(|v: JsonView| v.member("id"@) is Some);
    assert(rows[i].reads(listing, kept[i]));
    items.lemma_filter_pred(|v: JsonView| v.member("id"@) is Some, i);
    assert(rows[i].label@.take(rows[i].id@.len() as int) =~= rows[i].id@);
}

/// A node of a tree that is turned twice is as it was, and no other is touched.
pub proof fn lemma_turning_a_node_twice_leaves_the_tree(
    before: TreeState,
    turned: TreeState,
    after: TreeState,
    path: Seq<char>,
    other: Seq<char>,
)
    requires
        before.turned(turned, path),
        turned.turned(after, path),
        other != path,
    ensures
        paths(turned.open@).contains(path) <==> !paths(before.open@).contains(path),
        paths(after.open@).contains(path) <==> paths(before.open@).contains(path),
        paths(turned.open@).contains(other) <==> paths(before.open@).contains(other),
        paths(after.open@).contains(other) <==> paths(before.open@).contains(other),
        after.selected == before.selected,
{
}

/// The cursor of a list stays on a row, moves by as many rows as it was told where there are as
/// many, and leaves the detail beside it alone.
pub proof fn lemma_the_cursor_of_a_list_stays_on_a_row(explorer: Explorer, delta: int, drawn: int)
    requires
        explorer.focus == Pane::List,
        explorer.selected < explorer.count(),
        explorer.count() <= usize::MAX,
    ensures
        ({
            let after = explorer.travelled(delta, drawn);
            &&& after.selected < explorer.count()
            &&& 0 <= explorer.selected + delta < explorer.count() ==> after.selected
                == explorer.selected + delta
            &&& explorer.selected + delta >= explorer.count() ==> after.selected == explorer.count()
                - 1
            &&& explorer.selected + delta < 0 ==> after.selected == 0
            &&& after.tree == explorer.tree
            &&& after.rows == explorer.rows
        }),
{
}

// ----- reasoning --------------------------------------------------------------------

proof fn lemma_first_row(rows: Seq<CatalogueRow>, provider: Seq<char>)
    requires
        catalogue_row(rows, provider) is Some,
    ensures
        rows.contains(catalogue_row(rows, provider)->0),
        catalogue_row(rows, provider)->0.provider@ == provider,
    decreases rows.len(),
{
    if rows[0].provider@ == provider {
        assert(rows.contains(rows[0]));
    } else {
        lemma_first_row(rows.drop_first(), provider);
        let found = catalogue_row(rows, provider)->0;
        let k = choose|k: int|
            0 <= k < rows.drop_first().len() && rows.drop_first()[k] == found;
        assert(rows[k + 1] == found);
    }
}

/// Nothing is offered of a provider that the catalogue does not list or the runtime does not
/// report.
#[verifier::rlimit(60)]
pub proof fn lemma_no_effort_without_a_catalogue(
    app: App,
    rows: Vec<CatalogueRow>,
    provider: Seq<char>,
    model: Option<Seq<char>>,
    effort: Effort,
)
    requires
        app.reasoning_for(Some(rows), provider, model).contains(effort),
    ensures
        exists|i: int| 0 <= i < rows@.len() && (#[trigger] rows@[i]).provider@ == trimmed(provider),
        provider_row(app.known_providers(), trimmed(provider)) is Some,
        provider_row(app.known_providers(), trimmed(provider))->0.efforts@.contains(effort),
        app.reasoning_for(None, provider, model).len() == 0,
{
    let name = trimmed(provider);
    lemma_first_row(rows@, name);
    let row = catalogue_row(rows@, name)->0;
    let k = choose|k: int| 0 <= k < rows@.len() && rows@[k] == row;
    assert(rows@[k].provider@ == name);
    let entry = provider_row(app.known_providers(), name)->0;
    let wanted = either(App::stated_model(model), said(row.default))->0;
    let offered = model_row(row.models@, wanted)->0.efforts@;
    offered.lemma_filter_contains_rev(|effort: Effort| entry.efforts@.contains(effort), effort);
    let out = shared(offered, entry.efforts@);
    let i = choose|i: int| 0 <= i < out.len() && out[i] == effort;
    offered.lemma_filter_pred(|effort: Effort| entry.efforts@.contains(effort), i);
}

} // verus!
