//! What a person does, and what they find afterwards.

use vstd::prelude::*;

use crate::actions::APPROVAL_CHOICES;
use crate::app::{
    lemma_only_the_visible_tab_is_polled, App, Config, NoticeKind, Overlay, Tab, TICK_CEILING,
};
use crate::explorer::TreeRow;
use crate::forms::{
    lemma_steps_undo_each_other, slash_of, written, Command, NewField, NewSession, ProviderChoice,
    Settings, SettingsField, Slash, StartRequest,
};
use crate::json::JsonView;
use crate::keys::{scroll_of, Chord, Hits, LeaderVerb, Standing};
use crate::ledger::{Ledger, LedgerKey};
use crate::model::{ApprovalDecision, ApprovalMode, ApprovalScope, Plane};
use crate::outgoing::{
    detail_method, left, lemma_a_detail_names_its_event,
    lemma_a_quick_start_goes_out_with_its_prompt, newest,
};
use crate::press::{KeyCode, Press};
use crate::sessions::{key_of, watch_at, watched};
use crate::submit::Edit;
use crate::tags::{ComposerVerb, TagView};
use crate::text::{said, trimmed};
use crate::watch::{lemma_the_oldest_open_approval_is_asked, Watch};

verus! {

// ----- commands ---------------------------------------------------------------------

/// The tab that a command shows, where it shows one.
pub open spec fn shows(command: Command) -> Option<Tab> {
    match command {
        Command::Runtime | Command::Nodes => Some(Tab::Dashboard),
        Command::Agents => Some(Tab::Agents),
        Command::Teams => Some(Tab::Teams),
        Command::Plans => Some(Tab::Plans),
        Command::Upgrades => Some(Tab::Upgrade),
        Command::Logs => Some(Tab::Logs),
        Command::NewSession => Some(Tab::Sessions),
        _ => None,
    }
}

/// A command goes where it says: to its tab with nothing over it, to an empty home, to the picker,
/// to the settings, or between the transcript and its details.
#[verifier::rlimit(60)]
pub proof fn lemma_a_command_goes_where_it_says(before: App, after: App, command: Command)
    requires
        before.commanded(after, command),
    ensures
        shows(command) matches Some(tab) ==> after.tab == tab && after.overlay is None,
        command == Command::NewSession ==> after.sessions.open is None && after.sessions.composer
            is None && after.home_draft.blank(),
        command == Command::SwitchSession ==> after.overlay == Some(
            Overlay::SessionPicker { choice: 0 },
        ) && after.tab == before.tab,
        command == Command::Settings ==> after.overlay is Some && after.overlay->0 is Settings
            && after.tab == before.tab,
        command == Command::SessionDetails ==> after.overlay is None && after.tab == before.tab && (
        after.sessions.show_event_details != before.sessions.show_event_details <==> before.tab
            == Tab::Sessions && before.sessions.open is Some),
        command != Command::NewSession ==> after.sessions.open == before.sessions.open,
        after.quit == before.quit,
{
}

/// A word behind a slash runs the command it spells, and white space round it does not matter.
#[verifier::rlimit(60)]
pub proof fn lemma_a_slash_word_runs_its_command(input: Seq<char>)
    ensures
        trimmed(input) == "/new"@ ==> slash_of(input) == Some(Slash::Run(Command::NewSession)),
        trimmed(input) == "/switch"@ ==> slash_of(input) == Some(Slash::Run(Command::SwitchSession)),
        trimmed(input) == "/details"@ ==> slash_of(input) == Some(
            Slash::Run(Command::SessionDetails),
        ),
        trimmed(input) == "/connect"@ ==> slash_of(input) == Some(
            Slash::Run(Command::ConnectChatGpt),
        ),
        trimmed(input) == "/runtime"@ ==> slash_of(input) == Some(Slash::Run(Command::Runtime)),
        trimmed(input) == "/agents"@ ==> slash_of(input) == Some(Slash::Run(Command::Agents)),
        trimmed(input) == "/teams"@ ==> slash_of(input) == Some(Slash::Run(Command::Teams)),
        trimmed(input) == "/plans"@ ==> slash_of(input) == Some(Slash::Run(Command::Plans)),
        trimmed(input) == "/upgrades"@ ==> slash_of(input) == Some(Slash::Run(Command::Upgrades)),
        trimmed(input) == "/logs"@ ==> slash_of(input) == Some(Slash::Run(Command::Logs)),
        trimmed(input) == "/settings"@ ==> slash_of(input) == Some(Slash::Run(Command::Settings)),
        trimmed(input) == "/help"@ ==> slash_of(input) == Some(Slash::Help),
        trimmed(input) == "/quit"@ ==> slash_of(input) == Some(Slash::Quit),
        trimmed(input) == "/clear"@ ==> slash_of(input) == Some(Slash::Clear),
        slash_of(input) is Some ==> trimmed(input).len() > 0 && trimmed(input)[0] == '/',
{
    reveal_strlit("/new");
    reveal_strlit("/switch");
    reveal_strlit("/details");
    reveal_strlit("/connect");
    reveal_strlit("/runtime");
    reveal_strlit("/agents");
    reveal_strlit("/teams");
    reveal_strlit("/plans");
    reveal_strlit("/upgrades");
    reveal_strlit("/logs");
    reveal_strlit("/settings");
    reveal_strlit("/help");
    reveal_strlit("/quit");
    reveal_strlit("/clear");
    assert("/new"@.len() == 4);
    assert("/switch"@.len() == 7 && "/switch"@[1] == 's');
    assert("/agents"@.len() == 7 && "/agents"@[1] == 'a');
    assert("/details"@.len() == 8 && "/details"@[1] == 'd');
    assert("/connect"@.len() == 8 && "/connect"@[1] == 'c');
    assert("/runtime"@.len() == 8 && "/runtime"@[1] == 'r');
    assert("/teams"@.len() == 6 && "/teams"@[1] == 't');
    assert("/plans"@.len() == 6 && "/plans"@[1] == 'p');
    assert("/clear"@.len() == 6 && "/clear"@[1] == 'c');
    assert("/upgrades"@.len() == 9 && "/upgrades"@[1] == 'u');
    assert("/settings"@.len() == 9 && "/settings"@[1] == 's');
    assert("/logs"@.len() == 5 && "/logs"@[1] == 'l');
    assert("/help"@.len() == 5 && "/help"@[1] == 'h');
    assert("/quit"@.len() == 5 && "/quit"@[1] == 'q');
}

// ----- tabs -------------------------------------------------------------------------

/// A digit shows the tab in its place, from the dashboard at one to the logs at seven, and keeps
/// what is open there.
#[verifier::rlimit(60)]
pub proof fn lemma_a_digit_shows_the_tab_in_its_place(
    before: App,
    after: App,
    press: Press,
    hits: Hits,
    standing: Standing,
    c: char,
)
    requires
        before.listed(after, press, hits, standing),
        press.code == KeyCode::Char(c),
        !press.ctrl,
        '1' <= c <= '7',
    ensures
        after.tab == match c {
            '1' => Tab::Dashboard,
            '2' => Tab::Sessions,
            '3' => Tab::Agents,
            '4' => Tab::Teams,
            '5' => Tab::Plans,
            '6' => Tab::Upgrade,
            _ => Tab::Logs,
        },
        after.sessions.open == before.sessions.open,
        after.overlay == before.overlay,
{
}

#[verifier::rlimit(60)]
proof fn lemma_tab_step(before: App, after: App, press: Press, hits: Hits, standing: Standing)
    requires
        before.listed(after, press, hits, standing),
        press.code == KeyCode::Tab || press.code == KeyCode::BackTab,
    ensures
        press.code == KeyCode::Tab ==> after.tab == before.tab_at(1),
        press.code == KeyCode::BackTab ==> after.tab == before.tab_at(6),
{
    if press.code == KeyCode::Tab {
        lemma_only_the_visible_tab_is_polled((App { tab: before.tab_at(1), ..before }), after);
    } else {
        lemma_only_the_visible_tab_is_polled((App { tab: before.tab_at(6), ..before }), after);
    }
}

/// Tab and back-tab undo each other.
pub proof fn lemma_stepping_between_tabs_comes_back(
    before: App,
    there: App,
    after: App,
    on: Press,
    back: Press,
    hits: Hits,
    standing: Standing,
)
    requires
        on.code == KeyCode::Tab,
        back.code == KeyCode::BackTab,
        before.listed(there, on, hits, standing) && there.listed(after, back, hits, standing)
            || before.listed(there, back, hits, standing) && there.listed(after, on, hits, standing),
    ensures
        there.tab != before.tab,
        after.tab == before.tab,
{
    if before.listed(there, on, hits, standing) && there.listed(after, back, hits, standing) {
        lemma_tab_step(before, there, on, hits, standing);
        lemma_tab_step(there, after, back, hits, standing);
    } else {
        lemma_tab_step(before, there, back, hits, standing);
        lemma_tab_step(there, after, on, hits, standing);
    }
}

/// Page keys turn further than arrows, both ways alike, and down is towards the newest.
pub proof fn lemma_scroll_keys_mirror_each_other(up: Press, down: Press)
    requires
        (up.code == KeyCode::PageUp && down.code == KeyCode::PageDown) || (up.code == KeyCode::Up
            && down.code == KeyCode::Down),
        up.ctrl == down.ctrl,
        up.shift == down.shift,
    ensures
        scroll_of(up) is Some <==> scroll_of(down) is Some,
        scroll_of(up) is Some ==> scroll_of(up)->0 < 0 && scroll_of(down)->0 == -scroll_of(up)->0,
{
}

/// What scrolling up hides at the bottom, scrolling down brings back; the newest row is followed
/// exactly once it is reached again.
pub proof fn lemma_scrolling_to_the_newest_follows(watch: Watch, delta: int)
    requires
        delta > 0,
    ensures
        watch.scrolled(delta).scroll <= watch.scroll,
        watch.scroll <= delta ==> watch.scrolled(delta).scroll == 0 && watch.scrolled(delta).follow,
        watch.scroll > delta ==> watch.scrolled(delta).scroll + delta == watch.scroll,
        watch.scroll < watch.max_scroll ==> !watch.scrolled(-delta).follow && watch.scrolled(
            -delta,
        ).scroll > watch.scroll,
        watch.scrolled(delta).held == watch.held,
        watch.scrolled(-delta).held == watch.held,
{
}

// ----- dialogs ----------------------------------------------------------------------

/// Putting an approval's dialog away answers nothing; the approval still waits.
pub proof fn lemma_escape_answers_nothing(before: App, after: App)
    requires
        before.approval_keyed(after, KeyCode::Esc),
        before.overlay is Some && before.overlay->0 is Approval,
    ensures
        after.overlay is None,
        after.queue == before.queue,
        after.sessions == before.sessions,
        after.quit == before.quit,
{
}

/// Moving between the answers of an approval sends nothing either, goes one row at a time, and
/// stops at both ends.
pub proof fn lemma_moving_between_answers_sends_nothing(before: App, after: App, code: KeyCode)
    requires
        before.approval_keyed(after, code),
        before.overlay is Some && before.overlay->0 is Approval,
        code == KeyCode::Down || code == KeyCode::Up,
        before.overlay->0->Approval_choice < 4,
    ensures
        after.queue == before.queue,
        after.sessions == before.sessions,
        after.overlay is Some && after.overlay->0 is Approval,
        after.overlay->0->Approval_request_id == before.overlay->0->Approval_request_id,
        after.overlay->0->Approval_id == before.overlay->0->Approval_id,
        after.overlay->0->Approval_plane == before.overlay->0->Approval_plane,
        ({
            let (was, now) = (
                before.overlay->0->Approval_choice,
                after.overlay->0->Approval_choice,
            );
            &&& now < 4
            &&& code == KeyCode::Down ==> now == if was == 3 {
                3
            } else {
                was + 1
            }
            &&& code == KeyCode::Up ==> was == if now == 0 && was == 0 {
                0
            } else {
                now + 1
            }
        }),
{
}

/// A letter that is typed into a form lands in the row under the cursor and in no other, and a
/// backspace takes it away again.
pub proof fn lemma_a_typed_letter_can_be_taken_back(
    before: NewSession,
    typed: NewSession,
    after: NewSession,
    c: char,
    providers: nat,
)
    requires
        before.keyed(typed, KeyCode::Char(c), providers),
        typed.keyed(after, KeyCode::Backspace, providers),
    ensures
        before.field == NewField::Workspace ==> typed.request.workspace@
            == before.request.workspace@.push(c) && typed.request.objective
            == before.request.objective,
        before.field == NewField::Objective ==> typed.request.objective@
            == before.request.objective@.push(c) && typed.request.workspace
            == before.request.workspace,
        before.field != NewField::Workspace && before.field != NewField::Objective ==> typed
            == before,
        after.request.workspace@ == before.request.workspace@ || before.field
            != NewField::Workspace,
        after.request.objective@ == before.request.objective@ || before.field
            != NewField::Objective,
        after.field == before.field,
        after.request.plane == before.request.plane,
{
    assert(before.request.workspace@.push(c).drop_last() =~= before.request.workspace@);
    assert(before.request.objective@.push(c).drop_last() =~= before.request.objective@);
}

/// The arrows of a form change the row under the cursor alone, and one undoes the other.
pub proof fn lemma_the_arrows_of_a_form_undo_each_other(
    before: NewSession,
    there: NewSession,
    after: NewSession,
    providers: nat,
)
    requires
        before.keyed(there, KeyCode::Right, providers),
        there.keyed(after, KeyCode::Left, providers),
        before.provider < providers,
        providers <= usize::MAX,
        before.approval < 5,
    ensures
        after.provider == before.provider,
        after.approval == before.approval,
        after.request.plane == before.request.plane,
        before.field != NewField::Plane ==> there.request.plane == before.request.plane,
        before.field == NewField::Plane ==> there.request.plane != before.request.plane,
        before.field != NewField::Provider ==> there.provider == before.provider,
        before.field != NewField::ApprovalMode ==> there.approval == before.approval,
        there.request.workspace == before.request.workspace,
        there.request.objective == before.request.objective,
{
    lemma_steps_undo_each_other(before.provider as int, 1, providers as int);
    lemma_steps_undo_each_other(before.approval as int, 1, 5);
}

// ----- settings ---------------------------------------------------------------------

/// What is saved is what the rows of the settings read: the provider under its cursor, the
/// workspace without the white space round it, the approval mode by its own word. Whatever else
/// the preferences hold stays.
pub proof fn lemma_saving_stores_what_the_rows_read(
    before: Config,
    after: Config,
    settings: Settings,
    rows: Seq<ProviderChoice>,
)
    requires
        App::stored(before, after, settings, rows),
    ensures
        settings.provider < rows.len() && rows[settings.provider as int] is Unset
            ==> after.provider is None,
        settings.provider < rows.len() && rows[settings.provider as int] is Probed ==> said(
            after.provider,
        ) == Some(rows[settings.provider as int]->Probed_name@),
        trimmed(settings.workspace@).len() == 0 ==> after.workspace is None,
        trimmed(settings.workspace@).len() > 0 ==> said(after.workspace) == Some(
            trimmed(settings.workspace@),
        ),
        said(after.approval_mode) == match settings.approval {
            1 => Some("default"@),
            2 => Some("prompt"@),
            3 => Some("auto_edit"@),
            4 => Some("auto_approve"@),
            _ => None,
        },
        after.model == before.model,
        after.sandbox_mode == before.sandbox_mode,
{
}

/// Leaving the settings without saving stores nothing, and saving asks for the file to be written.
#[verifier::rlimit(60)]
pub proof fn lemma_only_saving_stores(before: App, after: App, code: KeyCode)
    requires
        before.settings_keyed(after, code),
        before.overlay is Some && before.overlay->0 is Settings,
    ensures
        !(code == KeyCode::Enter && (before.overlay->0->Settings_0).field == SettingsField::Save)
            ==> after.config == before.config && after.save_pending == before.save_pending,
        code == KeyCode::Enter && (before.overlay->0->Settings_0).field == SettingsField::Save
            ==> after.save_pending && after.overlay is None,
        code == KeyCode::Esc ==> after.overlay is None,
        after.queue == before.queue,
{
}

// ----- the leader key ---------------------------------------------------------------

/// A verb behind the leader key does what it is named for.
#[verifier::rlimit(60)]
pub proof fn lemma_a_leader_verb_does_what_it_says(before: App, after: App, verb: LeaderVerb)
    requires
        before.led_by(after, verb),
    ensures
        verb is Status || verb is TabDashboard ==> after.tab == Tab::Dashboard,
        verb is TabSessions ==> after.tab == Tab::Sessions,
        verb is TabUpgrade ==> after.tab == Tab::Upgrade,
        verb is TabLogs ==> after.tab == Tab::Logs,
        verb is Help ==> after.overlay == Some(Overlay::Help),
        verb is Quit ==> after.overlay is Some && after.overlay->0 is Quit,
        verb is New ==> after.sessions.open is None && after.tab == Tab::Sessions,
        verb is Sessions ==> after.overlay == Some(Overlay::SessionPicker { choice: 0 }),
        verb is Settings && before.overlay is None ==> after.overlay is Some && after.overlay->0
            is Settings,
        after.quit == before.quit,
{
}

// ----- the home ---------------------------------------------------------------------

/// What is written on the home starts a session with the stored preferences, under the id that was
/// made for it, and is kept as it stands to be its first message.
#[verifier::rlimit(60)]
pub proof fn lemma_the_home_starts_what_is_written(
    before: App,
    after: App,
    session_id: Seq<char>,
    turn_id: Seq<char>,
)
    requires
        before.home_submitted(after, session_id, turn_id),
        trimmed(before.home_draft.text@).len() > 0,
        slash_of(before.home_draft.text@) is None,
        before.blocker() is None,
        !before.needs_account() || before.is_usable(),
        !before.reconciling(),
        trimmed(before.provider()).len() > 0,
        !before.queue@.in_flight.contains(
            TagView::Start { plane: Plane::Interactive, id: Some(session_id) },
        ),
    ensures
        left(before, after),
        newest(after).method == "interactive.start"@,
        newest(after).params.member("id"@) == written(session_id),
        newest(after).params.member("provider"@) == written(before.provider()),
        newest(after).params.member("model"@) == written(before.model()),
        newest(after).params.member("workspace"@) == written(before.workspace()),
        after.first_message is Some,
        after.first_message->0.input@ == before.home_draft.text@,
        after.first_message->0.turn_id@ == turn_id,
        after.first_message->0.start.id@ == session_id,
{
    let prompt = before.home_draft.text@;
    assert(before.home_draft.submission_of() == Some(prompt));
    assert(before.prompt_started(after, prompt, session_id, turn_id));
    let request = choose|request: StartRequest|
        {
            &&& #[trigger] before.quick_request(request, before.provider(), prompt, session_id)
            &&& match request.refusal() {
                Some(refusal) => before.home_said(after, refusal.words()),
                None => before.quick_started(after, request, prompt, turn_id),
            }
        };
    assert(request.refusal() is None);
    lemma_a_quick_start_goes_out_with_its_prompt(before, after, request, prompt, turn_id);
}

/// Nothing starts from a home that cannot start anything: what is written stays and it is said why.
#[verifier::rlimit(60)]
pub proof fn lemma_a_blocked_home_starts_nothing(
    before: App,
    after: App,
    session_id: Seq<char>,
    turn_id: Seq<char>,
)
    requires
        before.home_submitted(after, session_id, turn_id),
        slash_of(before.home_draft.text@) is None,
        !(before.connection is Live) || !before.hello.lists("interactive.start"@)
            || !before.hello.can_operate(),
    ensures
        after.queue == before.queue,
        after.home_draft == before.home_draft,
        after.first_message == before.first_message,
        after.home_error is Some,
{
}

/// A sign-in that a start waited for lets that start go, and no other: only while it is still what
/// the home shows.
#[verifier::rlimit(60)]
pub proof fn lemma_a_sign_in_starts_only_what_was_written(before: App, after: App, turn_id: Seq<char>)
    requires
        before.login_finished(after, turn_id),
        before.home_login_start is Some,
        before.home_draft.text@ != (before.home_login_start->0).1@ || before.tab != Tab::Sessions
            || before.sessions.open is Some,
    ensures
        after.queue == before.queue,
        after.first_message == before.first_message,
        after.home_draft == before.home_draft,
{
}

/// Escape goes back one step at a time: from another tab to the sessions, from a composer to its
/// transcript, from a transcript to the list, and from the list to the home.
#[verifier::rlimit(60)]
pub proof fn lemma_escape_goes_back_one_step(before: App, after: App)
    requires
        before.escaped(after),
    ensures
        after.tab == Tab::Sessions,
        before.tab != Tab::Sessions ==> after.sessions.open == before.sessions.open
            && after.sessions.composer == before.sessions.composer,
        before.tab == Tab::Sessions && before.sessions.composer is Some ==> after.sessions.composer
            is None && after.sessions.open == before.sessions.open && after.sessions.focus
            == before.sessions.focus,
        before.tab == Tab::Sessions && before.sessions.composer is None && before.sessions.focus
            is Detail ==> after.sessions.focus is List && after.sessions.open
            == before.sessions.open,
        before.tab == Tab::Sessions && before.sessions.composer is None && before.sessions.focus
            is List ==> after.sessions.open is None,
        before.tab == Tab::Sessions ==> after.queue == before.queue,
{
}

/// Enter on the list opens the session under the cursor.
pub proof fn lemma_enter_opens_the_session_under_the_cursor(
    before: App,
    after: App,
    row: Option<TreeRow>,
)
    requires
        before.activated(after, row),
        before.tab == Tab::Sessions,
        before.sessions.focus is List,
        before.sessions.selected < before.sessions.rows().len(),
    ensures
        ({
            let session = before.sessions.rows()[before.sessions.selected as int];
            before.session_opened(after, session.plane, session.id@)
        }),
{
}

// ----- notices ----------------------------------------------------------------------

/// What is said stays to be read for twenty ticks, and is gone after that.
pub proof fn lemma_a_notice_is_read_and_goes(app: App, text: Seq<char>, kind: NoticeKind)
    requires
        app.says(text, kind),
        app.ticks < TICK_CEILING,
    ensures
        app.notice->0.until == app.ticks + 20,
        app.one_on().ticks == app.ticks + 1,
        app.one_on().notice is Some <==> app.ticks + 1 < app.notice->0.until,
        app.one_on().notice is Some ==> app.one_on().notice == app.notice,
{
}

// ----- the composer -----------------------------------------------------------------

/// Closing a composer sends nothing, and what the editor made of any other key is what it holds.
#[verifier::rlimit(60)]
pub proof fn lemma_only_submitting_sends(
    before: App,
    after: App,
    edit: Edit,
    fresh: Seq<char>,
    drawn: int,
)
    requires
        before.composer_keyed(after, edit, fresh, drawn),
        before.sessions.composer is Some,
        !before.first_is_away(),
        edit.action is Cancel || edit.action is Edited,
    ensures
        after.queue == before.queue,
        edit.action is Cancel ==> after.sessions.composer is None,
        edit.action is Edited ==> after.sessions.composer is Some
            && after.sessions.composer->0.editor == edit.draft && after.sessions.composer->0.verb
            == before.sessions.composer->0.verb && after.sessions.composer->0.next_turn_id
            == before.sessions.composer->0.next_turn_id,
        after.sessions.open == before.sessions.open,
{
}

/// While the first message of a session is on its way its composer takes no key.
pub proof fn lemma_a_composer_waits_for_the_first_message(
    before: App,
    after: App,
    edit: Edit,
    fresh: Seq<char>,
    drawn: int,
)
    requires
        before.composer_keyed(after, edit, fresh, drawn),
        before.first_is_away(),
    ensures
        after == before,
{
}

// ----- approvals that open ----------------------------------------------------------

/// The dialog of an approval shows the request that waits longest, with the cursor on the answer
/// that allows it this once.
pub proof fn lemma_a_dialog_shows_the_request_that_waits(
    before: App,
    after: App,
    plane: Plane,
    id: Seq<char>,
)
    requires
        before.approval_opened(after, plane, id),
        before.overlay is None,
        watched(before.sessions.watches@, plane, id),
        before.sessions.watches@[watch_at(before.sessions.watches@, plane, id)].open_request() is Some,
    ensures
        after.overlay is Some && after.overlay->0 is Approval,
        after.overlay->0->Approval_plane == plane,
        after.overlay->0->Approval_id@ == id,
        after.overlay->0->Approval_choice == 0,
        before.can_claim(plane, id, after.overlay->0->Approval_request_id@),
        APPROVAL_CHOICES@[0].0 == ApprovalDecision::Approve,
        APPROVAL_CHOICES@[0].1 == ApprovalScope::Once,
        after.queue == before.queue,
{
    let watch = before.sessions.watches@[watch_at(before.sessions.watches@, plane, id)];
    let at = lemma_the_oldest_open_approval_is_asked(watch);
}

/// A composer that opens on a session that is at work takes follow-ups, and on an idle one messages.
#[verifier::rlimit(60)]
pub proof fn lemma_a_composer_opens_with_a_fitting_verb(before: App, after: App, id: Seq<char>)
    requires
        before.composing(after, ComposerVerb::Message),
        before.tab == Tab::Sessions,
        key_of(before.sessions.open) == Some((Plane::Interactive, id)),
        before.sessions.open_row() is Some,
        before.sessions.composer is None,
        forall|verb: ComposerVerb|
            before.hello.lists(#[trigger] Plane::Interactive.method_of(verb.verb())),
    ensures
        after.sessions.composer is Some,
        after.sessions.composer->0.verb == if before.sessions.open_row()->0.status.word@ == "idle"@ {
            ComposerVerb::Message
        } else {
            ComposerVerb::FollowUp
        },
        after.queue == before.queue,
        after.sessions.open == before.sessions.open,
{
    let verb = before.fitting_verb(ComposerVerb::Message);
    assert(before.hello.lists(Plane::Interactive.method_of(verb.verb())));
}

/// A reply is waited for on the screen while one is owed, and never over a lost connection or a
/// session that has ended.
pub proof fn lemma_waiting_shows_only_what_can_be_seen(app: App)
    ensures
        app.waits() ==> app.connection is Live && app.sessions.open is Some,
        app.sessions.open_index() matches Some(at) ==> app.sessions.watches@[at].ended is Some
            ==> !app.waits(),
        app.sessions.open_index() matches Some(at) ==> app.connection is Live
            && app.sessions.watches@[at].ended is None && app.sessions.pending_replies@.contains(
            app.sessions.open->0@,
        ) ==> app.waits(),
{
}

/// The answer to a plan is left for the session that is open, under the id of its request.
pub proof fn lemma_a_plan_is_answered_for_the_open_session(
    before: App,
    after: App,
    request_id: Seq<char>,
    choice: Seq<char>,
)
    requires
        before.plan_handed(after, request_id, choice),
        before.sessions.open is Some,
    ensures
        after.errands@.len() == before.errands@.len() + 1,
        after.errands@.last() is AnswerPlan,
        after.errands@.last()->AnswerPlan_plane == before.sessions.open->0.plane,
        after.errands@.last()->AnswerPlan_id@ == before.sessions.open->0.id@,
        after.errands@.last()->AnswerPlan_request_id@ == request_id,
        after.errands@.last()->AnswerPlan_choice@ == choice,
        after.queue == before.queue,
{
}

// ----- going back -------------------------------------------------------------------

/// Going back takes both keys of its chord, the second before the time is up, and goes through the
/// session that was open at the first.
pub proof fn lemma_going_back_takes_both_keys_in_time(
    before: App,
    armed: App,
    then: App,
    ticks: u64,
)
    requires
        before.rearmed(armed, (Chord::Two { first: true, second: false }), ticks),
        !before.goes_back((Chord::Two { first: true, second: false })),
        before.sessions.open is Some,
        // Time passes, and nothing else.
        then == (App { ticks: then.ticks, ..armed }),
    ensures
        ({
            let chord = Chord::Two { first: false, second: true };
            &&& then.goes_back(chord) <==> then.ticks < before.ticks + ticks
            &&& then.ticks < before.ticks + ticks ==> then.armed_session(chord) == Some(
                before.sessions.open->0@,
            )
            &&& then.ticks >= before.ticks + ticks ==> then.armed_session(chord) is None
        }),
        armed.queue == before.queue,
{
}

// ----- what the home says of approvals ----------------------------------------------

/// Approvals are said to be off exactly where they are switched off, and edits to go unasked exactly
/// where they do.
#[verifier::rlimit(60)]
pub proof fn lemma_the_home_says_when_approvals_are_off(app: App)
    ensures
        app.permission() == "Approvals off"@ <==> app.config.mode() == Some(
            ApprovalMode::AutoApprove,
        ),
        app.permission() == "Ask except for file edits"@ <==> app.config.mode() == Some(
            ApprovalMode::AutoEdit,
        ),
        app.config.mode() == Some(ApprovalMode::Prompt) ==> app.permission()
            == "Ask before actions"@,
        said(app.config.approval_mode) == Some("auto_approve"@) ==> app.permission()
            == "Approvals off"@,
        said(app.config.approval_mode) == Some("prompt"@) ==> app.permission()
            == "Ask before actions"@,
{
    reveal_strlit("Approvals off");
    reveal_strlit("Ask except for file edits");
    reveal_strlit("Ask before actions");
    reveal_strlit("Default approvals");
    assert("Approvals off"@.len() == 13);
    assert("Ask except for file edits"@.len() == 25);
    assert("Ask before actions"@.len() == 18);
    assert("Default approvals"@.len() == 17);
    reveal_strlit("default");
    reveal_strlit("prompt");
    reveal_strlit("auto_edit");
    reveal_strlit("auto_approve");
    assert("default"@.len() == 7 && "prompt"@.len() == 6 && "auto_edit"@.len() == 9
        && "auto_approve"@.len() == 12);
}

// ----- the ledger -------------------------------------------------------------------

/// A row of the ledger that opens asks for its own event, of the session that is open.
pub proof fn lemma_a_row_asks_for_its_own_event(
    before: App,
    after: App,
    key: LedgerKey,
    plane: Plane,
    id: Seq<char>,
    sequence: u64,
)
    requires
        before.row_opened(after, key, Some(sequence)),
        key_of(before.sessions.open) == Some((plane, id)),
        before.hello.lists(detail_method(plane)),
        !before.queue@.in_flight.contains(TagView::EventDetail { plane, id, sequence }),
    ensures
        key == LedgerKey::Expand || key == LedgerKey::Toggle ==> left(before, after)
            && newest(after).method == detail_method(plane) && newest(after).params.member_text(
            "id"@,
        ) == Some(id) && newest(after).params.member("sequence"@) == Some(
            JsonView::Unsigned(sequence),
        ),
        key == LedgerKey::Collapse || key == LedgerKey::Taken || key == LedgerKey::Passed ==> after
            == before,
{
    if key == LedgerKey::Expand || key == LedgerKey::Toggle {
        lemma_a_detail_names_its_event(before, after, plane, id, sequence);
    }
}

/// The keys of the ledger move by one row and to both ends, and enter opens the row they are on.
pub proof fn lemma_the_keys_of_the_ledger(
    before: Ledger,
    after: Ledger,
    code: KeyCode,
    rows: int,
    r: LedgerKey,
)
    requires
        before.row_keyed(after, code, rows, r),
        0 <= before.selected < rows <= usize::MAX,
    ensures
        after.selected < rows,
        code == KeyCode::Down && before.selected + 1 < rows ==> after.selected == before.selected
            + 1,
        code == KeyCode::Up && before.selected > 0 ==> after.selected + 1 == before.selected,
        code == KeyCode::Char('g') ==> after.selected == 0,
        code == KeyCode::Char('G') ==> after.selected == rows - 1,
        code == KeyCode::Enter ==> r == LedgerKey::Toggle && after == before,
        code == KeyCode::Right ==> r == LedgerKey::Expand,
        code == KeyCode::Left ==> r == LedgerKey::Collapse,
{
}

} // verus!
