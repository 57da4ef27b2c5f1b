//! Moving about: the rows of each tab, the transcript, and the tabs themselves.

use vstd::prelude::*;

use crate::app::{App, Overlay, PromptKind, Tab};
use crate::explorer::{paths, Explorer, Pane, TreeRow, TreeState, UpgradeSection, UpgradeTab};
use crate::forms::{clamp, clamped};
use crate::sessions::{seen_rows, SessionsTab};
use crate::tags::ComposerVerb;
use crate::text::copy_text;
use crate::watch::Watch;

verus! {

impl UpgradeTab {
    /// The rows of the section under the cursor, of which the tree draws `drawn` where there is
    /// anything to draw.
    pub open spec fn drawn_rows(&self, drawn: int) -> int {
        if self.panel_of(self.chosen()).value is Some {
            drawn
        } else {
            0
        }
    }

    /// The row under the cursor of the tree, where a tree is drawn.
    pub open spec fn drawn_row(&self, row: Option<TreeRow>) -> Option<TreeRow> {
        if self.panel_of(self.chosen()).value is Some {
            row
        } else {
            None
        }
    }

    /// The node under the cursor is closed, or the list has the focus again.
    pub open spec fn left(&self, after: UpgradeTab, row: Option<TreeRow>) -> bool {
        let row = self.drawn_row(row);
        &&& after == (UpgradeTab { tree: after.tree, focus: after.focus, ..*self })
        &&& if row is Some && row->0.expanded {
            &&& after.focus == self.focus
            &&& paths(after.tree.open@) == paths(self.tree.open@).remove(row->0.path@)
            &&& after.tree.selected == self.tree.selected
        } else {
            after.focus == Pane::List && after.tree == self.tree
        }
    }

    fn leave(&mut self, row: &Option<TreeRow>)
        ensures
            old(self).left(*final(self), *row),
    {
        let drawn = self.panel(self.current()).value.is_some();
        match row {
            Some(row) if drawn && row.expanded => self.tree.collapse(row.path.as_str()),
            _ => {
                self.focus = Pane::List;
            },
        }
    }

    /// The node under the cursor is opened or closed.
    pub open spec fn toggled(&self, after: UpgradeTab, row: Option<TreeRow>) -> bool {
        let row = self.drawn_row(row);
        &&& after == (UpgradeTab { tree: after.tree, ..*self })
        &&& if row is Some && row->0.expandable {
            self.tree.turned(after.tree, row->0.path@)
        } else {
            after.tree == self.tree
        }
    }

    fn toggle_row(&mut self, row: &Option<TreeRow>)
        ensures
            old(self).toggled(*final(self), *row),
    {
        let drawn = self.panel(self.current()).value.is_some();
        if let Some(row) = row {
            if drawn && row.expandable {
                self.tree.toggle(row.path.as_str());
            }
        }
    }
}

impl App {
    /// Which of the two lists of the plans tab the keys drive.
    pub open spec fn plans_list(&self) -> Explorer {
        if self.plans_on_control {
            self.control
        } else {
            self.plans
        }
    }

    pub open spec fn with_plans_list(&self, list: Explorer) -> App {
        if self.plans_on_control {
            App { control: list, ..*self }
        } else {
            App { plans: list, ..*self }
        }
    }

    /// Only the transcript of the open session changed, to `watch`.
    pub open spec fn transcript_turned(&self, after: App, watch: Watch) -> bool {
        &&& after.sessions.watches@ == self.sessions.watches@.update(
            self.sessions.open_index()->0,
            watch,
        )
        &&& after == (App {
            sessions: SessionsTab { watches: after.sessions.watches, ..self.sessions },
            ..*self
        })
    }

    /// Another upgrade section is under the cursor, and asked for where it is due.
    pub open spec fn section_moved(&self, after: App, delta: int) -> bool {
        exists|moved: App|
            {
                &&& moved.upgrade.tree.is_fresh()
                &&& moved == (App {
                    upgrade: UpgradeTab {
                        section: clamped(self.upgrade.section as int, delta, 5) as usize,
                        tree: moved.upgrade.tree,
                        ..self.upgrade
                    },
                    ..*self
                })
                &&& #[trigger] moved.section_polled(after)
            }
    }

    /// `delta` rows down whatever the visible tab has under its keys; `drawn` is how many rows its
    /// tree has.
    pub open spec fn moved(&self, after: App, delta: int, drawn: int) -> bool {
        match self.tab {
            Tab::Dashboard => after == *self,
            Tab::Sessions => match self.sessions.focus {
                Pane::List => after == (App {
                    sessions: SessionsTab {
                        selected: clamped(
                            self.sessions.selected as int,
                            delta,
                            self.sessions.rows().len() as int,
                        ) as usize,
                        ..self.sessions
                    },
                    ..*self
                }),
                Pane::Detail => match self.sessions.open_index() {
                    Some(at) => self.transcript_turned(
                        after,
                        self.sessions.watches@[at].scrolled(delta),
                    ),
                    None => after == *self,
                },
            },
            Tab::Agents => after == (App { agents: self.agents.travelled(delta, drawn), ..*self }),
            Tab::Teams => after == (App { teams: self.teams.travelled(delta, drawn), ..*self }),
            Tab::Plans => after == self.with_plans_list(self.plans_list().travelled(delta, drawn)),
            Tab::Upgrade => match self.upgrade.focus {
                Pane::List => self.section_moved(after, delta),
                Pane::Detail => after == (App {
                    upgrade: UpgradeTab {
                        tree: TreeState {
                            selected: clamped(
                                self.upgrade.tree.selected as int,
                                delta,
                                self.upgrade.drawn_rows(drawn),
                            ) as usize,
                            ..self.upgrade.tree
                        },
                        ..self.upgrade
                    },
                    ..*self
                }),
            },
            Tab::Logs => after == (App {
                log_scroll: if self.log_scroll - delta < 0 {
                    0
                } else if self.log_scroll - delta > usize::MAX {
                    usize::MAX
                } else {
                    (self.log_scroll - delta) as usize
                },
                ..*self
            }),
        }
    }

    fn move_session(&mut self, delta: isize)
        requires
            old(self).wf(),
            old(self).tab == Tab::Sessions,
            delta > isize::MIN,
        ensures
            final(self).wf(),
            old(self).moved(*final(self), delta as int, 0),
    {
        match self.sessions.focus {
            Pane::List => {
                let len: usize = {
                    let rows = self.sessions.merged();
                    assert(rows@.len() == seen_rows(rows@).len());
                    rows.len()
                };
                self.sessions.selected = clamp(self.sessions.selected, delta, len);
            },
            Pane::Detail => {
                if let Some(at) = self.sessions.open_at() {
                    let ghost watches = self.sessions.watches@;
                    let mut watch = self.take_watch(at);
                    watch.scroll_by(delta);
                    self.return_watch(at, watch, Ghost(watches));
                }
            },
        }
    }

    fn move_upgrade(&mut self, delta: isize, drawn: usize)
        requires
            old(self).wf(),
            old(self).tab == Tab::Upgrade,
        ensures
            final(self).wf(),
            old(self).moved(*final(self), delta as int, drawn as int),
    {
        match self.upgrade.focus {
            Pane::List => {
                self.upgrade.section = clamp(self.upgrade.section, delta, 5);
                self.upgrade.tree.reset();
                let ghost moved = *self;
                self.poll_upgrade_section();
                assert(moved.section_polled(*self));
            },
            Pane::Detail => {
                let rows: usize = if self.upgrade.panel(self.upgrade.current()).value.is_some() {
                    drawn
                } else {
                    0
                };
                self.upgrade.tree.move_by(delta, rows);
            },
        }
    }

    #[verifier::rlimit(60)]
    pub fn move_by(&mut self, delta: isize, drawn: usize)
        requires
            old(self).wf(),
            delta > isize::MIN,
        ensures
            final(self).wf(),
            old(self).moved(*final(self), delta as int, drawn as int),
    {
        match self.tab {
            Tab::Dashboard => {},
            Tab::Sessions => self.move_session(delta),
            Tab::Agents => self.agents.travel(delta, drawn),
            Tab::Teams => self.teams.travel(delta, drawn),
            Tab::Plans => {
                if self.plans_on_control {
                    self.control.travel(delta, drawn);
                } else {
                    self.plans.travel(delta, drawn);
                }
            },
            Tab::Upgrade => self.move_upgrade(delta, drawn),
            Tab::Logs => {
                if delta < 0 {
                    self.log_scroll = self.log_scroll.saturating_add((-delta) as usize);
                } else {
                    self.log_scroll = self.log_scroll.saturating_sub(delta as usize);
                }
            },
        }
    }

    /// Rows of the transcript under the composer, where nothing lies over the screen.
    pub fn scroll_view(&mut self, delta: isize, drawn: usize)
        requires
            old(self).wf(),
            delta > isize::MIN,
        ensures
            final(self).wf(),
            if old(self).overlay is Some {
                *final(self) == *old(self)
            } else {
                old(self).moved(*final(self), delta as int, drawn as int)
            },
    {
        if self.overlay.is_some() {
            return;
        }
        self.move_by(delta, drawn);
    }

    /// The oldest row the last frame drew.
    pub open spec fn topped(watch: Watch) -> Watch {
        if watch.max_scroll > 0 {
            Watch { follow: false, scroll: watch.max_scroll, ..watch }
        } else {
            watch
        }
    }

    /// The transcript of the open session, where one is open, turned by `turn`.
    pub open spec fn turned_by(&self, after: App, turn: spec_fn(Watch) -> Watch) -> bool {
        match self.sessions.open_index() {
            Some(at) => self.transcript_turned(after, turn(self.sessions.watches@[at])),
            None => after == *self,
        }
    }

    pub fn transcript_to_top(&mut self)
        requires
            old(self).wf(),
        ensures
            final(self).wf(),
            old(self).turned_by(*final(self), |watch: Watch| App::topped(watch)),
    {
        if let Some(at) = self.sessions.open_at() {
            let ghost watches = self.sessions.watches@;
            let mut watch = self.take_watch(at);
            if watch.max_scroll > 0 {
                watch.follow = false;
                watch.scroll = watch.max_scroll;
            }
            self.return_watch(at, watch, Ghost(watches));
        }
    }

    /// Back to the newest row, and following again.
    pub open spec fn bottomed(watch: Watch) -> Watch {
        Watch { follow: true, scroll: 0, ..watch }
    }

    pub fn transcript_to_bottom(&mut self)
        requires
            old(self).wf(),
        ensures
            final(self).wf(),
            old(self).turned_by(*final(self), |watch: Watch| App::bottomed(watch)),
    {
        if let Some(at) = self.sessions.open_at() {
            let ghost watches = self.sessions.watches@;
            let mut watch = self.take_watch(at);
            watch.follow = true;
            watch.scroll = 0;
            self.return_watch(at, watch, Ghost(watches));
        }
    }

    // ----- left and right -------------------------------------------------------------

    /// A step to the left: out of a node, out of a detail, or back to the first of two lists.
    pub open spec fn stepped_left(&self, after: App, row: Option<TreeRow>) -> bool {
        match self.tab {
            Tab::Sessions => after == (App {
                sessions: SessionsTab { focus: Pane::List, ..self.sessions },
                ..*self
            }),
            Tab::Agents => {
                &&& self.agents.left(after.agents, row)
                &&& after == (App { agents: after.agents, ..*self })
            },
            Tab::Teams => {
                &&& self.teams.left(after.teams, row)
                &&& after == (App { teams: after.teams, ..*self })
            },
            Tab::Plans => if self.plans_list().focus is List {
                after == (App { plans_on_control: false, ..*self })
            } else {
                &&& self.plans_list().left(after.plans_list(), row)
                &&& after == self.with_plans_list(after.plans_list())
            },
            Tab::Upgrade => if self.upgrade.focus is Detail {
                &&& self.upgrade.left(after.upgrade, row)
                &&& after == (App { upgrade: after.upgrade, ..*self })
            } else {
                after == *self
            },
            _ => after == *self,
        }
    }

    /// `row` is the row under the cursor of the tree, where one is drawn.
    #[verifier::rlimit(60)]
    pub fn left(&mut self, row: &Option<TreeRow>)
        requires
            old(self).wf(),
        ensures
            final(self).wf(),
            old(self).stepped_left(*final(self), *row),
    {
        match self.tab {
            Tab::Sessions => {
                self.sessions.focus = Pane::List;
            },
            Tab::Agents => self.agents.leave(row),
            Tab::Teams => self.teams.leave(row),
            Tab::Plans => {
                if self.plans_on_control {
                    if self.control.focus == Pane::List {
                        self.plans_on_control = false;
                    } else {
                        self.control.leave(row);
                    }
                } else if self.plans.focus == Pane::Detail {
                    self.plans.leave(row);
                }
            },
            Tab::Upgrade => {
                if self.upgrade.focus == Pane::Detail {
                    self.upgrade.leave(row);
                }
            },
            _ => {},
        }
    }

    /// A step to the right: into the detail, or on to the second of two lists.
    pub open spec fn stepped_right(&self) -> App {
        match self.tab {
            Tab::Sessions => if self.sessions.open is Some {
                App { sessions: SessionsTab { focus: Pane::Detail, ..self.sessions }, ..*self }
            } else {
                *self
            },
            Tab::Agents => App {
                agents: Explorer { focus: Pane::Detail, ..self.agents },
                ..*self
            },
            Tab::Teams => App { teams: Explorer { focus: Pane::Detail, ..self.teams }, ..*self },
            Tab::Plans => if self.plans_list().focus is Detail && !self.plans_on_control {
                App { plans_on_control: true, ..*self }
            } else {
                self.with_plans_list(Explorer { focus: Pane::Detail, ..self.plans_list() })
            },
            Tab::Upgrade => App {
                upgrade: UpgradeTab { focus: Pane::Detail, ..self.upgrade },
                ..*self
            },
            _ => *self,
        }
    }

    #[verifier::rlimit(60)]
    pub fn right(&mut self)
        requires
            old(self).wf(),
        ensures
            final(self).wf(),
            *final(self) == old(self).stepped_right(),
    {
        match self.tab {
            Tab::Sessions => {
                if self.sessions.open.is_some() {
                    self.sessions.focus = Pane::Detail;
                }
            },
            Tab::Agents => {
                self.agents.focus = Pane::Detail;
            },
            Tab::Teams => {
                self.teams.focus = Pane::Detail;
            },
            Tab::Plans => {
                if self.plans_on_control {
                    self.control.focus = Pane::Detail;
                } else if self.plans.focus == Pane::Detail {
                    self.plans_on_control = true;
                } else {
                    self.plans.focus = Pane::Detail;
                }
            },
            Tab::Upgrade => {
                self.upgrade.focus = Pane::Detail;
            },
            _ => {},
        }
    }

    // ----- Enter and Esc --------------------------------------------------------------

    /// What a prompt starts from.
    pub open spec fn prompt_shown(
        &self,
        after: App,
        kind: PromptKind,
        label: Seq<char>,
        held: Option<String>,
    ) -> bool {
        &&& after.overlay matches Some(Overlay::Prompt { kind: k, label: l, buffer })
        &&& k == kind
        &&& l@ == label
        &&& buffer@ == match held {
            Some(held) => held@,
            None => Seq::empty(),
        }
        &&& self.overlaid(after)
    }

    /// Enter on a section: one that is about something asks what, any other shows its tree.
    pub open spec fn section_entered(&self, after: App) -> bool {
        match self.upgrade.chosen() {
            UpgradeSection::History => self.prompt_shown(
                after,
                PromptKind::HistoryModule,
                "module (e.g. Ouroboros.Capability.Example)"@,
                self.upgrade.history_module,
            ),
            UpgradeSection::Grants => self.prompt_shown(
                after,
                PromptKind::GrantsPrincipal,
                "principal"@,
                self.upgrade.grants_principal,
            ),
            _ => after == (App {
                upgrade: UpgradeTab { focus: Pane::Detail, ..self.upgrade },
                ..*self
            }),
        }
    }

    fn activate_upgrade_section(&mut self)
        requires
            old(self).wf(),
        ensures
            final(self).wf(),
            old(self).section_entered(*final(self)),
    {
        match self.upgrade.current() {
            UpgradeSection::History => {
                let buffer = held_or_blank(&self.upgrade.history_module);
                self.overlay = Some(
                    Overlay::Prompt {
                        kind: PromptKind::HistoryModule,
                        label: "module (e.g. Ouroboros.Capability.Example)".to_owned(),
                        buffer,
                    },
                );
            },
            UpgradeSection::Grants => {
                let buffer = held_or_blank(&self.upgrade.grants_principal);
                self.overlay = Some(
                    Overlay::Prompt {
                        kind: PromptKind::GrantsPrincipal,
                        label: "principal".to_owned(),
                        buffer,
                    },
                );
            },
            _ => {
                self.upgrade.focus = Pane::Detail;
            },
        }
    }

    /// Enter: the session under the cursor is opened or written to, a detail is shown, a node is
    /// opened or closed.
    pub open spec fn activated(&self, after: App, row: Option<TreeRow>) -> bool {
        match self.tab {
            Tab::Sessions => match self.sessions.focus {
                Pane::List => match self.sessions.chosen() {
                    Some(session) => self.session_opened(after, session.plane, session.id@),
                    None => after == *self,
                },
                Pane::Detail => self.composing(after, ComposerVerb::Message),
            },
            Tab::Agents => {
                &&& self.agents.entered(after.agents, row)
                &&& after == (App { agents: after.agents, ..*self })
            },
            Tab::Teams => {
                &&& self.teams.entered(after.teams, row)
                &&& after == (App { teams: after.teams, ..*self })
            },
            Tab::Plans => {
                &&& self.plans_list().entered(after.plans_list(), row)
                &&& after == self.with_plans_list(after.plans_list())
            },
            Tab::Upgrade => match self.upgrade.focus {
                Pane::List => self.section_entered(after),
                Pane::Detail => {
                    &&& self.upgrade.toggled(after.upgrade, row)
                    &&& after == (App { upgrade: after.upgrade, ..*self })
                },
            },
            _ => after == *self,
        }
    }

    #[verifier::rlimit(60)]
    pub fn activate(&mut self, row: &Option<TreeRow>)
        requires
            old(self).wf(),
        ensures
            final(self).wf(),
            old(self).activated(*final(self), *row),
    {
        match self.tab {
            Tab::Sessions => self.activate_session(),
            Tab::Agents => self.agents.enter(row),
            Tab::Teams => self.teams.enter(row),
            Tab::Plans => {
                if self.plans_on_control {
                    self.control.enter(row);
                } else {
                    self.plans.enter(row);
                }
            },
            Tab::Upgrade => match self.upgrade.focus {
                Pane::List => self.activate_upgrade_section(),
                Pane::Detail => self.upgrade.toggle_row(row),
            },
            _ => {},
        }
    }

    fn activate_session(&mut self)
        requires
            old(self).wf(),
        ensures
            final(self).wf(),
            match old(self).sessions.focus {
                Pane::List => match old(self).sessions.chosen() {
                    Some(session) => old(self).session_opened(
                        *final(self),
                        session.plane,
                        session.id@,
                    ),
                    None => *final(self) == *old(self),
                },
                Pane::Detail => old(self).composing(*final(self), ComposerVerb::Message),
            },
    {
        match self.sessions.focus {
            Pane::List => {
                let picked = match self.sessions.current() {
                    Some(session) => Some((session.plane, session.id.clone())),
                    None => None,
                };
                if let Some((plane, id)) = picked {
                    self.open_session(plane, id.as_str());
                }
            },
            Pane::Detail => self.compose(ComposerVerb::Message),
        }
    }

    /// Esc: back to the conversation, and there out of the composer, the detail and the session,
    /// one at a time.
    pub open spec fn escaped(&self, after: App) -> bool {
        if self.tab != Tab::Sessions {
            (App { tab: Tab::Sessions, ..*self }).polled(after)
        } else if self.sessions.composer is Some {
            after == (App {
                sessions: SessionsTab { composer: None, ..self.sessions },
                ..*self
            })
        } else if self.sessions.focus is Detail {
            after == (App {
                sessions: SessionsTab { focus: Pane::List, ..self.sessions },
                ..*self
            })
        } else {
            after == (App { sessions: SessionsTab { open: None, ..self.sessions }, ..*self })
        }
    }

    pub fn escape(&mut self)
        requires
            old(self).wf(),
        ensures
            final(self).wf(),
            old(self).escaped(*final(self)),
    {
        if self.tab != Tab::Sessions {
            self.select_tab(Tab::Sessions);
        } else if self.sessions.composer.is_some() {
            self.sessions.composer = None;
        } else if self.sessions.focus == Pane::Detail {
            self.sessions.focus = Pane::List;
        } else {
            self.sessions.open = None;
        }
    }
}

fn held_or_blank(held: &Option<String>) -> (r: String)
    ensures
        r@ == match *held {
            Some(held) => held@,
            None => Seq::empty(),
        },
{
    match copy_text(held) {
        Some(text) => text,
        None => {
            let blank = String::new();
            assert(blank@ =~= Seq::empty());
            blank
        },
    }
}

// ----- laws -------------------------------------------------------------------------

/// Scrolling up and back down by as much shows the same rows, short of either end.
pub proof fn lemma_scrolling_comes_back(watch: Watch, delta: int)
    requires
        delta > 0,
        watch.scroll + delta <= watch.max_scroll,
        watch.max_scroll <= usize::MAX,
    ensures
        watch.scrolled(-delta).scrolled(delta).scroll == watch.scroll,
{
}

/// However far up a reader asks, the transcript shows a row the last frame drew; and at the newest
/// row it follows.
pub proof fn lemma_scrolling_stays_on_the_page(watch: Watch, delta: int)
    requires
        watch.scroll <= watch.max_scroll,
    ensures
        watch.scrolled(delta).scroll <= watch.max_scroll,
        delta >= 0 && watch.scrolled(delta).scroll == 0 ==> watch.scrolled(delta).follow,
        watch.scrolled(delta).scroll > watch.scroll ==> !watch.scrolled(delta).follow,
{
}

} // verus!
