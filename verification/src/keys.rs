//! Where a key goes.
//!
//! The same key means several things at once, and which of them it is follows from what is on the
//! screen. Every reading of a key says when it claims the key, and the readings stand in one order;
//! the first that claims the key has it.

use vstd::prelude::*;

use crate::app::{App, NoticeKind, Overlay, Tab, TICK_CEILING};
use crate::explorer::TreeRow;
use crate::forms::{Command, CommandPalette};
use crate::press::{KeyCode, Press};
use crate::sessions::{key_of, Composer, Draft, Key, SessionsTab};
use crate::submit::{Edit, EditorAction};
use crate::tags::ComposerVerb;
use crate::text::{cat3, join, joined, same, texts};

verus! {

/// The chord that goes back through a session, and which of its keys this is.
#[derive(Debug, Clone, Copy, PartialEq, Eq, Structural)]
pub enum Chord {
    Unbound,
    One { hit: bool },
    Two { first: bool, second: bool },
}

/// What the keymap makes of one press.
#[derive(Debug, Clone, Copy, PartialEq, Eq, Structural)]
pub struct Hits {
    pub palette: bool,
    pub quit: bool,
    pub rename: bool,
    pub suspend: bool,
    pub leader: bool,
    pub editor: bool,
    pub verbose: bool,
    pub plan_panel: bool,
    pub cancel: bool,
    pub quit_empty: bool,
    pub help: bool,
    pub settings: bool,
    pub interrupt: bool,
    pub transcript_top: bool,
    pub transcript_bottom: bool,
    pub backtrack: Chord,
    /// Some key quits.
    pub quit_bound: bool,
}

/// What a key is read against, besides the client's own state.
#[derive(Debug)]
pub struct Standing {
    pub turn_running: bool,
    /// The event ledger takes this key.
    pub ledger: bool,
    /// Rows are numbered, so that a digit selects one.
    pub numbered: bool,
    /// How many rows the visible tree has, and the one under its cursor.
    pub drawn: usize,
    pub row: Option<TreeRow>,
    /// How long a leader key waits for its verb, and the first key of a chord for its second.
    pub leader_ticks: u64,
    pub backtrack_ticks: u64,
}

/// A reading of a key.
#[derive(Debug, Clone, Copy, PartialEq, Eq, Structural)]
pub enum Route {
    /// A release is no press.
    Ignored,
    /// The verb of a leader key.
    Leader,
    Palette,
    Quit,
    Rename,
    Suspend,
    ArmLeader,
    Editor,
    Verbose,
    PlanPanel,
    Cancel,
    /// Quitting, on an empty draft.
    QuitEmpty,
    /// Whatever lies over the screen.
    Overlay,
    /// Back through the session.
    Backtrack,
    TranscriptTop,
    TranscriptBottom,
    /// Rows of the transcript.
    Scroll(isize),
    Help,
    Settings,
    Ledger,
    Interrupt,
    Composer,
    Home,
    List,
}

impl Route {
    /// The order in which readings are tried.
    pub open spec fn rank(self) -> int {
        match self {
            Route::Ignored => 0,
            Route::Leader => 1,
            Route::Palette => 2,
            Route::Quit => 3,
            Route::Rename => 4,
            Route::Suspend => 5,
            Route::ArmLeader => 6,
            Route::Editor => 7,
            Route::Verbose => 8,
            Route::PlanPanel => 9,
            Route::Cancel => 10,
            Route::QuitEmpty => 11,
            Route::Overlay => 12,
            Route::Backtrack => 13,
            Route::TranscriptTop => 14,
            Route::TranscriptBottom => 15,
            Route::Scroll(_) => 16,
            Route::Help => 17,
            Route::Settings => 18,
            Route::Ledger => 19,
            Route::Interrupt => 20,
            Route::Composer => 21,
            Route::Home => 22,
            Route::List => 23,
        }
    }

    /// The chord that goes back was looked at.
    pub open spec fn past_chord(self) -> bool {
        self.rank() >= Route::Backtrack.rank()
    }

    fn passes_chord(self) -> (r: bool)
        ensures
            r == self.past_chord(),
    {
        match self {
            Route::Ignored
            | Route::Leader
            | Route::Palette
            | Route::Quit
            | Route::Rename
            | Route::Suspend
            | Route::ArmLeader
            | Route::Editor
            | Route::Verbose
            | Route::PlanPanel
            | Route::Cancel
            | Route::QuitEmpty
            | Route::Overlay => false,
            _ => true,
        }
    }
}

/// The rows a key scrolls the transcript by.
pub open spec fn scroll_of(press: Press) -> Option<int> {
    match press.code {
        KeyCode::PageUp => Some(-10int),
        KeyCode::PageDown => Some(10int),
        KeyCode::Up => if press.ctrl || press.shift {
            Some(-3int)
        } else {
            None
        },
        KeyCode::Down => if press.ctrl || press.shift {
            Some(3int)
        } else {
            None
        },
        _ => None,
    }
}

fn scroll_rows(press: Press) -> (r: Option<isize>)
    ensures
        match r {
            Some(rows) => scroll_of(press) == Some(rows as int),
            None => scroll_of(press) is None,
        },
{
    match press.code {
        KeyCode::PageUp => Some(-10),
        KeyCode::PageDown => Some(10),
        KeyCode::Up => if press.ctrl || press.shift {
            Some(-3)
        } else {
            None
        },
        KeyCode::Down => if press.ctrl || press.shift {
            Some(3)
        } else {
            None
        },
        _ => None,
    }
}

/// The tab a digit selects, where there is one.
pub open spec fn digit_tab(c: char) -> Option<Tab> {
    if '1' <= c <= '7' {
        Some(Tab::ALL@[c as int - '1' as int])
    } else {
        None
    }
}

pub fn tab_for_digit(digit: char) -> (r: Option<Tab>)
    ensures
        r == digit_tab(digit),
{
    if '1' <= digit && digit <= '7' {
        let all = Tab::ALL;
        let at: usize = (digit as usize) - ('1' as usize);
        Some(all[at])
    } else {
        None
    }
}

impl App {
    /// The prompt that has the keyboard holds nothing, or none has it.
    pub open spec fn prompt_empty(&self) -> bool {
        if self.tab != Tab::Sessions {
            true
        } else {
            match self.sessions.composer {
                Some(composer) => composer.editor.blank(),
                None => self.sessions.open is Some || self.home_draft.blank(),
            }
        }
    }

    pub fn focused_prompt_empty(&self) -> (r: bool)
        ensures
            r == self.prompt_empty(),
    {
        if self.tab != Tab::Sessions {
            return true;
        }
        match &self.sessions.composer {
            Some(composer) => composer.editor.text.as_str().is_empty(),
            None => self.sessions.open.is_some() || self.home_draft.text.as_str().is_empty(),
        }
    }

    /// The transcript of an open session is on the screen.
    pub open spec fn reads_transcript(&self) -> bool {
        self.tab == Tab::Sessions && self.sessions.open is Some
    }

    /// This press completes the chord that goes back.
    pub open spec fn goes_back(&self, chord: Chord) -> bool {
        match chord {
            Chord::Unbound => false,
            Chord::One { hit } => hit,
            Chord::Two { second, .. } => second && self.backtrack_arm is Some && self.ticks
                < (self.backtrack_arm->0).0,
        }
    }

    fn goes_back_now(&self, chord: Chord) -> (r: bool)
        ensures
            r == self.goes_back(chord),
    {
        match chord {
            Chord::Unbound => false,
            Chord::One { hit } => hit,
            Chord::Two { second, .. } => second && match &self.backtrack_arm {
                Some((until, _)) => self.ticks < *until,
                None => false,
            },
        }
    }

    /// A completion menu of the composer is open.
    pub open spec fn completes(&self) -> bool {
        self.sessions.composer is Some && self.sessions.composer->0.editor.completing
    }

    /// When a reading claims the key.
    #[verifier::opaque]
    pub open spec fn wants(&self, route: Route, press: Press, hits: Hits, standing: Standing) -> bool {
        let bare = self.overlay is None;
        match route {
            Route::Ignored => press.release,
            Route::Leader => self.leader_until is Some,
            Route::Palette => hits.palette,
            Route::Quit => hits.quit && bare,
            Route::Rename => hits.rename && bare,
            Route::Suspend => hits.suspend && bare,
            Route::ArmLeader => hits.leader && bare,
            Route::Editor => hits.editor && bare,
            Route::Verbose => hits.verbose && bare,
            Route::PlanPanel => hits.plan_panel && bare,
            Route::Cancel => hits.cancel,
            Route::QuitEmpty => hits.quit_empty && bare && self.prompt_empty(),
            Route::Overlay => !bare,
            Route::Backtrack => self.goes_back(hits.backtrack),
            Route::TranscriptTop => self.reads_transcript() && self.prompt_empty()
                && hits.transcript_top,
            Route::TranscriptBottom => self.reads_transcript() && self.prompt_empty()
                && hits.transcript_bottom,
            Route::Scroll(rows) => self.reads_transcript() && scroll_of(press) == Some(
                rows as int,
            ),
            Route::Help => hits.help && self.prompt_empty(),
            Route::Settings => hits.settings && self.prompt_empty(),
            Route::Ledger => standing.ledger,
            Route::Interrupt => hits.interrupt && standing.turn_running && !self.completes(),
            Route::Composer => self.sessions.composer is Some && self.tab == Tab::Sessions,
            Route::Home => self.tab == Tab::Sessions && self.sessions.open is None && (
            !self.home_draft.blank() || !(press.code is Tab || press.code is BackTab)),
            Route::List => true,
        }
    }

    /// The key goes to `route`: it claims the key, and nothing before it does.
    pub open spec fn routes(&self, route: Route, press: Press, hits: Hits, standing: Standing) -> bool {
        &&& self.wants(route, press, hits, standing)
        &&& forall|other: Route|
            #[trigger] self.wants(other, press, hits, standing) ==> route.rank() <= other.rank()
    }

    /// Among the readings from `low` to `high` the key goes to `route`, or to none of them.
    pub open spec fn routes_within(
        &self,
        route: Option<Route>,
        low: int,
        high: int,
        press: Press,
        hits: Hits,
        standing: Standing,
    ) -> bool {
        match route {
            Some(route) => {
                &&& low <= route.rank() <= high
                &&& self.wants(route, press, hits, standing)
                &&& forall|other: Route|
                    low <= other.rank() && #[trigger] self.wants(other, press, hits, standing)
                        ==> route.rank() <= other.rank()
            },
            None => forall|other: Route|
                low <= other.rank() <= high ==> !#[trigger] self.wants(
                    other,
                    press,
                    hits,
                    standing,
                ),
        }
    }

    /// The chords that work on the screen itself.
    fn chord_route(&self, press: Press, hits: &Hits, standing: &Standing) -> (r: Option<Route>)
        ensures
            self.routes_within(r, 2, 11, press, *hits, *standing),
    {
        proof {
            reveal(App::wants);
        }
        if hits.palette {
            return Some(Route::Palette);
        }
        let bare = self.overlay.is_none();
        if bare {
            if hits.quit {
                return Some(Route::Quit);
            }
            if hits.rename {
                return Some(Route::Rename);
            }
            if hits.suspend {
                return Some(Route::Suspend);
            }
            if hits.leader {
                return Some(Route::ArmLeader);
            }
            if hits.editor {
                return Some(Route::Editor);
            }
            if hits.verbose {
                return Some(Route::Verbose);
            }
            if hits.plan_panel {
                return Some(Route::PlanPanel);
            }
        }
        if hits.cancel {
            return Some(Route::Cancel);
        }
        if hits.quit_empty && bare && self.focused_prompt_empty() {
            return Some(Route::QuitEmpty);
        }
        None
    }

    /// The readings of a key that nothing on the way to the prompt has claimed.
    fn prompt_route(&self, press: Press, hits: &Hits, standing: &Standing) -> (r: Route)
        ensures
            self.routes_within(Some(r), 17, 23, press, *hits, *standing),
    {
        proof {
            reveal(App::wants);
        }
        let empty = self.focused_prompt_empty();
        if hits.help && empty {
            return Route::Help;
        }
        if hits.settings && empty {
            return Route::Settings;
        }
        if standing.ledger {
            return Route::Ledger;
        }
        let completing = match &self.sessions.composer {
            Some(composer) => composer.editor.completing,
            None => false,
        };
        if hits.interrupt && standing.turn_running && !completing {
            return Route::Interrupt;
        }
        if self.tab == Tab::Sessions && self.sessions.composer.is_some() {
            return Route::Composer;
        }
        let turns = match press.code {
            KeyCode::Tab | KeyCode::BackTab => true,
            _ => false,
        };
        if self.tab == Tab::Sessions && self.sessions.open.is_none() && (
        !self.home_draft.text.as_str().is_empty() || !turns) {
            return Route::Home;
        }
        Route::List
    }

    /// The keys that move the transcript under the composer.
    fn transcript_route(&self, press: Press, hits: &Hits, standing: &Standing) -> (r: Option<Route>)
        ensures
            self.routes_within(r, 14, 16, press, *hits, *standing),
    {
        proof {
            reveal(App::wants);
        }
        if self.tab != Tab::Sessions || self.sessions.open.is_none() {
            return None;
        }
        let empty = self.focused_prompt_empty();
        if empty && hits.transcript_top {
            return Some(Route::TranscriptTop);
        }
        if empty && hits.transcript_bottom {
            return Some(Route::TranscriptBottom);
        }
        match scroll_rows(press) {
            Some(rows) => Some(Route::Scroll(rows)),
            None => None,
        }
    }

    fn early_route(&self, press: Press, hits: &Hits, standing: &Standing) -> (r: Option<Route>)
        ensures
            self.routes_within(r, 0, 1, press, *hits, *standing),
    {
        proof {
            assert(self.wants(Route::Ignored, press, *hits, *standing) == press.release) by {
                reveal(App::wants);
            }
            assert(self.wants(Route::Leader, press, *hits, *standing) == (self.leader_until is Some))
                by {
                reveal(App::wants);
            }
        }
        if press.release {
            return Some(Route::Ignored);
        }
        if self.leader_until.is_some() {
            return Some(Route::Leader);
        }
        None
    }

    fn covering_route(&self, press: Press, hits: &Hits, standing: &Standing) -> (r: Option<Route>)
        ensures
            self.routes_within(r, 12, 13, press, *hits, *standing),
            r is None ==> self.overlay is None,
    {
        proof {
            reveal(App::wants);
        }
        if self.overlay.is_some() {
            return Some(Route::Overlay);
        }
        if self.goes_back_now(hits.backtrack) {
            return Some(Route::Backtrack);
        }
        None
    }

    pub fn route(&self, press: Press, hits: &Hits, standing: &Standing) -> (r: Route)
        ensures
            self.routes(r, press, *hits, *standing),
    {
        if let Some(route) = self.early_route(press, hits, standing) {
            return route;
        }
        if let Some(route) = self.chord_route(press, hits, standing) {
            return route;
        }
        if let Some(route) = self.covering_route(press, hits, standing) {
            return route;
        }
        if let Some(route) = self.transcript_route(press, hits, standing) {
            return route;
        }
        self.prompt_route(press, hits, standing)
    }

    // ----- acting on a key ------------------------------------------------------------

    /// The chord that goes back, after a key it was offered: its first key arms it, and keeps its
    /// own meaning; its second key disarms it, in time or not.
    pub open spec fn rearmed(&self, after: App, chord: Chord, ticks: u64) -> bool {
        &&& after == (App { backtrack_arm: after.backtrack_arm, ..*self })
        &&& match chord {
            Chord::Two { first, second } => if first && !self.goes_back(chord)
                && self.sessions.open is Some {
                &&& after.backtrack_arm is Some
                &&& (after.backtrack_arm->0).0 == self.ticks + ticks
                &&& (after.backtrack_arm->0).1@ == self.sessions.open->0@
            } else if second {
                after.backtrack_arm is None
            } else {
                after.backtrack_arm == self.backtrack_arm
            },
            _ => after.backtrack_arm == self.backtrack_arm,
        }
    }

    /// The session a completed chord of two keys goes back through: the one its first key saw.
    pub open spec fn armed_session(&self, chord: Chord) -> Option<(crate::model::Plane, Seq<char>)> {
        if chord is Two && self.goes_back(chord) {
            Some((self.backtrack_arm->0).1@)
        } else {
            None
        }
    }

    fn backtrack_chord(&mut self, chord: Chord, ticks: u64) -> (r: Option<Key>)
        requires
            old(self).wf(),
            ticks <= TICK_CEILING,
        ensures
            final(self).wf(),
            old(self).rearmed(*final(self), chord, ticks),
            key_of(r) == old(self).armed_session(chord),
    {
        let (first, second) = match chord {
            Chord::Two { first, second } => (first, second),
            _ => {
                return None;
            },
        };
        let back = self.goes_back_now(chord);
        let mut held: Option<(u64, Key)> = None;
        if second {
            std::mem::swap(&mut self.backtrack_arm, &mut held);
        }
        if back {
            return match held {
                Some((_, key)) => Some(key),
                None => None,
            };
        }
        if first {
            if let Some(open) = &self.sessions.open {
                let key = Key::new(open.plane, open.id.as_str());
                self.backtrack_arm = Some((self.ticks + ticks, key));
            }
        }
        None
    }

    /// The palette opens over a bare screen, and closes.
    pub open spec fn palette_toggled(&self, after: App) -> bool {
        match self.overlay {
            Some(Overlay::Commands(_)) => after == self.bare(),
            Some(_) => after == *self,
            None => {
                &&& after.overlay matches Some(Overlay::Commands(palette))
                &&& palette.query@.len() == 0 && palette.selected == 0
                &&& self.overlaid(after)
            },
        }
    }

    fn toggle_palette(&mut self)
        requires
            old(self).wf(),
        ensures
            final(self).wf(),
            old(self).palette_toggled(*final(self)),
    {
        match &self.overlay {
            Some(Overlay::Commands(_)) => {
                self.overlay = None;
            },
            Some(_) => {},
            None => {
                self.overlay = Some(Overlay::Commands(CommandPalette::new()));
            },
        }
    }

    /// The tab `steps` places on, around the ends.
    pub open spec fn tab_at(&self, steps: int) -> Tab {
        Tab::ALL@[(self.tab.place() + steps) % 7]
    }

    /// What a key does on a tab that is a list. A digit past the last tab falls through, and a
    /// bare letter quits only where some key does.
    pub open spec fn listed(&self, after: App, press: Press, hits: Hits, standing: Standing) -> bool {
        match press.code {
            KeyCode::Tab => (App { tab: self.tab_at(1), ..*self }).polled(after),
            KeyCode::BackTab => (App { tab: self.tab_at(6), ..*self }).polled(after),
            KeyCode::Char('q') => if hits.quit_bound {
                self.quit_opened(after)
            } else {
                after == *self
            },
            KeyCode::Char('?') => after == (App { overlay: Some(Overlay::Help), ..*self }),
            KeyCode::Char('r') => self.stale().polled(after),
            KeyCode::Char('j') | KeyCode::Down => self.moved(after, 1, standing.drawn as int),
            KeyCode::Char('k') | KeyCode::Up => self.moved(after, -1, standing.drawn as int),
            KeyCode::PageDown => self.moved(after, 10, standing.drawn as int),
            KeyCode::PageUp => self.moved(after, -10, standing.drawn as int),
            KeyCode::Char('h') | KeyCode::Left => self.stepped_left(after, standing.row),
            KeyCode::Char('l') | KeyCode::Right => after == self.stepped_right(),
            KeyCode::Enter => self.activated(after, standing.row),
            KeyCode::Esc => self.escaped(after),
            KeyCode::Char('n') => self.form_opened(after),
            KeyCode::Char('x') => if self.sessions.open is Some {
                self.end_asked(after)
            } else {
                after == *self
            },
            KeyCode::Char(c) => match digit_tab(c) {
                Some(tab) => if press.ctrl {
                    after == *self
                } else {
                    (App { tab, ..*self }).polled(after)
                },
                None => after == *self,
            },
            _ => after == *self,
        }
    }

    fn list_motion(&mut self, press: Press, standing: &Standing)
        requires
            old(self).wf(),
            match press.code {
                KeyCode::Char('j')
                | KeyCode::Down
                | KeyCode::Char('k')
                | KeyCode::Up
                | KeyCode::PageDown
                | KeyCode::PageUp
                | KeyCode::Char('h')
                | KeyCode::Left
                | KeyCode::Char('l')
                | KeyCode::Right
                | KeyCode::Enter
                | KeyCode::Esc => true,
                _ => false,
            },
        ensures
            final(self).wf(),
            forall|hits: Hits| #[trigger] old(self).listed(*final(self), press, hits, *standing),
    {
        match press.code {
            KeyCode::Char('j') | KeyCode::Down => self.move_by(1, standing.drawn),
            KeyCode::Char('k') | KeyCode::Up => self.move_by(-1, standing.drawn),
            KeyCode::PageDown => self.move_by(10, standing.drawn),
            KeyCode::PageUp => self.move_by(-10, standing.drawn),
            KeyCode::Char('h') | KeyCode::Left => self.left(&standing.row),
            KeyCode::Char('l') | KeyCode::Right => self.right(),
            KeyCode::Enter => self.activate(&standing.row),
            KeyCode::Esc => self.escape(),
            _ => {},
        }
    }

    fn list_key(&mut self, press: Press, hits: &Hits, standing: &Standing)
        requires
            old(self).wf(),
        ensures
            final(self).wf(),
            old(self).listed(*final(self), press, *hits, *standing),
    {
        match press.code {
            KeyCode::Tab => {
                let all = Tab::ALL;
                let at: usize = (self.tab.index() + 1) % 7;
                self.select_tab(all[at]);
            },
            KeyCode::BackTab => {
                let all = Tab::ALL;
                let at: usize = (self.tab.index() + 6) % 7;
                self.select_tab(all[at]);
            },
            KeyCode::Char('q') => {
                if hits.quit_bound {
                    self.open_quit();
                }
            },
            KeyCode::Char('?') => self.open_help(),
            KeyCode::Char('r') => self.refresh(),
            KeyCode::Char('n') => self.open_new_session(),
            KeyCode::Char('x') => {
                if self.sessions.open.is_some() {
                    self.open_close_confirm();
                }
            },
            KeyCode::Char('j')
            | KeyCode::Down
            | KeyCode::Char('k')
            | KeyCode::Up
            | KeyCode::PageDown
            | KeyCode::PageUp
            | KeyCode::Char('h')
            | KeyCode::Left
            | KeyCode::Char('l')
            | KeyCode::Right
            | KeyCode::Enter
            | KeyCode::Esc => self.list_motion(press, standing),
            KeyCode::Char(c) => {
                if !press.ctrl {
                    if let Some(tab) = tab_for_digit(c) {
                        self.select_tab(tab);
                    }
                }
            },
            _ => {},
        }
    }

    /// What a key does at once, where it is known where it goes. What an editor, the ledger or a
    /// leader key make of it is taken further by `take_key`.
    pub open spec fn performed(
        &self,
        after: App,
        route: Route,
        press: Press,
        hits: Hits,
        standing: Standing,
    ) -> bool {
        match route {
            Route::Leader => after == (App { leader_until: None, ..*self }),
            Route::Palette => self.palette_toggled(after),
            Route::Quit | Route::QuitEmpty => self.quit_opened(after),
            Route::ArmLeader => after == (App {
                leader_until: Some((self.ticks + standing.leader_ticks) as u64),
                ..*self
            }),
            Route::Cancel | Route::Interrupt => self.interrupted(after),
            Route::Overlay => self.overlay_keyed(after, press, standing.numbered),
            Route::TranscriptTop => self.turned_by(
                after,
                |watch: crate::watch::Watch| App::topped(watch),
            ),
            Route::TranscriptBottom => self.turned_by(
                after,
                |watch: crate::watch::Watch| App::bottomed(watch),
            ),
            Route::Scroll(rows) => self.moved(after, rows as int, standing.drawn as int),
            Route::Help => after == (App { overlay: Some(Overlay::Help), ..*self }),
            Route::Settings => self.settings_opened(after),
            Route::List => self.listed(after, press, hits, standing),
            _ => after == *self,
        }
    }

    fn perform(&mut self, route: Route, press: Press, hits: &Hits, standing: &Standing)
        requires
            old(self).wf(),
            standing.leader_ticks <= TICK_CEILING,
            route matches Route::Scroll(rows) ==> rows > isize::MIN && old(self).overlay is None,
        ensures
            final(self).wf(),
            old(self).performed(*final(self), route, press, *hits, *standing),
    {
        match route {
            Route::Leader => {
                self.leader_until = None;
            },
            Route::Palette => self.toggle_palette(),
            Route::Quit | Route::QuitEmpty => self.open_quit(),
            Route::ArmLeader => {
                self.leader_until = Some(self.ticks + standing.leader_ticks);
            },
            Route::Cancel | Route::Interrupt => self.interrupt(),
            Route::Overlay => self.overlay_key(press, standing.numbered),
            Route::TranscriptTop => self.transcript_to_top(),
            Route::TranscriptBottom => self.transcript_to_bottom(),
            Route::Scroll(rows) => self.scroll_view(rows, standing.drawn),
            Route::Help => self.open_help(),
            Route::Settings => self.open_settings(),
            Route::List => self.list_key(press, hits, standing),
            _ => {},
        }
    }

    /// A key, all of it: the chord that goes back sees it where nothing before claimed it, and
    /// then it is acted on where it went.
    pub open spec fn keyed(
        &self,
        after: App,
        press: Press,
        hits: Hits,
        standing: Standing,
        route: Route,
    ) -> bool {
        &&& self.routes(route, press, hits, standing)
        &&& if route.past_chord() {
            exists|mid: App|
                #[trigger] self.rearmed(mid, hits.backtrack, standing.backtrack_ticks)
                    && mid.performed(after, route, press, hits, standing)
        } else {
            self.performed(after, route, press, hits, standing)
        }
    }

    /// Returns where the key went, and the session that a completed chord goes back through.
    pub fn key(&mut self, press: Press, hits: &Hits, standing: &Standing) -> (r: (
        Route,
        Option<Key>,
    ))
        requires
            old(self).wf(),
            standing.leader_ticks <= TICK_CEILING,
            standing.backtrack_ticks <= TICK_CEILING,
        ensures
            final(self).wf(),
            old(self).keyed(*final(self), press, *hits, *standing, r.0),
            key_of(r.1) == if r.0 is Backtrack {
                old(self).armed_session(hits.backtrack)
            } else {
                None
            },
    {
        let ghost start = *self;
        let route = self.route(press, hits, standing);
        let mut back: Option<Key> = None;
        proof {
            reveal(App::wants);
            assert(start.wants(Route::Overlay, press, *hits, *standing) == (start.overlay is Some));
            assert(start.wants(Route::Backtrack, press, *hits, *standing) == start.goes_back(
                hits.backtrack,
            ));
        }
        if route.passes_chord() {
            back = self.backtrack_chord(hits.backtrack, standing.backtrack_ticks);
        }
        let ghost mid = *self;
        assert(route.past_chord() ==> start.rearmed(mid, hits.backtrack, standing.backtrack_ticks));
        self.perform(route, press, hits, standing);
        (route, back)
    }
}

// ----- the composer -----------------------------------------------------------------

impl App {
    /// The composer holds what the editor made of a key.
    pub open spec fn composer_edited(&self, after: App, draft: Draft) -> bool {
        match self.sessions.composer {
            Some(composer) => after == (App {
                sessions: SessionsTab {
                    composer: Some(
                        Composer {
                            editor: draft,
                            generation: if composer.editor.text@ == draft.text@
                                || composer.generation == u64::MAX {
                                composer.generation
                            } else {
                                (composer.generation + 1) as u64
                            },
                            ..composer
                        },
                    ),
                    ..self.sessions
                },
                ..*self
            }),
            None => after == *self,
        }
    }

    /// A key reached the composer. While the first message of its session is on its way it takes
    /// none.
    pub open spec fn composer_keyed(&self, after: App, edit: Edit, fresh: Seq<char>, drawn: int) -> bool {
        if self.first_is_away() || self.sessions.composer is None {
            after == *self
        } else {
            exists|edited: App|
                {
                    &&& #[trigger] self.composer_edited(edited, edit.draft)
                    &&& match edit.action {
                        EditorAction::Submit => edited.composer_submitted(after, fresh),
                        EditorAction::Cancel => after == (App {
                            sessions: SessionsTab { composer: None, ..edited.sessions },
                            ..edited
                        }),
                        EditorAction::Scroll(pages) => edited.moved(after, pages * 10, drawn),
                        _ => after == edited,
                    }
                }
        }
    }

    fn edit_composer(&mut self, draft: Draft)
        requires
            old(self).wf(),
        ensures
            final(self).wf(),
            old(self).composer_edited(*final(self), draft),
    {
        let mut held: Option<Composer> = None;
        std::mem::swap(&mut self.sessions.composer, &mut held);
        if let Some(composer) = held {
            let mut composer = composer;
            if !same(composer.editor.text.as_str(), draft.text.as_str()) {
                composer.generation = composer.generation.saturating_add(1);
            }
            composer.editor = draft;
            self.sessions.composer = Some(composer);
        }
    }

    /// `edit` is what the editor made of the key, and `fresh` a new id for a turn that has none.
    pub fn composer_key(&mut self, edit: Edit, fresh: &str, drawn: usize)
        requires
            old(self).wf(),
        ensures
            final(self).wf(),
            old(self).composer_keyed(*final(self), edit, fresh@, drawn as int),
    {
        if self.first_message_in_flight() || self.sessions.composer.is_none() {
            return;
        }
        let ghost start = *self;
        self.edit_composer(edit.draft);
        let ghost edited = *self;
        assert(start.composer_edited(edited, edit.draft));
        match edit.action {
            EditorAction::Submit => self.submit_composer(fresh),
            EditorAction::Cancel => {
                self.sessions.composer = None;
            },
            EditorAction::Scroll(pages) => self.move_by(pages as isize * 10, drawn),
            _ => {},
        }
    }
}

// ----- the leader key ---------------------------------------------------------------

/// What the keymap offers under the leader key.
#[derive(Debug, Clone, Copy, PartialEq, Eq, Structural)]
pub enum LeaderVerb {
    New,
    NewOptions,
    Sessions,
    Writable,
    Editor,
    Copy,
    Scrollback,
    EditorView,
    OpenImage,
    Steer,
    Approval,
    AutoApprove,
    ShellRule,
    End,
    Details,
    Settings,
    Theme,
    Export,
    Compact,
    Model,
    Backtrack,
    Status,
    Rail,
    TabDashboard,
    TabSessions,
    TabUpgrade,
    TabLogs,
    Quit,
    Help,
}

impl LeaderVerb {
    /// The verb is carried out by who holds an editor, a terminal or a transcript.
    pub open spec fn is_outside(self) -> bool {
        match self {
            LeaderVerb::Writable
            | LeaderVerb::Editor
            | LeaderVerb::Copy
            | LeaderVerb::Scrollback
            | LeaderVerb::EditorView
            | LeaderVerb::OpenImage
            | LeaderVerb::AutoApprove
            | LeaderVerb::ShellRule
            | LeaderVerb::Theme
            | LeaderVerb::Export
            | LeaderVerb::Compact
            | LeaderVerb::Model
            | LeaderVerb::Backtrack
            | LeaderVerb::Rail => true,
            _ => false,
        }
    }
}

/// One entry of the line that names the verbs.
pub open spec fn hint_part(verb: (String, String)) -> Seq<char> {
    verb.0@ + " "@ + verb.1@
}

pub open spec fn hint_parts(verbs: Seq<(String, String)>) -> Seq<Seq<char>> {
    Seq::new(
        if verbs.len() > 8 {
            8
        } else {
            verbs.len()
        },
        |i: int| hint_part(verbs[i]),
    )
}

/// The line a leader key shows when what followed is no verb: the first eight verbs, each under
/// the key that reaches it, so that a notice does not become a page.
pub fn leader_hint_text(leader: &str, verbs: &Vec<(String, String)>) -> (r: String)
    ensures
        r@ == leader@ + " "@ + joined(hint_parts(verbs@), " \u{b7} "@),
{
    let mut parts: Vec<String> = Vec::new();
    let mut i: usize = 0;
    let n: usize = if verbs.len() > 8 {
        8
    } else {
        verbs.len()
    };
    while i < n
        invariant
            i <= n <= verbs@.len(),
            n <= 8,
            texts(parts@) == hint_parts(verbs@).take(i as int),
            hint_parts(verbs@).len() == n,
        decreases n - i,
    {
        let ghost before = texts(parts@);
        parts.push(cat3(verbs[i].0.as_str(), " ", verbs[i].1.as_str()));
        assert(texts(parts@) =~= before.push(hint_part(verbs@[i as int])));
        assert(hint_parts(verbs@).take(i + 1) =~= hint_parts(verbs@).take(i as int).push(
            hint_part(verbs@[i as int]),
        ));
        i += 1;
    }
    assert(hint_parts(verbs@).take(n as int) =~= hint_parts(verbs@));
    let line = join(&parts, " \u{b7} ");
    cat3(leader, " ", line.as_str())
}

impl App {
    /// A verb of the leader key.
    pub open spec fn led_by(&self, after: App, verb: LeaderVerb) -> bool {
        match verb {
            LeaderVerb::New => self.home_shown(after),
            LeaderVerb::NewOptions => self.form_opened(after),
            LeaderVerb::Sessions => self.commanded(after, Command::SwitchSession),
            LeaderVerb::Steer => self.composing(after, ComposerVerb::Steer),
            LeaderVerb::Approval => self.approval_reopened(after),
            LeaderVerb::End => self.end_asked(after),
            LeaderVerb::Details => self.details_toggled(after),
            LeaderVerb::Settings => self.settings_opened(after),
            LeaderVerb::Status | LeaderVerb::TabDashboard => (App {
                tab: Tab::Dashboard,
                ..*self
            }).polled(after),
            LeaderVerb::TabSessions => (App { tab: Tab::Sessions, ..*self }).polled(after),
            LeaderVerb::TabUpgrade => (App { tab: Tab::Upgrade, ..*self }).polled(after),
            LeaderVerb::TabLogs => (App { tab: Tab::Logs, ..*self }).polled(after),
            LeaderVerb::Quit => self.quit_opened(after),
            LeaderVerb::Help => after == (App { overlay: Some(Overlay::Help), ..*self }),
            _ => after == *self,
        }
    }

    fn lead(&mut self, verb: LeaderVerb) -> (r: bool)
        requires
            old(self).wf(),
        ensures
            final(self).wf(),
            r == !verb.is_outside(),
            old(self).led_by(*final(self), verb),
    {
        match verb {
            LeaderVerb::New => self.new_home(),
            LeaderVerb::NewOptions => self.open_new_session(),
            LeaderVerb::Sessions => self.activate_command(Command::SwitchSession),
            LeaderVerb::Steer => self.compose(ComposerVerb::Steer),
            LeaderVerb::Approval => self.reopen_approval(),
            LeaderVerb::End => self.open_close_confirm(),
            LeaderVerb::Details => self.toggle_session_details(),
            LeaderVerb::Settings => self.open_settings(),
            LeaderVerb::Status | LeaderVerb::TabDashboard => self.select_tab(Tab::Dashboard),
            LeaderVerb::TabSessions => self.select_tab(Tab::Sessions),
            LeaderVerb::TabUpgrade => self.select_tab(Tab::Upgrade),
            LeaderVerb::TabLogs => self.select_tab(Tab::Logs),
            LeaderVerb::Quit => self.open_quit(),
            LeaderVerb::Help => self.open_help(),
            _ => {
                return false;
            },
        }
        true
    }

    /// The key after the leader key. Esc always abandons it; a key that is no verb may still open
    /// the settings or the details, and otherwise the verbs are named.
    pub open spec fn led(
        &self,
        after: App,
        code: KeyCode,
        verb: Option<LeaderVerb>,
        settings: bool,
        details_bound: bool,
        hint: Seq<char>,
    ) -> bool {
        let calm = App { leader_until: None, ..*self };
        if code == KeyCode::Esc {
            after == calm
        } else {
            match verb {
                Some(verb) => calm.led_by(after, verb),
                None => if settings {
                    calm.settings_opened(after)
                } else if code == KeyCode::Char('o') && details_bound {
                    calm.details_toggled(after)
                } else {
                    calm.noticed(after, hint, NoticeKind::Info)
                },
            }
        }
    }

    /// Returns the verb, where it is left to be carried out.
    pub fn leader_key(
        &mut self,
        code: KeyCode,
        verb: Option<LeaderVerb>,
        settings: bool,
        details_bound: bool,
        hint: &str,
    ) -> (r: Option<LeaderVerb>)
        requires
            old(self).wf(),
        ensures
            final(self).wf(),
            old(self).led(*final(self), code, verb, settings, details_bound, hint@),
            r == if code != KeyCode::Esc && verb is Some && verb->0.is_outside() {
                verb
            } else {
                None
            },
    {
        self.leader_until = None;
        if code == KeyCode::Esc {
            return None;
        }
        match verb {
            Some(verb) => {
                if self.lead(verb) {
                    None
                } else {
                    Some(verb)
                }
            },
            None => {
                if settings {
                    self.open_settings();
                } else if code == KeyCode::Char('o') && details_bound {
                    self.toggle_session_details();
                } else {
                    self.inform(hint.to_owned(), NoticeKind::Info);
                }
                None
            },
        }
    }
}

// ----- laws -------------------------------------------------------------------------

/// A key goes to one place.
pub proof fn lemma_a_key_goes_to_one_place(
    app: App,
    one: Route,
    other: Route,
    press: Press,
    hits: Hits,
    standing: Standing,
)
    requires
        app.routes(one, press, hits, standing),
        app.routes(other, press, hits, standing),
    ensures
        one == other,
{
    assert(one.rank() == other.rank());
    lemma_ranks_differ(one, other);
    if let (Route::Scroll(rows), Route::Scroll(more)) = (one, other) {
        lemma_scroll_rows_are_the_keys(app, rows, press, hits, standing);
        lemma_scroll_rows_are_the_keys(app, more, press, hits, standing);
    }
}

proof fn lemma_ranks_differ(one: Route, other: Route)
    requires
        one.rank() == other.rank(),
    ensures
        one == other || (one is Scroll && other is Scroll),
{
}

proof fn lemma_scroll_rows_are_the_keys(
    app: App,
    rows: isize,
    press: Press,
    hits: Hits,
    standing: Standing,
)
    requires
        app.wants(Route::Scroll(rows), press, hits, standing),
    ensures
        scroll_of(press) == Some(rows as int),
{
    reveal(App::wants);
}

/// A release changes nothing.
pub proof fn lemma_a_release_does_nothing(
    before: App,
    after: App,
    press: Press,
    hits: Hits,
    standing: Standing,
    route: Route,
)
    requires
        press.release,
        before.keyed(after, press, hits, standing, route),
    ensures
        route == Route::Ignored,
        after == before,
{
    assert(before.wants(Route::Ignored, press, hits, standing)) by {
        reveal(App::wants);
    }
    assert(Route::Ignored.rank() == 0);
}

/// While something lies over the screen, a key reaches nothing under it: it goes there, or it is
/// one of the chords that work everywhere.
pub proof fn lemma_an_overlay_keeps_the_keyboard(
    app: App,
    route: Route,
    press: Press,
    hits: Hits,
    standing: Standing,
)
    requires
        app.overlay is Some,
        app.routes(route, press, hits, standing),
    ensures
        route is Ignored || route is Leader || route is Palette || route is Cancel || route
            is Overlay,
{
    reveal(App::wants);
    assert(app.wants(Route::Overlay, press, hits, standing));
}

/// A draft keeps what is typed: with text in the composer, a character that is bound to nothing
/// goes into it.
pub proof fn lemma_a_draft_keeps_its_characters(
    app: App,
    route: Route,
    press: Press,
    hits: Hits,
    standing: Standing,
    c: char,
)
    requires
        app.routes(route, press, hits, standing),
        app.tab == Tab::Sessions && app.sessions.composer is Some && !app.prompt_empty(),
        app.overlay is None && app.leader_until is None,
        press.code == KeyCode::Char(c) && !press.release,
        !hits.palette && !hits.quit && !hits.rename && !hits.suspend && !hits.leader,
        !hits.editor && !hits.verbose && !hits.plan_panel && !hits.cancel && !hits.interrupt,
        hits.backtrack is Unbound && !standing.ledger,
    ensures
        route == Route::Composer,
{
    reveal(App::wants);
    assert(app.wants(Route::Composer, press, hits, standing));
}

/// The first key of the chord that goes back is left its own meaning, and so is a second key that
/// comes too late.
pub proof fn lemma_half_a_chord_takes_no_key(
    app: App,
    route: Route,
    press: Press,
    hits: Hits,
    standing: Standing,
    first: bool,
    second: bool,
)
    requires
        hits.backtrack == (Chord::Two { first, second }),
        second ==> app.backtrack_arm is None || app.ticks >= (app.backtrack_arm->0).0,
        app.routes(route, press, hits, standing),
    ensures
        !(route is Backtrack),
{
    if route is Backtrack {
        assert(app.goes_back(hits.backtrack)) by {
            reveal(App::wants);
        }
    }
}

/// Esc abandons the leader key, whatever verb it is bound to.
pub proof fn lemma_escape_abandons_the_leader(
    before: App,
    after: App,
    verb: Option<LeaderVerb>,
    settings: bool,
    details_bound: bool,
    hint: Seq<char>,
)
    requires
        before.led(after, KeyCode::Esc, verb, settings, details_bound, hint),
    ensures
        after == (App { leader_until: None, ..before }),
{
}

} // verus!
