//! A turn that did not arrive: where its text goes.

use vstd::prelude::*;

use crate::answers::{restored_words, Disposition};
use crate::app::{App, NoticeKind, Restore};
use crate::model::Plane;
use crate::sessions::{
    find_saved, is_key, is_waiting, key_of, saved_at, waits_for, Composer, Key, ReconciliationOwner,
    SavedDraft, SessionsTab, Unsettled,
};
use crate::text::{is_text, said};

verus! {

/// The composer holds a turn's text again. A turn that is sent again under its id is remembered as
/// the one this draft is kept for.
pub open spec fn holds_again(before: Composer, after: Composer, restore: Restore) -> bool {
    &&& after.editor.text@ == restore.input@
    &&& !after.editor.completing
    &&& said(after.next_turn_id) == said(restore.turn_id)
    &&& match restore.turn_id {
        Some(turn_id) => {
            &&& after.reconciliation_owner is Some
            &&& after.reconciliation_owner->0.turn_id@ == turn_id@
            &&& after.reconciliation_owner->0.generation == before.generation
        },
        None => after.reconciliation_owner is None,
    }
    &&& after == (Composer {
        editor: after.editor,
        next_turn_id: after.next_turn_id,
        verb: restore.verb,
        reconciliation_owner: after.reconciliation_owner,
        ..before
    })
}

fn hold_again(composer: Composer, restore: &Restore) -> (r: Composer)
    ensures
        holds_again(composer, r, *restore),
{
    let mut composer = composer;
    composer.editor.hold(restore.input.as_str());
    composer.verb = restore.verb;
    match &restore.turn_id {
        Some(turn_id) => {
            composer.next_turn_id = Some(turn_id.clone());
            composer.reconciliation_owner = Some(
                ReconciliationOwner { turn_id: turn_id.clone(), generation: composer.generation },
            );
        },
        None => {
            composer.next_turn_id = None;
            composer.reconciliation_owner = None;
        },
    }
    composer
}

impl SessionsTab {
    /// The session is open, and its composer is empty or still holds that turn.
    pub open spec fn takes_back(&self, restore: Restore) -> bool {
        &&& key_of(self.open) == Some((restore.plane, restore.id@))
        &&& self.composer is Some
        &&& self.composer->0.editor.blank() || (restore.turn_id is Some && said(
            self.composer->0.next_turn_id,
        ) == said(restore.turn_id))
    }

    /// A newer draft of the session is here.
    pub open spec fn has_newer(&self, plane: Plane, id: Seq<char>) -> bool {
        ||| key_of(self.open) == Some((plane, id)) && self.composer is Some
        ||| saved_at(self.composer_drafts@, plane, id, 0) is Some
    }

    /// Where the text of a turn goes: into its composer where that can take it. A turn whose id is
    /// kept waits to be reconciled otherwise; any other text is saved for when its composer is
    /// opened, unless a newer draft is there.
    pub open spec fn place_of(&self, restore: Restore) -> Disposition {
        if self.takes_back(restore) {
            Disposition::Restored
        } else if restore.turn_id is Some {
            Disposition::ReconciliationQueued
        } else if self.has_newer(restore.plane, restore.id@) {
            Disposition::NewerDraftPreserved
        } else {
            Disposition::SavedForReopen
        }
    }

    /// The text of a turn went where it belongs, and nothing else changed.
    pub open spec fn takes(&self, after: SessionsTab, restore: Restore) -> bool {
        match self.place_of(restore) {
            Disposition::Restored => {
                &&& after.composer is Some
                &&& holds_again(self.composer->0, after.composer->0, restore)
                &&& after == (SessionsTab { composer: after.composer, ..*self })
            },
            Disposition::ReconciliationQueued => {
                let turn_id = restore.turn_id->0@;
                if waits_for(
                    self.pending_reconciliations@,
                    restore.plane,
                    restore.id@,
                    turn_id,
                ) {
                    after == *self
                } else {
                    &&& after.pending_reconciliations@.len() == self.pending_reconciliations@.len()
                        + 1
                    &&& after.pending_reconciliations@.drop_last() == self.pending_reconciliations@
                    &&& ({
                        let turn = after.pending_reconciliations@.last();
                        &&& turn.key@ == (restore.plane, restore.id@)
                        &&& turn.turn_id@ == turn_id
                        &&& turn.input@ == restore.input@
                        &&& turn.submission_sequence == restore.submission_sequence
                        &&& turn.verb == restore.verb
                    })
                    &&& after == (SessionsTab {
                        pending_reconciliations: after.pending_reconciliations,
                        ..*self
                    })
                }
            },
            Disposition::SavedForReopen => {
                &&& after.composer_drafts@.len() == self.composer_drafts@.len() + 1
                &&& after.composer_drafts@.drop_last() == self.composer_drafts@
                &&& after.composer_drafts@.last().key@ == (restore.plane, restore.id@)
                &&& after.composer_drafts@.last().input@ == restore.input@
                &&& after.composer_drafts@.last().generation == 0
                &&& after.composer_drafts@.last().reconciliation_owner is None
                &&& after == (SessionsTab { composer_drafts: after.composer_drafts, ..*self })
            },
            Disposition::NewerDraftPreserved => after == *self,
        }
    }

    fn take_back(&mut self, restore: &Restore) -> (r: Disposition)
        requires
            old(self).wf(),
        ensures
            final(self).wf(),
            r == old(self).place_of(*restore),
            old(self).takes(*final(self), *restore),
    {
        let here = is_key(&self.open, restore.plane, restore.id.as_str());
        let takes = here && match &self.composer {
            Some(composer) => composer.editor.text.as_str().is_empty() || match &restore.turn_id {
                Some(turn_id) => is_text(&composer.next_turn_id, turn_id.as_str()),
                None => false,
            },
            None => false,
        };
        if takes {
            let mut held: Option<Composer> = None;
            std::mem::swap(&mut self.composer, &mut held);
            if let Some(composer) = held {
                self.composer = Some(hold_again(composer, restore));
            }
            return Disposition::Restored;
        }
        if let Some(turn_id) = &restore.turn_id {
            if !is_waiting(
                &self.pending_reconciliations,
                restore.plane,
                restore.id.as_str(),
                turn_id.as_str(),
            ) {
                let ghost before = self.pending_reconciliations@;
                self.pending_reconciliations.push(
                    Unsettled {
                        key: Key::new(restore.plane, restore.id.as_str()),
                        turn_id: turn_id.clone(),
                        input: restore.input.clone(),
                        submission_sequence: restore.submission_sequence,
                        verb: restore.verb,
                    },
                );
                assert(self.pending_reconciliations@.drop_last() =~= before);
            }
            return Disposition::ReconciliationQueued;
        }
        if (here && self.composer.is_some()) || find_saved(
            &self.composer_drafts,
            restore.plane,
            restore.id.as_str(),
        ).is_some() {
            return Disposition::NewerDraftPreserved;
        }
        let ghost before = self.composer_drafts@;
        self.composer_drafts.push(
            SavedDraft {
                key: Key::new(restore.plane, restore.id.as_str()),
                input: restore.input.clone(),
                generation: 0,
                reconciliation_owner: None,
            },
        );
        assert(self.composer_drafts@.drop_last() =~= before);
        Disposition::SavedForReopen
    }
}

impl App {
    /// A turn came back: its text went where it belongs, and that is said.
    pub open spec fn submission_restored(&self, after: App, restore: Restore) -> bool {
        &&& self.sessions.takes(after.sessions, restore)
        &&& after.says(
            restored_words(restore, self.sessions.place_of(restore)),
            NoticeKind::Error,
        )
        &&& after == (App { sessions: after.sessions, notice: after.notice, ..*self })
    }

    pub fn restore_composer_submission(&mut self, restore: &Restore) -> (r: Disposition)
        requires
            old(self).wf(),
        ensures
            final(self).wf(),
            r == old(self).sessions.place_of(*restore),
            old(self).submission_restored(*final(self), *restore),
    {
        let disposition = self.sessions.take_back(restore);
        self.composer_restored(restore, disposition);
        disposition
    }
}

// ----- laws -------------------------------------------------------------------------

/// The text of a turn that came back is not lost, unless it was definitely refused and a newer
/// draft of its session is there: a composer holds it, or it is saved, or it waits to be
/// reconciled.
pub proof fn lemma_a_turn_keeps_its_text(before: SessionsTab, after: SessionsTab, restore: Restore)
    requires
        before.takes(after, restore),
        restore.turn_id is Some || !before.has_newer(restore.plane, restore.id@)
            || before.takes_back(restore),
    ensures
        ({
            ||| after.composer is Some && after.composer->0.editor.text@ == restore.input@
            ||| exists|i: int|
                0 <= i < after.composer_drafts@.len() && (
                #[trigger] after.composer_drafts@[i]).input@ == restore.input@
            ||| restore.turn_id is Some && waits_for(
                after.pending_reconciliations@,
                restore.plane,
                restore.id@,
                restore.turn_id->0@,
            )
        }),
{
    match before.place_of(restore) {
        Disposition::SavedForReopen => {
            let last = after.composer_drafts@.len() - 1;
            assert(after.composer_drafts@[last].input@ == restore.input@);
        },
        Disposition::ReconciliationQueued => {
            if !waits_for(
                before.pending_reconciliations@,
                restore.plane,
                restore.id@,
                restore.turn_id->0@,
            ) {
                let last = after.pending_reconciliations@.len() - 1;
                assert(after.pending_reconciliations@[last].turn_id@ == restore.turn_id->0@);
            }
        },
        _ => {},
    }
}

/// A draft that was typed since is never overwritten.
pub proof fn lemma_a_newer_draft_is_kept(before: SessionsTab, after: SessionsTab, restore: Restore)
    requires
        before.takes(after, restore),
        before.composer is Some,
        !before.takes_back(restore),
    ensures
        after.composer == before.composer,
{
}

} // verus!
