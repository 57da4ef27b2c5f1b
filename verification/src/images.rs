//! Drafts that hold images, kept across a restart.
//!
//! An image that was taken into a draft lives on the runtime's side, so a draft that holds one is
//! written to the client's recovery file and read back. What was on its way when the client went is
//! marked: nobody can tell whether it arrived.

use vstd::prelude::*;
use vstd::utf8::*;

use crate::app::{App, Config, PendingFirstMessage};
use crate::model::{Effort, Plane};
use crate::sessions::{Composer, SessionsTab};
use crate::text::{copy_text, said, same};

verus! {

pub const RECOVERY_VERSION: u64 = 1;

/// How many attachments a draft is restored with.
pub const ATTACHMENT_LIMIT: usize = 32;

/// How many entries of a list are restored.
pub const ENTRY_LIMIT: usize = 128;

/// How long, in bytes, the id of a draft and that of a session may be.
pub const DRAFT_ID_BYTES: usize = 100;

pub const SESSION_ID_BYTES: usize = 200;

#[derive(Debug, Clone, Copy, PartialEq, Eq, Structural)]
pub enum AttachmentKind {
    Path,
    /// Bytes this client holds itself.
    Image,
    ManagedImage,
    PendingImage,
    FailedImage,
}

#[derive(Debug)]
pub struct Attachment {
    pub kind: AttachmentKind,
    pub name: Option<String>,
    pub path: String,
    /// Gone with this client.
    pub ephemeral: bool,
}

pub struct AttachmentView {
    pub kind: AttachmentKind,
    pub name: Option<Seq<char>>,
    pub path: Seq<char>,
    pub ephemeral: bool,
}

impl Attachment {
    pub open spec fn view(&self) -> AttachmentView {
        AttachmentView {
            kind: self.kind,
            name: said(self.name),
            path: self.path@,
            ephemeral: self.ephemeral,
        }
    }

    pub fn copy(&self) -> (r: Attachment)
        ensures
            r@ == self@,
    {
        Attachment {
            kind: self.kind,
            name: copy_text(&self.name),
            path: self.path.clone(),
            ephemeral: self.ephemeral,
        }
    }
}

pub open spec fn attached(list: Seq<Attachment>) -> Seq<AttachmentView> {
    Seq::new(list.len(), |i: int| list[i]@)
}

fn copy_attachments(list: &Vec<Attachment>) -> (r: Vec<Attachment>)
    ensures
        attached(r@) == attached(list@),
{
    let mut out: Vec<Attachment> = Vec::new();
    let mut i: usize = 0;
    while i < list.len()
        invariant
            i <= list@.len(),
            out@.len() == i,
            forall|k: int| 0 <= k < i ==> (#[trigger] out@[k])@ == list@[k]@,
        decreases list@.len() - i,
    {
        out.push(list[i].copy());
        i += 1;
    }
    assert(attached(out@) =~= attached(list@));
    out
}

/// An upload that was on its way did not arrive, as far as anybody can tell.
pub open spec fn interrupted_one(image: AttachmentView) -> AttachmentView {
    if image.kind == AttachmentKind::PendingImage {
        AttachmentView {
            kind: AttachmentKind::FailedImage,
            name: Some("Interrupted image upload \u{b7} remove and attach again"@),
            ..image
        }
    } else {
        image
    }
}

pub open spec fn interrupted(images: Seq<AttachmentView>) -> Seq<AttachmentView> {
    Seq::new(images.len(), |i: int| interrupted_one(images[i]))
}

pub fn mark_interrupted(images: Vec<Attachment>) -> (r: Vec<Attachment>)
    ensures
        attached(r@) == interrupted(attached(images@)),
{
    let mut out: Vec<Attachment> = Vec::new();
    for image in it: images.into_iter()
        invariant
            it.seq() == images@,
            out@.len() == it.index(),
            forall|k: int|
                0 <= k < it.index() ==> (#[trigger] out@[k])@ == interrupted_one(images@[k]@),
    {
        let mut image = image;
        match image.kind {
            AttachmentKind::PendingImage => {
                image.kind = AttachmentKind::FailedImage;
                image.name = Some(
                    "Interrupted image upload \u{b7} remove and attach again".to_owned(),
                );
            },
            _ => {},
        }
        out.push(image);
    }
    assert(attached(out@) =~= interrupted(attached(images@)));
    out
}

pub open spec fn is_kept_image(kind: AttachmentKind) -> bool {
    kind is ManagedImage || kind is PendingImage || kind is FailedImage
}

pub open spec fn outlives(image: AttachmentView) -> bool {
    image.kind is Path || (!(image.kind is Image) && !image.ephemeral)
}

/// A draft is written to the recovery file where it holds an image, and nothing in it goes with
/// this client.
pub open spec fn is_persistable(images: Seq<AttachmentView>) -> bool {
    &&& exists|i: int| 0 <= i < images.len() && is_kept_image((#[trigger] images[i]).kind)
    &&& forall|i: int| 0 <= i < images.len() ==> outlives(#[trigger] images[i])
}

pub fn persistable(images: &Vec<Attachment>) -> (r: bool)
    ensures
        r == is_persistable(attached(images@)),
{
    let ghost views = attached(images@);
    let mut holds = false;
    let mut i: usize = 0;
    while i < images.len()
        invariant
            i <= images@.len(),
            views == attached(images@),
            holds == exists|k: int| 0 <= k < i && is_kept_image((#[trigger] views[k]).kind),
            forall|k: int| 0 <= k < i ==> outlives(#[trigger] views[k]),
        decreases images@.len() - i,
    {
        let image = &images[i];
        assert(views[i as int] == image@);
        let (kept, lives) = match image.kind {
            AttachmentKind::Path => (false, true),
            AttachmentKind::Image => (false, false),
            _ => (true, !image.ephemeral),
        };
        if !lives {
            assert(!outlives(views[i as int]));
            return false;
        }
        if kept {
            assert(is_kept_image(views[i as int].kind));
            holds = true;
        }
        i += 1;
    }
    holds
}

// ----- what is kept -----------------------------------------------------------------

#[derive(Debug)]
pub struct TurnInput {
    pub prompt: String,
    pub attachments: Vec<Attachment>,
    pub reasoning_effort: Option<Effort>,
}

pub struct InputView {
    pub prompt: Seq<char>,
    pub attachments: Seq<AttachmentView>,
    pub reasoning_effort: Option<Effort>,
}

impl TurnInput {
    pub open spec fn view(&self) -> InputView {
        InputView {
            prompt: self.prompt@,
            attachments: attached(self.attachments@),
            reasoning_effort: self.reasoning_effort,
        }
    }

    pub fn copy(&self) -> (r: TurnInput)
        ensures
            r@ == self@,
    {
        TurnInput {
            prompt: self.prompt.clone(),
            attachments: copy_attachments(&self.attachments),
            reasoning_effort: self.reasoning_effort,
        }
    }
}

impl InputView {
    pub open spec fn is_kept(&self) -> bool {
        is_persistable(self.attachments)
    }

    pub open spec fn cut_short(&self) -> InputView {
        InputView { attachments: interrupted(self.attachments), ..*self }
    }
}

/// A draft of a session, or a turn of it that is not settled.
#[derive(Debug)]
pub struct Kept {
    pub id: String,
    /// The machine the session is on, where that is known.
    pub node: Option<String>,
    pub input: TurnInput,
    /// The turn it was sent as, where it was sent.
    pub turn_id: Option<String>,
    pub sequence: u64,
    /// It goes out after the turn that runs.
    pub follow_up: bool,
}

pub struct KeptView {
    pub id: Seq<char>,
    pub node: Option<Seq<char>>,
    pub input: InputView,
    pub turn_id: Option<Seq<char>>,
    pub sequence: u64,
    pub follow_up: bool,
}

impl Kept {
    pub open spec fn view(&self) -> KeptView {
        KeptView {
            id: self.id@,
            node: said(self.node),
            input: self.input@,
            turn_id: said(self.turn_id),
            sequence: self.sequence,
            follow_up: self.follow_up,
        }
    }

    pub fn copy(&self) -> (r: Kept)
        ensures
            r@ == self@,
    {
        Kept {
            id: self.id.clone(),
            node: copy_text(&self.node),
            input: self.input.copy(),
            turn_id: copy_text(&self.turn_id),
            sequence: self.sequence,
            follow_up: self.follow_up,
        }
    }
}

pub open spec fn kept(list: Seq<Kept>) -> Seq<KeptView> {
    Seq::new(list.len(), |i: int| list[i]@)
}

/// The drafts and turns of this client that may hold images.
#[derive(Debug)]
pub struct ImageDrafts {
    pub draft_id: String,
    pub home_draft_id: String,
    pub home_images: Vec<Attachment>,
    pub home_node: String,
    /// The images of the composer that is open, and the effort chosen there.
    pub composer_images: Vec<Attachment>,
    pub composer_effort: Option<Effort>,
    pub drafts: Vec<Kept>,
    /// Turns on their way.
    pub in_flight: Vec<Kept>,
    /// Turns nobody can tell the outcome of.
    pub unsettled: Vec<Kept>,
    pub queued: Vec<Kept>,
}

/// What the recovery file holds.
#[derive(Debug)]
pub struct Recovery {
    pub version: u64,
    pub draft_id: Option<String>,
    pub home_draft_id: Option<String>,
    /// The images of the home's draft, where they could be read.
    pub home: Option<Vec<Attachment>>,
    pub home_text: String,
    pub home_node: String,
    pub first_message: Option<PendingFirstMessage>,
    pub drafts: Vec<Entry>,
    pub pending: Vec<Entry>,
    pub queued: Vec<Entry>,
}

/// An entry of the recovery file. What could not be read is absent.
#[derive(Debug)]
pub struct Entry {
    pub id: Option<String>,
    pub node: Option<String>,
    pub input: Option<TurnInput>,
    pub turn_id: Option<String>,
    pub sequence: u64,
    pub follow_up: bool,
}

pub struct EntryView {
    pub id: Option<Seq<char>>,
    pub node: Option<Seq<char>>,
    pub input: Option<InputView>,
    pub turn_id: Option<Seq<char>>,
    pub sequence: u64,
    pub follow_up: bool,
}

impl Entry {
    pub open spec fn view(&self) -> EntryView {
        EntryView {
            id: said(self.id),
            node: said(self.node),
            input: match self.input {
                Some(input) => Some(input@),
                None => None,
            },
            turn_id: said(self.turn_id),
            sequence: self.sequence,
            follow_up: self.follow_up,
        }
    }
}

pub open spec fn entries(list: Seq<Entry>) -> Seq<EntryView> {
    Seq::new(list.len(), |i: int| list[i]@)
}

// ----- writing ----------------------------------------------------------------------

/// Those of a list that are written, in its order.
pub open spec fn written(list: Seq<KeptView>) -> Seq<KeptView>
    decreases list.len(),
{
    if list.len() == 0 {
        list
    } else if list.last().input.is_kept() {
        written(list.drop_last()).push(list.last())
    } else {
        written(list.drop_last())
    }
}

fn write_list(list: &Vec<Kept>) -> (r: Vec<Kept>)
    ensures
        kept(r@) == written(kept(list@)),
{
    let ghost all = kept(list@);
    let mut out: Vec<Kept> = Vec::new();
    let mut i: usize = 0;
    assert(kept(out@) =~= written(all.take(0)));
    while i < list.len()
        invariant
            i <= list@.len(),
            all == kept(list@),
            kept(out@) == written(all.take(i as int)),
        decreases list@.len() - i,
    {
        let ghost before = kept(out@);
        assert(all.take(i + 1).drop_last() =~= all.take(i as int));
        assert(all.take(i + 1).last() == list@[i as int]@);
        if persistable(&list[i].input.attachments) {
            out.push(list[i].copy());
            assert(kept(out@) =~= before.push(list@[i as int]@));
        }
        i += 1;
    }
    assert(all.take(i as int) =~= all);
    out
}

pub open spec fn has_turn(list: Seq<KeptView>, turn_id: Option<Seq<char>>) -> bool {
    exists|i: int| 0 <= i < list.len() && (#[trigger] list[i]).turn_id == turn_id
}

/// The turns so far, and those of `more` that are not among them.
pub open spec fn with_missing(turns: Seq<KeptView>, more: Seq<KeptView>) -> Seq<KeptView>
    decreases more.len(),
{
    if more.len() == 0 {
        turns
    } else {
        let rest = with_missing(turns, more.drop_last());
        if has_turn(rest, more.last().turn_id) {
            rest
        } else {
            rest.push(more.last())
        }
    }
}

fn holds_turn(list: &Vec<Kept>, turn_id: &Option<String>) -> (r: bool)
    ensures
        r == has_turn(kept(list@), said(*turn_id)),
{
    let ghost all = kept(list@);
    let mut i: usize = 0;
    while i < list.len()
        invariant
            i <= list@.len(),
            all == kept(list@),
            forall|k: int| 0 <= k < i ==> (#[trigger] all[k]).turn_id != said(*turn_id),
        decreases list@.len() - i,
    {
        assert(all[i as int] == list@[i as int]@);
        if crate::text::agree(&list[i].turn_id, turn_id) {
            return true;
        }
        i += 1;
    }
    false
}

fn add_missing(turns: Vec<Kept>, more: Vec<Kept>) -> (r: Vec<Kept>)
    ensures
        kept(r@) == with_missing(kept(turns@), kept(more@)),
{
    let ghost first = kept(turns@);
    let ghost all = kept(more@);
    let mut out = turns;
    assert(all.take(0) =~= Seq::empty());
    for turn in it: more.into_iter()
        invariant
            it.seq() == more@,
            all == kept(more@),
            kept(out@) == with_missing(first, all.take(it.index())),
    {
        let ghost before = kept(out@);
        let ghost at = it.index();
        assert(all.take(at + 1).drop_last() =~= all.take(at));
        assert(all.take(at + 1).last() == turn@);
        if !holds_turn(&out, &turn.turn_id) {
            out.push(turn);
            assert(kept(out@) =~= before.push(turn@));
        }
    }
    assert(all.take(all.len() as int) =~= all);
    out
}

/// A turn put before the first that was sent after it, from the end.
pub open spec fn placed_turn(list: Seq<KeptView>, turn: KeptView) -> Seq<KeptView>
    decreases list.len(),
{
    if list.len() > 0 && turn.sequence < list.last().sequence {
        placed_turn(list.drop_last(), turn).push(list.last())
    } else {
        list.push(turn)
    }
}

/// Turns in the order they were sent; those of one moment stay in theirs.
pub open spec fn by_sequence(list: Seq<KeptView>) -> Seq<KeptView>
    decreases list.len(),
{
    if list.len() == 0 {
        list
    } else {
        placed_turn(by_sequence(list.drop_last()), list.last())
    }
}

proof fn lemma_placed_at(list: Seq<KeptView>, turn: KeptView, at: int)
    requires
        0 <= at <= list.len(),
        forall|k: int| at <= k < list.len() ==> turn.sequence < (#[trigger] list[k]).sequence,
        at == 0 || list[at - 1].sequence <= turn.sequence,
    ensures
        placed_turn(list, turn) == list.insert(at, turn),
    decreases list.len(),
{
    if at < list.len() {
        lemma_placed_at(list.drop_last(), turn, at);
        assert(list.drop_last().insert(at, turn).push(list.last()) =~= list.insert(at, turn));
    } else {
        assert(list.push(turn) =~= list.insert(at, turn));
    }
}

fn sort_turns(turns: Vec<Kept>) -> (r: Vec<Kept>)
    ensures
        kept(r@) == by_sequence(kept(turns@)),
{
    let ghost all = kept(turns@);
    let mut out: Vec<Kept> = Vec::new();
    assert(kept(out@) =~= by_sequence(all.take(0)));
    for turn in it: turns.into_iter()
        invariant
            it.seq() == turns@,
            all == kept(turns@),
            kept(out@) == by_sequence(all.take(it.index())),
    {
        let ghost before = kept(out@);
        let ghost at_turn = it.index();
        assert(all.take(at_turn + 1).drop_last() =~= all.take(at_turn));
        assert(all.take(at_turn + 1).last() == turn@);
        let mut at: usize = out.len();
        while at > 0 && turn.sequence < out[at - 1].sequence
            invariant
                at <= out@.len(),
                before == kept(out@),
                forall|k: int|
                    at <= k < before.len() ==> turn.sequence < (#[trigger] before[k]).sequence,
            decreases at,
        {
            at -= 1;
        }
        proof {
            if at > 0 {
                assert(before[at - 1] == out@[at - 1]@);
            }
            lemma_placed_at(before, turn@, at as int);
        }
        let ghost rows = out@;
        out.insert(at, turn);
        assert(kept(out@) =~= before.insert(at as int, turn@));
    }
    assert(all.take(all.len() as int) =~= all);
    out
}

/// A kept draft or turn as an entry.
pub open spec fn as_entry(k: KeptView) -> EntryView {
    EntryView {
        id: Some(k.id),
        node: k.node,
        input: Some(k.input),
        turn_id: k.turn_id,
        sequence: k.sequence,
        follow_up: k.follow_up,
    }
}

pub open spec fn as_entries(list: Seq<KeptView>) -> Seq<EntryView> {
    Seq::new(list.len(), |i: int| as_entry(list[i]))
}

fn to_entries(list: Vec<Kept>) -> (r: Vec<Entry>)
    ensures
        entries(r@) == as_entries(kept(list@)),
{
    let ghost all = kept(list@);
    let mut out: Vec<Entry> = Vec::new();
    for k in it: list.into_iter()
        invariant
            it.seq() == list@,
            all == kept(list@),
            out@.len() == it.index(),
            forall|i: int| 0 <= i < it.index() ==> (#[trigger] out@[i])@ == as_entry(all[i]),
    {
        out.push(
            Entry {
                id: Some(k.id),
                node: k.node,
                input: Some(k.input),
                turn_id: k.turn_id,
                sequence: k.sequence,
                follow_up: k.follow_up,
            },
        );
    }
    assert(entries(out@) =~= as_entries(all));
    out
}

/// Those that were sent as a turn with an id.
pub open spec fn identified(list: Seq<KeptView>) -> Seq<KeptView> {
    list.filter(|k: KeptView| k.turn_id is Some)
}

fn keep_identified(list: Vec<Kept>) -> (r: Vec<Kept>)
    ensures
        kept(r@) == identified(kept(list@)),
{
    let ghost all = kept(list@);
    let ghost whole = list@;
    let ghost has_id = |k: KeptView| k.turn_id is Some;
    let mut out: Vec<Kept> = Vec::new();
    assert(kept(out@) =~= all.take(0).filter(has_id)) by {
        reveal(Seq::filter);
    }
    for k in it: list.into_iter()
        invariant
            it.seq() == whole,
            all == kept(whole),
            has_id == (|k: KeptView| k.turn_id is Some),
            kept(out@) == all.take(it.index() as int).filter(has_id),
    {
        let ghost at = it.index() as int;
        let ghost before = out@;
        proof {
            reveal(Seq::filter);
            assert(all[at] == k@);
            assert(all.take(at + 1).drop_last() =~= all.take(at));
            assert(all.take(at + 1).last() == k@);
        }
        if k.turn_id.is_some() {
            out.push(k);
            assert(kept(out@) =~= kept(before).push(out@[out@.len() - 1]@));
        }
    }
    assert(all.take(all.len() as int) =~= all);
    out
}

impl ImageDrafts {
    /// The turns that are written: those on their way that have an id to be found again by, those
    /// nobody can tell the outcome of, and each once.
    pub open spec fn written_turns(&self) -> Seq<KeptView> {
        by_sequence(
            with_missing(
                identified(written(kept(self.in_flight@))),
                written(kept(self.unsettled@)),
            ),
        )
    }
}

impl App {
    /// What is written to the recovery file. The home's draft is written where it holds images, and
    /// the first message it became with it.
    pub open spec fn snapshots(&self, images: ImageDrafts, r: Recovery) -> bool {
        let home = is_persistable(attached(images.home_images@));
        &&& r.version == RECOVERY_VERSION
        &&& said(r.draft_id) == Some(images.draft_id@)
        &&& said(r.home_draft_id) == Some(images.home_draft_id@)
        &&& entries(r.drafts@) == as_entries(written(kept(images.drafts@)))
        &&& entries(r.pending@) == as_entries(images.written_turns())
        &&& entries(r.queued@) == as_entries(written(kept(images.queued@)))
        &&& r.home is Some
        &&& attached(r.home->0@) == if home {
            attached(images.home_images@)
        } else {
            Seq::empty()
        }
        &&& r.home_text@ == if home {
            self.home_draft.text@
        } else {
            Seq::empty()
        }
        &&& r.home_node@ == images.home_node@
        &&& match self.first_message {
            Some(message) => if home {
                r.first_message is Some && same_message(r.first_message->0, message)
            } else {
                r.first_message is None
            },
            None => r.first_message is None,
        }
    }

    pub fn image_draft_snapshot(&self, images: &ImageDrafts) -> (r: Recovery)
        ensures
            self.snapshots(*images, r),
    {
        let home = persistable(&images.home_images);
        let turns = sort_turns(
            add_missing(
                keep_identified(write_list(&images.in_flight)),
                write_list(&images.unsettled),
            ),
        );
        let (held, text, first) = if home {
            (
                copy_attachments(&images.home_images),
                self.home_draft.text.clone(),
                match &self.first_message {
                    Some(message) => Some(copy_message(message)),
                    None => None,
                },
            )
        } else {
            let none: Vec<Attachment> = Vec::new();
            let blank = String::new();
            assert(attached(none@) =~= Seq::empty());
            assert(blank@ =~= Seq::empty());
            (none, blank, None)
        };
        Recovery {
            version: RECOVERY_VERSION,
            draft_id: Some(images.draft_id.clone()),
            home_draft_id: Some(images.home_draft_id.clone()),
            home: Some(held),
            home_text: text,
            home_node: images.home_node.clone(),
            first_message: first,
            drafts: to_entries(write_list(&images.drafts)),
            pending: to_entries(turns),
            queued: to_entries(write_list(&images.queued)),
        }
    }
}

pub open spec fn same_message(a: PendingFirstMessage, b: PendingFirstMessage) -> bool {
    &&& a.input@ == b.input@
    &&& a.turn_id@ == b.turn_id@
    &&& a.start.same_as(b.start)
    &&& a.start_outcome_unknown == b.start_outcome_unknown
}

fn copy_message(message: &PendingFirstMessage) -> (r: PendingFirstMessage)
    ensures
        same_message(r, *message),
{
    PendingFirstMessage {
        input: message.input.clone(),
        turn_id: message.turn_id.clone(),
        start: message.start.copy(),
        start_outcome_unknown: message.start_outcome_unknown,
    }
}

// ----- reading back -----------------------------------------------------------------

/// Text of at most `limit` bytes.
pub open spec fn fits(text: Option<Seq<char>>, limit: int) -> bool {
    text is Some && encode_utf8(text->0).len() <= limit
}

fn short_enough(text: &Option<String>, limit: usize) -> (r: bool)
    ensures
        r == fits(said(*text), limit as int),
{
    match text {
        Some(text) => text.as_str().as_bytes().len() <= limit,
        None => false,
    }
}

/// An entry that can be restored: it names a session, and its input could be read and holds no
/// more than a draft may.
pub open spec fn is_restorable(entry: EntryView) -> bool {
    &&& fits(entry.id, SESSION_ID_BYTES as int)
    &&& entry.input is Some
    &&& entry.input->0.attachments.len() <= ATTACHMENT_LIMIT
}

/// What an entry is restored as.
pub open spec fn restored(entry: EntryView) -> KeptView {
    KeptView {
        id: entry.id->0,
        node: entry.node,
        input: entry.input->0.cut_short(),
        turn_id: entry.turn_id,
        sequence: entry.sequence,
        follow_up: entry.follow_up,
    }
}

pub open spec fn has_draft(list: Seq<KeptView>, id: Seq<char>) -> bool {
    exists|i: int| 0 <= i < list.len() && (#[trigger] list[i]).id == id
}

/// How a list of the recovery file is read.
#[derive(Debug, Clone, Copy, PartialEq, Eq, Structural)]
pub enum Reading {
    /// One draft per session, and what the client holds already wins.
    Drafts,
    /// Turns, each under the id it was sent with.
    Turns,
    Queued,
}

/// Whether an entry goes onto a list.
pub open spec fn is_added(list: Seq<KeptView>, entry: EntryView, reading: Reading) -> bool {
    is_restorable(entry) && match reading {
        Reading::Drafts => !has_draft(list, entry.id->0),
        Reading::Turns => entry.turn_id is Some,
        Reading::Queued => true,
    }
}

/// A list with the entries that can be restored.
pub open spec fn with_restored(
    list: Seq<KeptView>,
    more: Seq<EntryView>,
    reading: Reading,
) -> Seq<KeptView>
    decreases more.len(),
{
    if more.len() == 0 {
        list
    } else {
        let rest = with_restored(list, more.drop_last(), reading);
        if is_added(rest, more.last(), reading) {
            rest.push(restored(more.last()))
        } else {
            rest
        }
    }
}

/// The entries of a list that are looked at.
pub open spec fn considered(list: Seq<EntryView>) -> Seq<EntryView> {
    if list.len() <= ENTRY_LIMIT {
        list
    } else {
        list.take(ENTRY_LIMIT as int)
    }
}

fn holds_draft(list: &Vec<Kept>, id: &str) -> (r: bool)
    ensures
        r == has_draft(kept(list@), id@),
{
    let ghost all = kept(list@);
    let mut i: usize = 0;
    while i < list.len()
        invariant
            i <= list@.len(),
            all == kept(list@),
            forall|k: int| 0 <= k < i ==> (#[trigger] all[k]).id != id@,
        decreases list@.len() - i,
    {
        assert(all[i as int] == list@[i as int]@);
        if same(list[i].id.as_str(), id) {
            return true;
        }
        i += 1;
    }
    false
}

fn restore_one(list: &Vec<Kept>, entry: Entry, reading: Reading) -> (r: Option<Kept>)
    ensures
        match r {
            Some(k) => is_added(kept(list@), entry@, reading) && k@ == restored(entry@),
            None => !is_added(kept(list@), entry@, reading),
        },
{
    if !short_enough(&entry.id, SESSION_ID_BYTES) {
        return None;
    }
    let (id, input) = match (entry.id, entry.input) {
        (Some(id), Some(input)) => (id, input),
        _ => {
            return None;
        },
    };
    assert(attached(input.attachments@).len() == input.attachments@.len());
    if input.attachments.len() > ATTACHMENT_LIMIT {
        return None;
    }
    let wanted = match reading {
        Reading::Drafts => !holds_draft(list, id.as_str()),
        Reading::Turns => entry.turn_id.is_some(),
        Reading::Queued => true,
    };
    if !wanted {
        return None;
    }
    Some(
        Kept {
            id,
            node: entry.node,
            input: TurnInput {
                prompt: input.prompt,
                attachments: mark_interrupted(input.attachments),
                reasoning_effort: input.reasoning_effort,
            },
            turn_id: entry.turn_id,
            sequence: entry.sequence,
            follow_up: entry.follow_up,
        },
    )
}

fn restore_list(list: Vec<Kept>, more: Vec<Entry>, reading: Reading) -> (r: Vec<Kept>)
    ensures
        kept(r@) == with_restored(kept(list@), considered(entries(more@)), reading),
{
    let ghost first = kept(list@);
    let ghost all = entries(more@);
    let ghost total = considered(all);
    let mut out = list;
    let mut seen: usize = 0;
    assert(all.take(0) =~= Seq::empty());
    for entry in it: more.into_iter()
        invariant
            it.seq() == more@,
            all == entries(more@),
            total == considered(all),
            seen == if it.index() < ENTRY_LIMIT {
                it.index()
            } else {
                ENTRY_LIMIT as int
            },
            kept(out@) == with_restored(first, total.take(seen as int), reading),
    {
        let ghost at = it.index();
        if seen < ENTRY_LIMIT {
            let ghost before = kept(out@);
            assert(total.take(at + 1).drop_last() =~= total.take(at));
            assert(total.take(at + 1).last() == entry@);
            if let Some(k) = restore_one(&out, entry, reading) {
                out.push(k);
                assert(kept(out@) =~= before.push(k@));
            }
            seen += 1;
        }
    }
    assert(total.take(seen as int) =~= total);
    out
}

/// The first attachments a draft may have.
pub open spec fn bounded(images: Seq<AttachmentView>) -> Seq<AttachmentView> {
    if images.len() <= ATTACHMENT_LIMIT {
        images
    } else {
        images.take(ATTACHMENT_LIMIT as int)
    }
}

impl ImageDrafts {
    /// The drafts with those of a recovery file.
    pub open spec fn recovers(&self, after: ImageDrafts, value: Recovery) -> bool {
        let known = fits(said(value.draft_id), DRAFT_ID_BYTES as int);
        &&& after.draft_id@ == if known {
            value.draft_id->0@
        } else {
            self.draft_id@
        }
        &&& after.home_draft_id@ == if fits(said(value.home_draft_id), DRAFT_ID_BYTES as int) {
            value.home_draft_id->0@
        } else if known {
            value.draft_id->0@
        } else {
            self.home_draft_id@
        }
        &&& attached(after.home_images@) == match value.home {
            Some(images) => interrupted(bounded(attached(images@))),
            None => attached(self.home_images@),
        }
        &&& after.home_node@ == if value.home is Some {
            value.home_node@
        } else {
            self.home_node@
        }
        &&& kept(after.drafts@) == with_restored(
            kept(self.drafts@),
            considered(entries(value.drafts@)),
            Reading::Drafts,
        )
        &&& kept(after.unsettled@) == with_restored(
            kept(self.unsettled@),
            considered(entries(value.pending@)),
            Reading::Turns,
        )
        &&& kept(after.queued@) == with_restored(
            kept(self.queued@),
            considered(entries(value.queued@)),
            Reading::Queued,
        )
        &&& after.in_flight == self.in_flight
        &&& after.composer_images == self.composer_images
        &&& after.composer_effort == self.composer_effort
    }

    fn recover_ids(&mut self, draft_id: Option<String>, home_draft_id: Option<String>)
        ensures
            ({
                let known = fits(said(draft_id), DRAFT_ID_BYTES as int);
                &&& final(self).draft_id@ == if known {
                    draft_id->0@
                } else {
                    old(self).draft_id@
                }
                &&& final(self).home_draft_id@ == if fits(
                    said(home_draft_id),
                    DRAFT_ID_BYTES as int,
                ) {
                    home_draft_id->0@
                } else if known {
                    draft_id->0@
                } else {
                    old(self).home_draft_id@
                }
                &&& *final(self) == (ImageDrafts {
                    draft_id: final(self).draft_id,
                    home_draft_id: final(self).home_draft_id,
                    ..*old(self)
                })
            }),
    {
        if short_enough(&draft_id, DRAFT_ID_BYTES) {
            if let Some(id) = draft_id {
                self.home_draft_id = id.clone();
                self.draft_id = id;
            }
        }
        if short_enough(&home_draft_id, DRAFT_ID_BYTES) {
            if let Some(id) = home_draft_id {
                self.home_draft_id = id;
            }
        }
    }

    fn recover_lists(&mut self, drafts: Vec<Entry>, pending: Vec<Entry>, queued: Vec<Entry>)
        ensures
            kept(final(self).drafts@) == with_restored(
                kept(old(self).drafts@),
                considered(entries(drafts@)),
                Reading::Drafts,
            ),
            kept(final(self).unsettled@) == with_restored(
                kept(old(self).unsettled@),
                considered(entries(pending@)),
                Reading::Turns,
            ),
            kept(final(self).queued@) == with_restored(
                kept(old(self).queued@),
                considered(entries(queued@)),
                Reading::Queued,
            ),
            *final(self) == (ImageDrafts {
                drafts: final(self).drafts,
                unsettled: final(self).unsettled,
                queued: final(self).queued,
                ..*old(self)
            }),
    {
        let mut held: Vec<Kept> = Vec::new();
        std::mem::swap(&mut self.drafts, &mut held);
        self.drafts = restore_list(held, drafts, Reading::Drafts);
        let mut held: Vec<Kept> = Vec::new();
        std::mem::swap(&mut self.unsettled, &mut held);
        self.unsettled = restore_list(held, pending, Reading::Turns);
        let mut held: Vec<Kept> = Vec::new();
        std::mem::swap(&mut self.queued, &mut held);
        self.queued = restore_list(held, queued, Reading::Queued);
    }
}

/// The first attachments of a list, each marked where it was on its way.
fn recover_home(images: Vec<Attachment>) -> (r: Vec<Attachment>)
    ensures
        attached(r@) == interrupted(bounded(attached(images@))),
{
    let ghost all = attached(images@);
    let mut images = images;
    if images.len() > ATTACHMENT_LIMIT {
        images.truncate(ATTACHMENT_LIMIT);
    }
    assert(attached(images@) =~= bounded(all));
    mark_interrupted(images)
}

impl App {
    /// A first message that was kept: a crash can come before or after its start was
    /// acknowledged, so the session it asked for is reconciled before another is made.
    pub open spec fn first_recovered(&self, after: App, first: Option<PendingFirstMessage>, holds: bool) -> bool {
        if holds && first is Some && first->0.start.plane == Plane::Interactive
            && first->0.start.refusal() is None {
            let message = first->0;
            &&& after.first_message == Some(
                PendingFirstMessage { start_outcome_unknown: true, ..message },
            )
            &&& after.config.location_machine@ == message.start.machine@
            &&& said(after.config.location_workspace) == Some(message.start.workspace@)
            &&& said(after.config.model) == said(message.start.model)
            &&& after.config == (Config {
                location_machine: after.config.location_machine,
                location_workspace: after.config.location_workspace,
                model: after.config.model,
                ..self.config
            })
            &&& after == (App {
                first_message: after.first_message,
                config: after.config,
                ..*self
            })
        } else {
            after == *self
        }
    }

    fn recover_first(&mut self, first: Option<PendingFirstMessage>, holds: bool)
        requires
            old(self).wf(),
        ensures
            final(self).wf(),
            old(self).first_recovered(*final(self), first, holds),
    {
        if !holds {
            return;
        }
        if let Some(message) = first {
            if message.start.plane == Plane::Interactive && message.start.params().is_ok() {
                self.config.location_machine = message.start.machine.clone();
                self.config.location_workspace = Some(message.start.workspace.clone());
                self.config.model = copy_text(&message.start.model);
                self.first_message = Some(
                    PendingFirstMessage { start_outcome_unknown: true, ..message },
                );
            }
        }
    }

    /// The home's draft takes back its text, where nothing was typed since.
    pub open spec fn home_recovered(&self, after: App, read: bool, text: Seq<char>) -> bool {
        if read && self.home_draft.blank() {
            &&& after.home_draft.text@ == text
            &&& after.home_draft.completing == self.home_draft.completing
            &&& after == (App { home_draft: after.home_draft, ..*self })
        } else {
            after == *self
        }
    }

    /// The recovery file was read back. One of another version is left alone.
    pub open spec fn images_restored(
        &self,
        after: App,
        before: ImageDrafts,
        now: ImageDrafts,
        value: Recovery,
    ) -> bool {
        if value.version != RECOVERY_VERSION {
            after == *self && now == before
        } else {
            exists|mid: App, told: App, read: ImageDrafts|
                {
                    &&& #[trigger] before.recovers(read, value)
                    &&& #[trigger] self.home_recovered(mid, value.home is Some, value.home_text@)
                    &&& mid.first_recovered(told, value.first_message, read.home_images@.len() > 0)
                    &&& #[trigger] told.composer_filled(after, read, now)
                }
        }
    }

    /// The composer of a session that was opened before its draft was read back holds that draft:
    /// its text, its images and its effort. One that already holds something is left alone.
    pub open spec fn composer_filled(&self, after: App, before: ImageDrafts, now: ImageDrafts) -> bool {
        match self.late_draft(kept(before.drafts@), before.composer_images@.len() > 0) {
            Some(at) => {
                let input = kept(before.drafts@)[at].input;
                let composer = self.sessions.composer->0;
                &&& after.sessions.composer is Some
                &&& after.sessions.composer->0.editor.text@ == input.prompt
                &&& after.sessions.composer->0.editor.completing == composer.editor.completing
                &&& after.sessions.composer->0 == (Composer {
                    editor: after.sessions.composer->0.editor,
                    ..composer
                })
                &&& after == (App {
                    sessions: SessionsTab {
                        composer: after.sessions.composer,
                        ..self.sessions
                    },
                    ..*self
                })
                &&& attached(now.composer_images@) == input.attachments
                &&& now.composer_effort == input.reasoning_effort
                &&& now == (ImageDrafts {
                    composer_images: now.composer_images,
                    composer_effort: now.composer_effort,
                    ..before
                })
            },
            None => after == *self && now == before,
        }
    }

    fn fill_composer(&mut self, images: &mut ImageDrafts)
        requires
            old(self).wf(),
        ensures
            final(self).wf(),
            old(self).composer_filled(*final(self), *old(images), *final(images)),
    {
        let at: usize = match self.composer_draft(images) {
            Some(at) => at,
            None => {
                return;
            },
        };
        let input = images.drafts[at].input.copy();
        assert(input@ == kept(images.drafts@)[at as int].input);
        let mut held: Option<Composer> = None;
        std::mem::swap(&mut self.sessions.composer, &mut held);
        if let Some(composer) = held {
            let mut composer = composer;
            composer.editor.add(input.prompt.as_str());
            assert(composer.editor.text@ =~= input.prompt@);
            self.sessions.composer = Some(composer);
        }
        images.composer_images = input.attachments;
        images.composer_effort = input.reasoning_effort;
    }

    pub fn restore_image_drafts(&mut self, images: &mut ImageDrafts, value: Recovery)
        requires
            old(self).wf(),
        ensures
            final(self).wf(),
            old(self).images_restored(*final(self), *old(images), *final(images), value),
    {
        if value.version != RECOVERY_VERSION {
            return;
        }
        let ghost start = *self;
        let ghost file = value;
        images.recover_ids(value.draft_id, value.home_draft_id);
        if let Some(home) = value.home {
            images.home_images = recover_home(home);
            images.home_node = value.home_node;
            if self.home_draft.text.as_str().is_empty() {
                self.home_draft.add(value.home_text.as_str());
                assert(self.home_draft.text@ =~= file.home_text@);
            }
        }
        let ghost mid = *self;
        assert(start.home_recovered(mid, file.home is Some, file.home_text@));
        let holds = images.home_images.len() > 0;
        self.recover_first(value.first_message, holds);
        let ghost told = *self;
        images.recover_lists(value.drafts, value.pending, value.queued);
        let ghost read = *images;
        assert(old(images).recovers(read, file));
        self.fill_composer(images);
        assert(told.composer_filled(*self, read, *images));
    }

    /// What the composer of a session that was opened before its draft was read back takes: the
    /// draft, where the composer is still empty.
    pub open spec fn late_draft(&self, drafts: Seq<KeptView>, composer_holds_images: bool) -> Option<
        int,
    > {
        if self.sessions.open is None || self.sessions.open->0.plane != Plane::Interactive
            || self.sessions.composer is None || !self.sessions.composer->0.editor.blank()
            || composer_holds_images {
            None
        } else {
            first_draft(drafts, self.sessions.open->0.id@, 0)
        }
    }

    /// The place among the drafts of the one the open composer takes.
    pub fn composer_draft(&self, images: &ImageDrafts) -> (r: Option<usize>)
        ensures
            match r {
                Some(at) => at < images.drafts@.len() && self.late_draft(
                    kept(images.drafts@),
                    images.composer_images@.len() > 0,
                ) == Some(at as int),
                None => self.late_draft(
                    kept(images.drafts@),
                    images.composer_images@.len() > 0,
                ) is None,
            },
    {
        let id = match &self.sessions.open {
            Some(key) => if key.plane == Plane::Interactive {
                key.id.as_str()
            } else {
                return None;
            },
            None => {
                return None;
            },
        };
        let empty = match &self.sessions.composer {
            Some(composer) => composer.editor.text.as_str().is_empty(),
            None => {
                return None;
            },
        };
        if !empty || images.composer_images.len() > 0 {
            return None;
        }
        find_draft(&images.drafts, id)
    }
}

fn find_draft(drafts: &Vec<Kept>, id: &str) -> (r: Option<usize>)
    ensures
        match r {
            Some(at) => at < drafts@.len() && first_draft(kept(drafts@), id@, 0) == Some(at as int),
            None => first_draft(kept(drafts@), id@, 0) is None,
        },
{
    let ghost all = kept(drafts@);
    let mut i: usize = 0;
    while i < drafts.len()
        invariant
            i <= drafts@.len(),
            all == kept(drafts@),
            first_draft(all, id@, 0) == first_draft(all, id@, i as int),
        decreases drafts@.len() - i,
    {
        assert(all[i as int] == drafts@[i as int]@);
        if same(drafts[i].id.as_str(), id) {
            return Some(i);
        }
        i += 1;
    }
    None
}

/// The first draft of a session from a place on.
pub open spec fn first_draft(drafts: Seq<KeptView>, id: Seq<char>, from: int) -> Option<int>
    decreases drafts.len() - from,
{
    if from < 0 || from >= drafts.len() {
        None
    } else if drafts[from].id == id {
        Some(from)
    } else {
        first_draft(drafts, id, from + 1)
    }
}

// ----- laws -------------------------------------------------------------------------

/// Drafts of a recovery file come back: each that was written, in its order, with nothing changed
/// but that an upload that was on its way is marked.
pub proof fn lemma_drafts_survive_a_restart(drafts: Seq<KeptView>)
    requires
        forall|i: int|
            0 <= i < drafts.len() ==> encode_utf8((#[trigger] drafts[i]).id).len()
                <= SESSION_ID_BYTES && drafts[i].input.attachments.len() <= ATTACHMENT_LIMIT,
        forall|i: int, j: int|
            0 <= i < j < drafts.len() ==> (#[trigger] drafts[i]).id != (#[trigger] drafts[j]).id,
    ensures
        with_restored(Seq::empty(), as_entries(written(drafts)), Reading::Drafts) == Seq::new(
            written(drafts).len(),
            |i: int| KeptView { input: written(drafts)[i].input.cut_short(), ..written(drafts)[i] },
        ),
    decreases drafts.len(),
{
    let goal = |list: Seq<KeptView>|
        Seq::new(
            list.len(),
            |i: int| KeptView { input: list[i].input.cut_short(), ..list[i] },
        );
    let w = written(drafts);
    if drafts.len() == 0 {
        assert(as_entries(w) =~= Seq::empty());
        assert(goal(w) =~= Seq::empty());
    } else {
        let rest = drafts.drop_last();
        lemma_drafts_survive_a_restart(rest);
        let wr = written(rest);
        if drafts.last().input.is_kept() {
            assert(w == wr.push(drafts.last()));
            assert(as_entries(w).drop_last() =~= as_entries(wr));
            assert(as_entries(w).last() == as_entry(drafts.last()));
            lemma_written_are_members(rest);
            let back = with_restored(Seq::empty(), as_entries(wr), Reading::Drafts);
            assert(back == goal(wr));
            assert(!has_draft(back, drafts.last().id)) by {
                if has_draft(back, drafts.last().id) {
                    let i = choose|i: int|
                        0 <= i < back.len() && (#[trigger] back[i]).id == drafts.last().id;
                    assert(wr.contains(wr[i]));
                    let k = choose|k: int| 0 <= k < rest.len() && rest[k] == wr[i];
                    assert(drafts[k].id == drafts[drafts.len() - 1].id);
                }
            }
            assert(with_restored(Seq::empty(), as_entries(w), Reading::Drafts) =~= goal(w));
        } else {
            assert(w == wr);
        }
    }
}

proof fn lemma_written_are_members(list: Seq<KeptView>)
    ensures
        forall|k: KeptView| #[trigger] written(list).contains(k) ==> list.contains(k)
            && k.input.is_kept(),
    decreases list.len(),
{
    if list.len() > 0 {
        lemma_written_are_members(list.drop_last());
        assert forall|k: KeptView| #[trigger] written(list).contains(k) implies list.contains(k)
            && k.input.is_kept() by {
            let i = choose|i: int| 0 <= i < written(list).len() && written(list)[i] == k;
            let rest = written(list.drop_last());
            if i < rest.len() {
                assert(rest[i] == k);
                assert(rest.contains(k));
                let j = choose|j: int| 0 <= j < list.drop_last().len() && list.drop_last()[j] == k;
                assert(list[j] == k);
            } else {
                assert(list[list.len() - 1] == k);
            }
        }
    }
}

/// A draft that is written can be read back as one that would be written again: marking what was
/// on its way keeps a draft that may be kept.
pub proof fn lemma_a_kept_draft_stays_kept(images: Seq<AttachmentView>)
    requires
        is_persistable(images),
    ensures
        is_persistable(interrupted(images)),
{
    let after = interrupted(images);
    let i = choose|i: int| 0 <= i < images.len() && is_kept_image((#[trigger] images[i]).kind);
    assert(is_kept_image(after[i].kind));
    assert forall|k: int| 0 <= k < after.len() implies outlives(#[trigger] after[k]) by {
        assert(outlives(images[k]));
    }
}

/// Turns are written in the order they were sent.
pub proof fn lemma_turns_are_written_in_order(list: Seq<KeptView>)
    ensures
        by_sequence(list).len() == list.len(),
        forall|i: int, j: int|
            0 <= i <= j < by_sequence(list).len() ==> (#[trigger] by_sequence(list)[i]).sequence
                <= (#[trigger] by_sequence(list)[j]).sequence,
    decreases list.len(),
{
    if list.len() > 0 {
        lemma_turns_are_written_in_order(list.drop_last());
        lemma_placing_keeps_order(by_sequence(list.drop_last()), list.last());
    }
}

proof fn lemma_placing_keeps_order(list: Seq<KeptView>, turn: KeptView)
    requires
        forall|i: int, j: int|
            0 <= i <= j < list.len() ==> (#[trigger] list[i]).sequence <= (#[trigger] list[j]).sequence,
    ensures
        placed_turn(list, turn).len() == list.len() + 1,
        forall|i: int, j: int|
            0 <= i <= j < placed_turn(list, turn).len() ==> (#[trigger] placed_turn(
                list,
                turn,
            )[i]).sequence <= (#[trigger] placed_turn(list, turn)[j]).sequence,
        forall|i: int|
            0 <= i < placed_turn(list, turn).len() ==> (#[trigger] placed_turn(
                list,
                turn,
            )[i]).sequence <= turn.sequence || (list.len() > 0 && placed_turn(list, turn)[i].sequence
                <= list.last().sequence),
    decreases list.len(),
{
    if list.len() > 0 && turn.sequence < list.last().sequence {
        lemma_placing_keeps_order(list.drop_last(), turn);
        let rest = placed_turn(list.drop_last(), turn);
        assert forall|i: int| 0 <= i < rest.len() implies (#[trigger] rest[i]).sequence
            <= list.last().sequence by {
            if list.drop_last().len() > 0 {
                assert(list.drop_last().last() == list[list.len() - 2]);
                assert(list[list.len() - 2].sequence <= list[list.len() - 1].sequence);
            }
        }
    }
}

proof fn lemma_written_keeps(list: Seq<KeptView>, i: int)
    requires
        0 <= i < list.len(),
        list[i].input.is_kept(),
    ensures
        written(list).contains(list[i]),
    decreases list.len(),
{
    let w = written(list);
    if i < list.len() - 1 {
        let rest = list.drop_last();
        lemma_written_keeps(rest, i);
        let inner = written(rest);
        let k = choose|k: int| 0 <= k < inner.len() && inner[k] == rest[i];
        assert(w[k] == list[i]);
    } else {
        assert(w[w.len() - 1] == list[i]);
    }
}

#[verifier::rlimit(60)]
proof fn lemma_with_missing(turns: Seq<KeptView>, more: Seq<KeptView>)
    ensures
        forall|k: KeptView| #[trigger]
            with_missing(turns, more).contains(k) ==> turns.contains(k) || more.contains(k),
        forall|i: int|
            0 <= i < more.len() ==> has_turn(
                with_missing(turns, more),
                (#[trigger] more[i]).turn_id,
            ),
        forall|i: int|
            0 <= i < turns.len() ==> with_missing(turns, more).contains(#[trigger] turns[i]),
    decreases more.len(),
{
    let out = with_missing(turns, more);
    if more.len() == 0 {
        assert forall|i: int| 0 <= i < turns.len() implies out.contains(#[trigger] turns[i]) by {
            assert(out[i] == turns[i]);
        }
    } else {
        let less = more.drop_last();
        let rest = with_missing(turns, less);
        lemma_with_missing(turns, less);
        assert(more[more.len() - 1] == more.last());
        assert forall|i: int| 0 <= i < rest.len() implies #[trigger] out[i] == rest[i] by {}
        assert forall|k: KeptView| #[trigger] out.contains(k) implies turns.contains(k)
            || more.contains(k) by {
            let i = choose|i: int| 0 <= i < out.len() && out[i] == k;
            if i < rest.len() {
                assert(rest.contains(k));
                if less.contains(k) {
                    let j = choose|j: int| 0 <= j < less.len() && less[j] == k;
                    assert(more[j] == k);
                }
            }
        }
        assert forall|i: int| 0 <= i < more.len() implies has_turn(
            out,
            (#[trigger] more[i]).turn_id,
        ) by {
            if i < less.len() {
                assert(less[i] == more[i]);
                let j = choose|j: int|
                    0 <= j < rest.len() && (#[trigger] rest[j]).turn_id == more[i].turn_id;
                assert(out[j].turn_id == more[i].turn_id);
            } else if has_turn(rest, more.last().turn_id) {
                let j = choose|j: int|
                    0 <= j < rest.len() && (#[trigger] rest[j]).turn_id == more[i].turn_id;
                assert(out[j].turn_id == more[i].turn_id);
            } else {
                assert(out[rest.len() as int].turn_id == more[i].turn_id);
            }
        }
        assert forall|i: int| 0 <= i < turns.len() implies out.contains(#[trigger] turns[i]) by {
            assert(rest.contains(turns[i]));
            let j = choose|j: int| 0 <= j < rest.len() && rest[j] == turns[i];
            assert(out[j] == turns[i]);
        }
    }
}

#[verifier::rlimit(60)]
proof fn lemma_placed_members(list: Seq<KeptView>, turn: KeptView)
    ensures
        forall|k: KeptView| #[trigger]
            placed_turn(list, turn).contains(k) <==> k == turn || list.contains(k),
    decreases list.len(),
{
    let out = placed_turn(list, turn);
    if list.len() > 0 && turn.sequence < list.last().sequence {
        let rest = list.drop_last();
        let inner = placed_turn(rest, turn);
        lemma_placed_members(rest, turn);
        assert(list[list.len() - 1] == list.last());
        assert forall|k: KeptView| #[trigger] out.contains(k) <==> k == turn || list.contains(k) by {
            if out.contains(k) {
                let i = choose|i: int| 0 <= i < out.len() && out[i] == k;
                if i < inner.len() {
                    assert(inner[i] == k);
                    assert(inner.contains(k));
                    if rest.contains(k) {
                        let j = choose|j: int| 0 <= j < rest.len() && rest[j] == k;
                        assert(list[j] == k);
                    }
                }
            }
            if k == turn || list.contains(k) {
                if k == list.last() {
                    assert(out[inner.len() as int] == k);
                } else {
                    if list.contains(k) {
                        let j = choose|j: int| 0 <= j < list.len() && list[j] == k;
                        assert(rest[j] == k);
                        assert(rest.contains(k));
                    }
                    assert(inner.contains(k));
                    let i = choose|i: int| 0 <= i < inner.len() && inner[i] == k;
                    assert(out[i] == k);
                }
            }
        }
    } else {
        assert forall|k: KeptView| #[trigger] out.contains(k) <==> k == turn || list.contains(k) by {
            if out.contains(k) {
                let i = choose|i: int| 0 <= i < out.len() && out[i] == k;
                if i < list.len() {
                    assert(list[i] == k);
                }
            }
            if list.contains(k) {
                let i = choose|i: int| 0 <= i < list.len() && list[i] == k;
                assert(out[i] == k);
            }
            assert(out[list.len() as int] == turn);
        }
    }
}

#[verifier::rlimit(60)]
proof fn lemma_ordered_members(list: Seq<KeptView>)
    ensures
        forall|k: KeptView| #[trigger] by_sequence(list).contains(k) <==> list.contains(k),
    decreases list.len(),
{
    if list.len() > 0 {
        let rest = list.drop_last();
        lemma_ordered_members(rest);
        lemma_placed_members(by_sequence(rest), list.last());
        assert(list[list.len() - 1] == list.last());
        assert forall|k: KeptView| #[trigger] by_sequence(list).contains(k) <==> list.contains(
            k,
        ) by {
            if list.contains(k) && k != list.last() {
                let j = choose|j: int| 0 <= j < list.len() && list[j] == k;
                assert(rest[j] == k);
                assert(rest.contains(k));
                assert(by_sequence(rest).contains(k));
            }
            if by_sequence(list).contains(k) && k != list.last() {
                assert(by_sequence(rest).contains(k));
                let j = choose|j: int| 0 <= j < rest.len() && rest[j] == k;
                assert(list[j] == k);
            }
        }
    }
}

proof fn lemma_turn_restored(list: Seq<KeptView>, more: Seq<EntryView>, i: int)
    requires
        0 <= i < more.len(),
        is_restorable(more[i]),
        more[i].turn_id is Some,
    ensures
        with_restored(list, more, Reading::Turns).contains(restored(more[i])),
    decreases more.len(),
{
    let out = with_restored(list, more, Reading::Turns);
    if i < more.len() - 1 {
        let less = more.drop_last();
        lemma_turn_restored(list, less, i);
        let rest = with_restored(list, less, Reading::Turns);
        let j = choose|j: int| 0 <= j < rest.len() && rest[j] == restored(less[i]);
        assert(out[j] == restored(more[i]));
    } else {
        assert(out[out.len() - 1] == restored(more[i]));
    }
}

/// A turn whose outcome is not known outlives this client: it is written under its id and, where it
/// is read again, waits to be reconciled under that id with the text it had.
#[verifier::rlimit(60)]
pub proof fn lemma_an_unsettled_turn_survives_a_restart(
    app: App,
    images: ImageDrafts,
    file: Recovery,
    fresh: ImageDrafts,
    after: ImageDrafts,
    i: int,
)
    requires
        app.snapshots(images, file),
        fresh.recovers(after, file),
        0 <= i < images.unsettled@.len(),
        images.unsettled@[i]@.input.is_kept(),
        images.unsettled@[i]@.turn_id is Some,
        // Nothing is past the bounds of the file.
        images.written_turns().len() <= ENTRY_LIMIT,
        forall|k: int|
            0 <= k < images.written_turns().len() ==> encode_utf8(
                (#[trigger] images.written_turns()[k]).id,
            ).len() <= SESSION_ID_BYTES && images.written_turns()[k].input.attachments.len()
                <= ATTACHMENT_LIMIT,
        // A turn goes out under one id.
        forall|k: int|
            0 <= k < images.in_flight@.len() ==> (#[trigger] images.in_flight@[k])@.turn_id
                != images.unsettled@[i]@.turn_id,
        forall|k: int|
            0 <= k < images.unsettled@.len() && k != i ==> (
            #[trigger] images.unsettled@[k])@.turn_id != images.unsettled@[i]@.turn_id,
    ensures
        ({
            let turn = images.unsettled@[i]@;
            exists|j: int|
                0 <= j < after.unsettled@.len() && (#[trigger] after.unsettled@[j])@.turn_id
                    == turn.turn_id && after.unsettled@[j]@.id == turn.id
                    && after.unsettled@[j]@.node == turn.node && after.unsettled@[j]@.input
                    == turn.input.cut_short() && after.unsettled@[j]@.sequence == turn.sequence
        }),
{
    let turn = images.unsettled@[i]@;
    let gone = written(kept(images.in_flight@));
    let open = written(kept(images.unsettled@));
    let first = identified(gone);
    let all = with_missing(first, open);
    lemma_written_keeps(kept(images.unsettled@), i);
    let at = choose|at: int| 0 <= at < open.len() && open[at] == turn;
    lemma_with_missing(first, open);
    let k = choose|k: int| 0 <= k < all.len() && (#[trigger] all[k]).turn_id == open[at].turn_id;
    let found = all[k];
    assert(all.contains(found));
    assert(found == turn) by {
        if first.contains(found) {
            gone.lemma_filter_contains_rev(|k: KeptView| k.turn_id is Some, found);
            lemma_written_are_members(kept(images.in_flight@));
            let j = choose|j: int|
                0 <= j < kept(images.in_flight@).len() && kept(images.in_flight@)[j] == found;
            assert(images.in_flight@[j]@.turn_id == turn.turn_id);
        } else {
            lemma_written_are_members(kept(images.unsettled@));
            assert(open.contains(found));
            let j = choose|j: int|
                0 <= j < kept(images.unsettled@).len() && kept(images.unsettled@)[j] == found;
            assert(images.unsettled@[j]@ == found);
        }
    }
    lemma_ordered_members(all);
    let turns = images.written_turns();
    assert(turns.contains(turn));
    let p = choose|p: int| 0 <= p < turns.len() && turns[p] == turn;
    let more = entries(file.pending@);
    assert(more == as_entries(turns));
    assert(more[p] == as_entry(turn));
    assert(considered(more) == more);
    lemma_turn_restored(kept(fresh.unsettled@), more, p);
    let out = kept(after.unsettled@);
    let j = choose|j: int| 0 <= j < out.len() && out[j] == restored(more[p]);
    assert(after.unsettled@[j]@ == restored(more[p]));
}

/// A first message that was kept comes back as one whose start may have taken effect: the same
/// prompt, for the same session.
#[verifier::rlimit(60)]
pub proof fn lemma_a_first_message_survives_a_restart(
    app: App,
    images: ImageDrafts,
    file: Recovery,
    other: App,
    after: App,
)
    requires
        app.snapshots(images, file),
        is_persistable(attached(images.home_images@)),
        app.first_message is Some,
        app.first_message->0.start.plane == Plane::Interactive,
        app.first_message->0.start.refusal() is None,
        other.first_recovered(after, file.first_message, true),
    ensures
        after.first_message is Some,
        after.first_message->0.input@ == app.first_message->0.input@,
        after.first_message->0.turn_id@ == app.first_message->0.turn_id@,
        after.first_message->0.start.id@ == app.first_message->0.start.id@,
        after.first_message->0.start_outcome_unknown,
{
    let (held, kept) = (file.first_message->0, app.first_message->0);
    assert(same_message(held, kept));
    assert(held.start.refusal() == kept.start.refusal());
}

} // verus!
