//! The wire: what a gateway says of itself, what a call can come to, and how bytes become
//! frames.

use vstd::prelude::*;

use crate::json::Json;
use crate::text::{cat2, cat3, count, decimal, same};

verus! {

/// What a gateway answers to the handshake.
#[derive(Debug)]
pub struct Hello {
    pub server: String,
    pub node: String,
    pub role: String,
    pub scope: String,
    pub protocol: u64,
    pub methods: Vec<String>,
}

impl Default for Hello {
    fn default() -> (r: Hello)
        ensures
            r.server@.len() == 0,
            r.node@.len() == 0,
            r.role@.len() == 0,
            r.scope@.len() == 0,
            r.protocol == 0,
            r.methods@.len() == 0,
    {
        Hello {
            server: String::new(),
            node: String::new(),
            role: String::new(),
            scope: String::new(),
            protocol: 0,
            methods: Vec::new(),
        }
    }
}

impl Hello {
    /// The gateway lists the method. The list is the feature gate, and the only one.
    pub open spec fn lists(&self, method: Seq<char>) -> bool {
        exists|i: int| 0 <= i < self.methods@.len() && (#[trigger] self.methods@[i])@ == method
    }

    pub fn serves(&self, method: &str) -> (r: bool)
        ensures
            r == self.lists(method@),
    {
        let mut i: usize = 0;
        while i < self.methods.len()
            invariant
                i <= self.methods@.len(),
                forall|k: int| 0 <= k < i ==> (#[trigger] self.methods@[k])@ != method@,
            decreases self.methods@.len() - i,
        {
            if same(self.methods[i].as_str(), method) {
                assert(self.methods@[i as int]@ == method@);
                return true;
            }
            i += 1;
        }
        false
    }

    /// The listener accepts verbs that change the runtime.
    pub open spec fn can_operate(&self) -> bool {
        self.scope@ == "operate"@
    }

    pub fn operates(&self) -> (r: bool)
        ensures
            r == self.can_operate(),
    {
        same(self.scope.as_str(), "operate")
    }
}

// ----- errors -----------------------------------------------------------------------

/// The gateway's error codes, as far as this client tells them apart.
#[derive(Debug, Clone, Copy, PartialEq, Eq, Structural)]
pub enum ErrorCode {
    MethodNotFound,
    InvalidParams,
    NotFound,
    ScopeDenied,
    UpstreamTimeout,
    /// The token was refused.
    Unauthorized,
    /// The protocol version was refused.
    UnsupportedProtocol,
    Other(i64),
}

impl ErrorCode {
    /// A refused handshake is a decision, and asking again would not change it.
    pub open spec fn refuses_handshake(self) -> bool {
        self is Unauthorized || self is UnsupportedProtocol
    }

    pub fn is_handshake_refusal(self) -> (r: bool)
        ensures
            r == self.refuses_handshake(),
    {
        match self {
            ErrorCode::Unauthorized | ErrorCode::UnsupportedProtocol => true,
            _ => false,
        }
    }
}

/// A typed error from the gateway.
#[derive(Debug)]
pub struct RpcError {
    pub code: ErrorCode,
    pub message: String,
    pub data: Option<Json>,
}

/// Everything that can go wrong, separated into what the server decided and what the transport
/// did.
#[derive(Debug)]
pub enum ClientError {
    Rpc(RpcError),
    ConnectionClosed,
    Timeout,
    FrameTooLarge { limit: usize },
    BadJson(String),
    Io(String),
    /// The client is no longer running; the reason it stopped, when there was one.
    Stopped(String),
}

impl ClientError {
    pub open spec fn code_of(&self) -> Option<ErrorCode> {
        match *self {
            ClientError::Rpc(error) => Some(error.code),
            _ => None,
        }
    }

    pub fn code(&self) -> (r: Option<ErrorCode>)
        ensures
            r == self.code_of(),
    {
        match self {
            ClientError::Rpc(error) => Some(error.code),
            _ => None,
        }
    }

    pub open spec fn fatal(&self) -> bool {
        match *self {
            ClientError::Rpc(error) => error.code.refuses_handshake(),
            ClientError::Stopped(_) => true,
            _ => false,
        }
    }

    /// Whether no reconnect could plausibly change the answer.
    pub fn is_fatal(&self) -> (r: bool)
        ensures
            r == self.fatal(),
    {
        match self {
            ClientError::Rpc(error) => error.code.is_handshake_refusal(),
            ClientError::Stopped(_) => true,
            _ => false,
        }
    }

    pub open spec fn words(&self) -> Seq<char> {
        match *self {
            ClientError::Rpc(error) => error.message@,
            ClientError::ConnectionClosed => "the connection closed"@,
            ClientError::Timeout => "the request exceeded its client ceiling"@,
            ClientError::FrameTooLarge { limit } => "a frame exceeded the "@ + decimal(limit as nat)
                + " byte inbound line limit"@,
            ClientError::BadJson(detail) => "the server sent something unreadable: "@ + detail@,
            ClientError::Io(detail) => "transport failure: "@ + detail@,
            ClientError::Stopped(reason) => if reason@.len() == 0 {
                "the client is not running"@
            } else {
                "the client stopped: "@ + reason@
            },
        }
    }

    /// The error as a sentence.
    pub fn message(&self) -> (r: String)
        ensures
            r@ == self.words(),
    {
        match self {
            ClientError::Rpc(error) => error.message.clone(),
            ClientError::ConnectionClosed => "the connection closed".to_owned(),
            ClientError::Timeout => "the request exceeded its client ceiling".to_owned(),
            ClientError::FrameTooLarge { limit } => cat3(
                "a frame exceeded the ",
                count(*limit).as_str(),
                " byte inbound line limit",
            ),
            ClientError::BadJson(detail) => cat2(
                "the server sent something unreadable: ",
                detail.as_str(),
            ),
            ClientError::Io(detail) => cat2("transport failure: ", detail.as_str()),
            ClientError::Stopped(reason) => if reason.as_str().is_empty() {
                "the client is not running".to_owned()
            } else {
                cat2("the client stopped: ", reason.as_str())
            },
        }
    }
}

// ----- lines ------------------------------------------------------------------------

/// Inbound line ceiling.
pub const DEFAULT_MAX_LINE: usize = 8_388_608;

/// Outbound line ceiling.
pub const DEFAULT_MAX_OUTBOUND: usize = 1_048_576;

pub const NEWLINE: u8 = 10;

pub const CARRIAGE_RETURN: u8 = 13;

/// The position of the first newline, or the length without one.
pub open spec fn line_end(bytes: Seq<u8>) -> int
    decreases bytes.len(),
{
    if bytes.len() == 0 || bytes[0] == NEWLINE {
        0
    } else {
        1 + line_end(bytes.skip(1))
    }
}

proof fn lemma_line_end(bytes: Seq<u8>, at: int)
    requires
        0 <= at <= bytes.len(),
        forall|i: int| 0 <= i < at ==> #[trigger] bytes[i] != NEWLINE,
        at < bytes.len() ==> bytes[at] == NEWLINE,
    ensures
        line_end(bytes) == at,
    decreases bytes.len(),
{
    if at > 0 {
        assert(bytes[0] != NEWLINE);
        assert forall|i: int| 0 <= i < at - 1 implies #[trigger] bytes.skip(1)[i] != NEWLINE by {
            assert(bytes.skip(1)[i] == bytes[i + 1]);
        }
        lemma_line_end(bytes.skip(1), at - 1);
    }
}

pub proof fn lemma_line_end_splits(bytes: Seq<u8>)
    ensures
        0 <= line_end(bytes) <= bytes.len(),
        forall|i: int| 0 <= i < line_end(bytes) ==> #[trigger] bytes[i] != NEWLINE,
        line_end(bytes) < bytes.len() ==> bytes[line_end(bytes)] == NEWLINE,
    decreases bytes.len(),
{
    if bytes.len() > 0 && bytes[0] != NEWLINE {
        lemma_line_end_splits(bytes.skip(1));
        assert forall|i: int| 0 <= i < line_end(bytes) implies #[trigger] bytes[i] != NEWLINE by {
            if i > 0 {
                assert(bytes.skip(1)[i - 1] == bytes[i]);
            }
        }
    }
}

/// Without one carriage return at the end.
pub open spec fn stripped(line: Seq<u8>) -> Seq<u8> {
    if line.len() > 0 && line.last() == CARRIAGE_RETURN {
        line.drop_last()
    } else {
        line
    }
}

/// The complete lines of a run of bytes, without their terminators.
pub open spec fn lines_of(bytes: Seq<u8>) -> Seq<Seq<u8>>
    decreases bytes.len(),
{
    let end = line_end(bytes);
    if 0 <= end < bytes.len() {
        seq![stripped(bytes.take(end))] + lines_of(bytes.skip(end + 1))
    } else {
        Seq::empty()
    }
}

/// What is left after the last complete line.
pub open spec fn rest_of(bytes: Seq<u8>) -> Seq<u8>
    decreases bytes.len(),
{
    let end = line_end(bytes);
    if 0 <= end < bytes.len() {
        rest_of(bytes.skip(end + 1))
    } else {
        bytes
    }
}

/// The lines of a stream do not depend on how it was cut into reads.
pub proof fn lemma_lines_do_not_depend_on_chunks(a: Seq<u8>, b: Seq<u8>)
    ensures
        lines_of(a + b) == lines_of(a) + lines_of(rest_of(a) + b),
        rest_of(a + b) == rest_of(rest_of(a) + b),
    decreases a.len(),
{
    lemma_line_end_splits(a);
    let end = line_end(a);
    if end < a.len() {
        let whole = a + b;
        assert forall|i: int| 0 <= i < end implies #[trigger] whole[i] != NEWLINE by {
            assert(whole[i] == a[i]);
        }
        assert(whole[end] == a[end]);
        lemma_line_end(whole, end);
        assert(whole.take(end) =~= a.take(end));
        assert(whole.skip(end + 1) =~= a.skip(end + 1) + b);
        lemma_lines_do_not_depend_on_chunks(a.skip(end + 1), b);
        let first = seq![stripped(a.take(end))];
        assert(lines_of(a + b) =~= first + (lines_of(a.skip(end + 1)) + lines_of(
            rest_of(a.skip(end + 1)) + b,
        )));
        assert(lines_of(a) + lines_of(rest_of(a) + b) =~= first + (lines_of(a.skip(end + 1))
            + lines_of(rest_of(a.skip(end + 1)) + b)));
    } else {
        assert(lines_of(a) + lines_of(rest_of(a) + b) =~= lines_of(a + b));
    }
}

/// What a reader has for its caller.
#[derive(Debug)]
pub enum Next {
    /// A frame, without its terminator.
    Line(Vec<u8>),
    /// Nothing yet: hand over what the next read brings.
    Wait,
    Failed(ClientError),
}

/// What a reader holds, how long a frame may be, and whether it has given up.
pub struct ReaderView {
    pub held: Seq<u8>,
    pub limit: nat,
    pub poisoned: bool,
}

/// What one look at a reader gives.
pub enum NextView {
    Line(Seq<u8>),
    Wait,
    /// The reader had given up before.
    Closed,
    TooLarge,
}

impl Next {
    pub open spec fn view(&self) -> NextView {
        match *self {
            Next::Line(line) => NextView::Line(line@),
            Next::Wait => NextView::Wait,
            Next::Failed(ClientError::FrameTooLarge { .. }) => NextView::TooLarge,
            Next::Failed(_) => NextView::Closed,
        }
    }
}

impl ReaderView {
    /// A reader that has been handed nothing.
    pub open spec fn fresh(limit: nat) -> ReaderView {
        ReaderView { held: Seq::empty(), limit, poisoned: false }
    }

    /// After one read brought these bytes.
    pub open spec fn fed(self, chunk: Seq<u8>) -> ReaderView {
        ReaderView { held: self.held + chunk, ..self }
    }

    /// What the reader gives when it is asked, and what it is after that.
    pub open spec fn asked(self) -> (NextView, ReaderView) {
        let end = line_end(self.held);
        if self.poisoned {
            (NextView::Closed, self)
        } else if end < self.held.len() {
            (
                NextView::Line(stripped(self.held.take(end))),
                ReaderView { held: self.held.skip(end + 1), ..self },
            )
        } else if self.held.len() > self.limit {
            (NextView::TooLarge, ReaderView { poisoned: true, ..self })
        } else {
            (NextView::Wait, self)
        }
    }

    /// The stream may end here: nothing was cut off.
    pub open spec fn ends_clean(self) -> bool {
        self.held.len() == 0
    }
}

/// Reads newline-terminated frames and refuses one that never terminates in time.
#[derive(Debug)]
pub struct LineReader {
    pending: Vec<u8>,
    scanned: usize,
    max: usize,
    poisoned: bool,
}

impl LineReader {
    /// The bytes that were handed over and not yet given out.
    pub closed spec fn held(&self) -> Seq<u8> {
        self.pending@
    }

    pub closed spec fn limit(&self) -> nat {
        self.max as nat
    }

    /// The reader refused a frame or was cut off inside one. It cannot find the next frame again,
    /// because the rest of that one is indistinguishable from it.
    pub closed spec fn is_poisoned(&self) -> bool {
        self.poisoned
    }

    pub open spec fn view(&self) -> ReaderView {
        ReaderView { held: self.held(), limit: self.limit(), poisoned: self.is_poisoned() }
    }

    pub closed spec fn wf(&self) -> bool {
        &&& self.scanned <= self.pending@.len()
        &&& forall|i: int| 0 <= i < self.scanned ==> #[trigger] self.pending@[i] != NEWLINE
    }

    pub fn new(max: usize) -> (r: LineReader)
        ensures
            r.wf(),
            r@ == ReaderView::fresh(max as nat),
    {
        LineReader { pending: Vec::new(), scanned: 0, max, poisoned: false }
    }

    /// Hands over what one read brought.
    pub fn received(&mut self, chunk: &Vec<u8>)
        requires
            old(self).wf(),
        ensures
            final(self).wf(),
            final(self)@ == old(self)@.fed(chunk@),
    {
        let ghost before = self.pending@;
        let mut i: usize = 0;
        assert(before + chunk@.take(0) =~= before);
        while i < chunk.len()
            invariant
                i <= chunk@.len(),
                self.pending@ == before + chunk@.take(i as int),
                self.scanned == old(self).scanned,
                self.max == old(self).max,
                self.poisoned == old(self).poisoned,
            decreases chunk@.len() - i,
        {
            self.pending.push(chunk[i]);
            i += 1;
            assert(before + chunk@.take(i as int) =~= (before + chunk@.take(i - 1)).push(
                chunk@[i - 1],
            ));
        }
        assert(chunk@.take(i as int) =~= chunk@);
    }

    /// The next frame, if it is here.
    pub fn next_line(&mut self) -> (r: Next)
        requires
            old(self).wf(),
        ensures
            final(self).wf(),
            r@ == old(self)@.asked().0,
            final(self)@ == old(self)@.asked().1,
            r matches Next::Failed(error) ==> error == if old(self).is_poisoned() {
                ClientError::ConnectionClosed
            } else {
                ClientError::FrameTooLarge { limit: old(self).limit() as usize }
            },
            r matches Next::Line(line) ==> {
                &&& lines_of(old(self).held()) == seq![line@] + lines_of(final(self).held())
                &&& rest_of(old(self).held()) == rest_of(final(self).held())
            },
            r is Wait ==> lines_of(old(self).held()).len() == 0,
    {
        if self.poisoned {
            return Next::Failed(ClientError::ConnectionClosed);
        }
        let mut at: usize = self.scanned;
        while at < self.pending.len() && self.pending[at] != NEWLINE
            invariant
                *self == *old(self),
                at <= self.pending@.len(),
                forall|i: int| 0 <= i < at ==> #[trigger] self.pending@[i] != NEWLINE,
            decreases self.pending@.len() - at,
        {
            at += 1;
        }
        proof {
            lemma_line_end(self.pending@, at as int);
        }
        if at < self.pending.len() {
            let ghost bytes = self.pending@;
            let mut line: Vec<u8> = Vec::new();
            let mut rest: Vec<u8> = Vec::new();
            let mut i: usize = 0;
            while i < self.pending.len()
                invariant
                    i <= self.pending@.len(),
                    at < self.pending@.len(),
                    bytes == self.pending@,
                    self.max == old(self).max,
                    !self.poisoned,
                    i <= at ==> line@ == bytes.take(i as int) && rest@.len() == 0,
                    i > at ==> line@ == bytes.take(at as int) && rest@ == bytes.subrange(
                        at + 1,
                        i as int,
                    ),
                decreases self.pending@.len() - i,
            {
                let byte = self.pending[i];
                if i < at {
                    line.push(byte);
                    assert(bytes.take(i + 1) =~= bytes.take(i as int).push(byte));
                } else if i > at {
                    rest.push(byte);
                    assert(bytes.subrange(at + 1, i + 1) =~= bytes.subrange(at + 1, i as int).push(
                        byte,
                    ));
                } else {
                    assert(bytes.subrange(at + 1, i + 1) =~= Seq::<u8>::empty());
                    assert(rest@ =~= Seq::<u8>::empty());
                }
                i += 1;
            }
            assert(rest@ =~= bytes.skip(at + 1));
            if line.len() > 0 && line[line.len() - 1] == CARRIAGE_RETURN {
                line.pop();
            }
            assert(line@ =~= stripped(bytes.take(at as int)));
            self.pending = rest;
            self.scanned = 0;
            return Next::Line(line);
        }
        self.scanned = self.pending.len();
        if self.pending.len() > self.max {
            self.poisoned = true;
            return Next::Failed(ClientError::FrameTooLarge { limit: self.max });
        }
        Next::Wait
    }

    /// The stream ended. Between two frames that is no error.
    pub fn closed(&mut self) -> (r: Result<(), ClientError>)
        requires
            old(self).wf(),
        ensures
            final(self).wf(),
            final(self).held() == old(self).held(),
            final(self).limit() == old(self).limit(),
            match r {
                Ok(_) => old(self)@.ends_clean() && final(self).is_poisoned() == old(
                    self,
                ).is_poisoned(),
                Err(error) => !old(self)@.ends_clean() && error is Io && error->Io_0@
                    == "the connection closed mid-frame"@ && final(self).is_poisoned(),
            },
    {
        if self.pending.len() == 0 {
            Ok(())
        } else {
            self.poisoned = true;
            Err(ClientError::Io("the connection closed mid-frame".to_owned()))
        }
    }
}

// ----- a whole stream ---------------------------------------------------------------

/// The bytes of all reads, one after another.
pub open spec fn all_of(reads: Seq<Seq<u8>>) -> Seq<u8>
    decreases reads.len(),
{
    if reads.len() == 0 {
        Seq::empty()
    } else {
        reads[0] + all_of(reads.skip(1))
    }
}

/// What a caller gets who reads on until there is a line.
pub enum ReadView {
    Line(Seq<u8>),
    /// The stream ended between two lines.
    End,
    /// The stream ended inside one, or a line was too long.
    Broken,
}

impl ReaderView {
    /// One line, for which as many of the reads are taken as it needs; with it the reader after
    /// that and the reads that are left.
    pub open spec fn line(self, reads: Seq<Seq<u8>>) -> (ReadView, ReaderView, Seq<Seq<u8>>)
        decreases reads.len(),
    {
        let (next, after) = self.asked();
        match next {
            NextView::Line(line) => (ReadView::Line(line), after, reads),
            NextView::Wait => if reads.len() > 0 {
                after.fed(reads[0]).line(reads.skip(1))
            } else if after.ends_clean() {
                (ReadView::End, after, reads)
            } else {
                (ReadView::Broken, after, reads)
            },
            _ => (ReadView::Broken, after, reads),
        }
    }

    /// What the call gives that comes after `k` others.
    pub open spec fn line_after(self, reads: Seq<Seq<u8>>, k: nat) -> ReadView
        decreases k,
    {
        let (line, after, left) = self.line(reads);
        if k == 0 {
            line
        } else {
            after.line_after(left, (k - 1) as nat)
        }
    }
}

/// No line is longer than the limit, its terminator aside.
pub open spec fn lines_within(bytes: Seq<u8>, limit: nat) -> bool
    decreases bytes.len(),
{
    let end = line_end(bytes);
    if 0 <= end < bytes.len() {
        end <= limit && lines_within(bytes.skip(end + 1), limit)
    } else {
        bytes.len() <= limit
    }
}

proof fn lemma_one_line(reader: ReaderView, reads: Seq<Seq<u8>>, bytes: Seq<u8>)
    requires
        !reader.poisoned,
        bytes == reader.held + all_of(reads),
        lines_within(bytes, reader.limit),
        rest_of(bytes).len() == 0,
    ensures
        ({
            let (line, after, left) = reader.line(reads);
            let end = line_end(bytes);
            if bytes.len() > 0 {
                &&& 0 <= end < bytes.len()
                &&& line == ReadView::Line(stripped(bytes.take(end)))
                &&& !after.poisoned && after.limit == reader.limit
                &&& after.held + all_of(left) == bytes.skip(end + 1)
            } else {
                line is End
            }
        }),
    decreases reads.len(),
{
    let held = reader.held;
    let end = line_end(bytes);
    lemma_line_end_splits(bytes);
    lemma_line_end_splits(held);
    if line_end(held) < held.len() {
        let at = line_end(held);
        assert forall|i: int| 0 <= i < at implies #[trigger] bytes[i] != NEWLINE by {
            assert(bytes[i] == held[i]);
        }
        assert(bytes[at] == held[at]);
        lemma_line_end(bytes, at);
        assert(bytes.take(at) =~= held.take(at));
        assert(held.skip(at + 1) + all_of(reads) =~= bytes.skip(at + 1));
    } else {
        assert(end >= held.len()) by {
            if end < held.len() {
                assert(bytes[end] == held[end]);
            }
        }
        if reads.len() > 0 {
            let next = reader.fed(reads[0]);
            assert(next.held + all_of(reads.skip(1)) =~= bytes);
            lemma_one_line(next, reads.skip(1), bytes);
        } else {
            assert(bytes =~= held);
        }
    }
}

proof fn lemma_line_after(reader: ReaderView, reads: Seq<Seq<u8>>, bytes: Seq<u8>, k: nat)
    requires
        !reader.poisoned,
        bytes == reader.held + all_of(reads),
        lines_within(bytes, reader.limit),
        rest_of(bytes).len() == 0,
        k <= lines_of(bytes).len(),
    ensures
        reader.line_after(reads, k) == if k < lines_of(bytes).len() {
            ReadView::Line(lines_of(bytes)[k as int])
        } else {
            ReadView::End
        },
    decreases k,
{
    lemma_one_line(reader, reads, bytes);
    lemma_line_end_splits(bytes);
    let (line, after, left) = reader.line(reads);
    let end = line_end(bytes);
    if bytes.len() > 0 {
        let first = seq![stripped(bytes.take(end))];
        let rest = lines_of(bytes.skip(end + 1));
        assert(lines_of(bytes) == first + rest);
        if k > 0 {
            lemma_line_after(after, left, bytes.skip(end + 1), (k - 1) as nat);
        }
    }
}

/// A whole stream, however it is cut into reads: a fresh reader gives its lines one after another,
/// each without its terminator, and then the clean end.
pub proof fn lemma_a_stream_is_read_line_by_line(limit: nat, reads: Seq<Seq<u8>>, k: nat)
    requires
        lines_within(all_of(reads), limit),
        rest_of(all_of(reads)).len() == 0,
        k <= lines_of(all_of(reads)).len(),
    ensures
        ReaderView::fresh(limit).line_after(reads, k) == if k < lines_of(all_of(reads)).len() {
            ReadView::Line(lines_of(all_of(reads))[k as int])
        } else {
            ReadView::End
        },
{
    let bytes = all_of(reads);
    assert(ReaderView::fresh(limit).held + bytes =~= bytes);
    lemma_line_after(ReaderView::fresh(limit), reads, bytes, k);
}

/// Lines that are written one after another, each with a newline behind it, are the lines of what
/// was written, one carriage return at the end of each aside.
pub proof fn lemma_written_lines_are_the_lines(lines: Seq<Seq<u8>>)
    requires
        forall|i: int, j: int|
            0 <= i < lines.len() && 0 <= j < lines[i].len() ==> #[trigger] lines[i][j] != NEWLINE,
    ensures
        lines_of(written_out(lines)) == lines.map_values(|line: Seq<u8>| stripped(line)),
        rest_of(written_out(lines)).len() == 0,
        forall|limit: nat|
            (forall|i: int| 0 <= i < lines.len() ==> (#[trigger] lines[i]).len() <= limit)
                ==> #[trigger] lines_within(written_out(lines), limit),
    decreases lines.len(),
{
    let bytes = written_out(lines);
    if lines.len() == 0 {
        assert(lines_of(bytes) =~= lines.map_values(|line: Seq<u8>| stripped(line)));
    } else {
        let first = lines[0];
        let others = lines.skip(1);
        assert forall|i: int, j: int|
            0 <= i < others.len() && 0 <= j < others[i].len() implies #[trigger] others[i][j]
            != NEWLINE by {
            assert(lines[i + 1][j] != NEWLINE);
        }
        lemma_written_lines_are_the_lines(others);
        let end = first.len() as int;
        assert forall|i: int| 0 <= i < end implies #[trigger] bytes[i] != NEWLINE by {
            assert(bytes[i] == lines[0][i]);
        }
        assert(bytes[end] == NEWLINE);
        lemma_line_end(bytes, end);
        assert(bytes.take(end) =~= first);
        assert(bytes.skip(end + 1) =~= written_out(others));
        assert(lines_of(bytes) =~= lines.map_values(|line: Seq<u8>| stripped(line)));
        assert forall|limit: nat|
            (forall|i: int| 0 <= i < lines.len() ==> (#[trigger] lines[i]).len() <= limit)
            implies #[trigger] lines_within(bytes, limit) by {
            assert forall|i: int| 0 <= i < others.len() implies (#[trigger] others[i]).len()
                <= limit by {
                assert(lines[i + 1].len() <= limit);
            }
            assert(lines[0].len() <= limit);
            assert(lines_within(written_out(others), limit));
        }
    }
}

/// What is sent is what is read: of lines within the limit, however the stream is cut into reads, a
/// fresh reader gives each in its turn, one carriage return at its end aside, and then the clean
/// end.
pub proof fn lemma_what_is_sent_is_read(
    limit: nat,
    lines: Seq<Seq<u8>>,
    reads: Seq<Seq<u8>>,
    k: nat,
)
    requires
        forall|i: int, j: int|
            0 <= i < lines.len() && 0 <= j < lines[i].len() ==> #[trigger] lines[i][j] != NEWLINE,
        forall|i: int| 0 <= i < lines.len() ==> (#[trigger] lines[i]).len() <= limit,
        all_of(reads) == written_out(lines),
        k <= lines.len(),
    ensures
        ReaderView::fresh(limit).line_after(reads, k) == if k < lines.len() {
            ReadView::Line(stripped(lines[k as int]))
        } else {
            ReadView::End
        },
{
    lemma_written_lines_are_the_lines(lines);
    assert(lines_within(written_out(lines), limit));
    lemma_a_stream_is_read_line_by_line(limit, reads, k);
}

/// Lines as they are sent: each with a newline behind it.
pub open spec fn written_out(lines: Seq<Seq<u8>>) -> Seq<u8>
    decreases lines.len(),
{
    if lines.len() == 0 {
        Seq::empty()
    } else {
        lines[0].push(NEWLINE) + written_out(lines.skip(1))
    }
}

/// One request as it is written: its bytes and a newline. A request past the ceiling is refused
/// where its method is still in hand.
pub fn outbound(bytes: Vec<u8>, max_outbound: usize) -> (r: Result<Vec<u8>, ClientError>)
    ensures
        match r {
            Ok(frame) => bytes@.len() <= max_outbound && frame@ == bytes@.push(NEWLINE),
            Err(error) => bytes@.len() > max_outbound && error == (ClientError::FrameTooLarge {
                limit: max_outbound,
            }),
        },
{
    if bytes.len() > max_outbound {
        return Err(ClientError::FrameTooLarge { limit: max_outbound });
    }
    let mut frame = bytes;
    frame.push(NEWLINE);
    Ok(frame)
}

/// A frame that holds no newline of its own comes back out of a reader as it went in, carriage
/// return at its end aside.
pub proof fn lemma_a_frame_is_read_back(bytes: Seq<u8>)
    requires
        forall|i: int| 0 <= i < bytes.len() ==> #[trigger] bytes[i] != NEWLINE,
    ensures
        lines_of(bytes.push(NEWLINE)) == seq![stripped(bytes)],
        rest_of(bytes.push(NEWLINE)).len() == 0,
{
    let frame = bytes.push(NEWLINE);
    lemma_line_end(frame, bytes.len() as int);
    assert(frame.take(bytes.len() as int) =~= bytes);
    assert(frame.skip((bytes.len() + 1) as int) =~= Seq::<u8>::empty());
    assert(lines_of(Seq::<u8>::empty()) =~= Seq::<Seq<u8>>::empty());
    assert(rest_of(Seq::<u8>::empty()) =~= Seq::<u8>::empty());
    assert(lines_of(frame) =~= seq![stripped(bytes)]);
}

// ----- correlation ------------------------------------------------------------------

/// One frame from the gateway, decoded.
#[derive(Debug)]
pub enum Incoming {
    Response { id: Option<u64>, outcome: Result<Json, RpcError> },
    Notification { method: String, params: Json },
    Unrecognized,
}

/// What a frame means during a handshake.
#[derive(Debug)]
pub enum Greeting {
    /// The answer to the question asked.
    Answered(Json),
    Refused(ClientError),
    /// Not an answer: wait for the next frame, up to the deadline.
    Ignore,
}

/// Reads one frame of a handshake that was asked under `id`. `None` is the end of the stream. A
/// response without an id means the two sides disagree about the protocol.
pub fn greeting(id: u64, frame: Option<Incoming>) -> (r: Greeting)
    ensures
        match frame {
            None => r == Greeting::Refused(ClientError::ConnectionClosed),
            Some(Incoming::Response { id: Some(answered), outcome }) => if answered == id {
                match outcome {
                    Ok(value) => r == Greeting::Answered(value),
                    Err(error) => r == Greeting::Refused(ClientError::Rpc(error)),
                }
            } else {
                r == Greeting::Ignore
            },
            Some(Incoming::Response { id: None, outcome }) => match outcome {
                Err(error) => r == Greeting::Refused(ClientError::Rpc(error)),
                Ok(_) => r is Refused && r->Refused_0 is BadJson && r->Refused_0->BadJson_0@
                    == "an unaddressed hello result"@,
            },
            Some(_) => r == Greeting::Ignore,
        },
{
    match frame {
        None => Greeting::Refused(ClientError::ConnectionClosed),
        Some(Incoming::Response { id: Some(answered), outcome }) => if answered == id {
            match outcome {
                Ok(value) => Greeting::Answered(value),
                Err(error) => Greeting::Refused(ClientError::Rpc(error)),
            }
        } else {
            Greeting::Ignore
        },
        Some(Incoming::Response { id: None, outcome }) => match outcome {
            Err(error) => Greeting::Refused(ClientError::Rpc(error)),
            Ok(_) => Greeting::Refused(
                ClientError::BadJson("an unaddressed hello result".to_owned()),
            ),
        },
        Some(_) => Greeting::Ignore,
    }
}

/// What to do with a frame of an established connection.
#[derive(Debug)]
pub enum Delivery {
    /// Hand the outcome to the caller that is waiting under this id.
    Reply { id: u64, outcome: Result<Json, ClientError> },
    /// Hand the notification on, or count it as dropped where nobody has room for it.
    Notify { method: String, params: Json },
    /// Nobody is waiting for it.
    Discard,
    /// The connection cannot be trusted any further.
    Lost(ClientError),
}

/// The requests that are waiting for their answers, by id.
#[derive(Debug)]
pub struct Waiting {
    ids: Vec<u64>,
}

impl Waiting {
    pub closed spec fn view(&self) -> Set<u64> {
        self.ids@.to_set()
    }

    /// No id waits twice.
    pub closed spec fn wf(&self) -> bool {
        self.ids@.no_duplicates()
    }

    pub fn new() -> (r: Waiting)
        ensures
            r.wf(),
            r@ == Set::<u64>::empty(),
    {
        let r = Waiting { ids: Vec::new() };
        assert(r@ =~= Set::<u64>::empty());
        r
    }

    fn position(&self, id: u64) -> (r: Option<usize>)
        ensures
            match r {
                Some(i) => i < self.ids@.len() && self.ids@[i as int] == id,
                None => !self@.contains(id),
            },
    {
        let mut i: usize = 0;
        while i < self.ids.len()
            invariant
                i <= self.ids@.len(),
                forall|k: int| 0 <= k < i ==> self.ids@[k] != id,
            decreases self.ids@.len() - i,
        {
            if self.ids[i] == id {
                return Some(i);
            }
            i += 1;
        }
        None
    }

    /// A request went out under a fresh id.
    pub fn asked(&mut self, id: u64)
        requires
            old(self).wf(),
        ensures
            final(self).wf(),
            final(self)@ == old(self)@.insert(id),
    {
        if self.position(id).is_none() {
            let ghost before = self.ids@;
            self.ids.push(id);
            proof {
                assert(self@ =~= old(self)@.insert(id)) by {
                    assert forall|x: u64| self@.contains(x) == old(self)@.insert(id).contains(
                        x,
                    ) by {
                        if before.contains(x) {
                            let k = choose|k: int| 0 <= k < before.len() && before[k] == x;
                            assert(self.ids@[k] == x);
                        }
                        if x == id {
                            assert(self.ids@[before.len() as int] == x);
                        }
                    }
                }
            }
        } else {
            assert(self@ =~= old(self)@.insert(id));
        }
    }

    /// The caller stopped waiting. Whether it was still waiting.
    pub fn forget(&mut self, id: u64) -> (r: bool)
        requires
            old(self).wf(),
        ensures
            final(self).wf(),
            final(self)@ == old(self)@.remove(id),
            r == old(self)@.contains(id),
    {
        match self.position(id) {
            Some(i) => {
                let ghost before = self.ids@;
                let gone = self.ids.remove(i);
                proof {
                    assert(old(self)@.contains(id));
                    assert(self@ =~= old(self)@.remove(id)) by {
                        assert forall|x: u64| self@.contains(x) == old(self)@.remove(id).contains(
                            x,
                        ) by {
                            if self.ids@.contains(x) {
                                let k = choose|k: int|
                                    0 <= k < self.ids@.len() && self.ids@[k] == x;
                                if k < i {
                                    assert(before[k] == x);
                                } else {
                                    assert(before[k + 1] == x);
                                }
                            }
                            if before.contains(x) && x != id {
                                let k = choose|k: int| 0 <= k < before.len() && before[k] == x;
                                if k < i {
                                    assert(self.ids@[k] == x);
                                } else {
                                    assert(self.ids@[k - 1] == x);
                                }
                            }
                        }
                    }
                    assert forall|a: int, b: int|
                        0 <= a < b < self.ids@.len() implies self.ids@[a] != self.ids@[b] by {
                        let x = if a < i {
                            a
                        } else {
                            a + 1
                        };
                        let y = if b < i {
                            b
                        } else {
                            b + 1
                        };
                        assert(before[x] != before[y]);
                    }
                }
                true
            },
            None => {
                assert(self@ =~= old(self)@.remove(id));
                false
            },
        }
    }

    /// Everyone who was waiting, once: the connection is gone.
    pub fn abandon(&mut self) -> (r: Vec<u64>)
        requires
            old(self).wf(),
        ensures
            final(self).wf(),
            final(self)@ == Set::<u64>::empty(),
            r@.to_set() == old(self)@,
            r@.no_duplicates(),
    {
        let mut gone: Vec<u64> = Vec::new();
        std::mem::swap(&mut gone, &mut self.ids);
        assert(self@ =~= Set::<u64>::empty());
        gone
    }

    /// Reads one frame of an established connection. A response answers whoever waits under its
    /// id, once; a response without an id means the two sides disagree about the protocol.
    pub fn deliver(&mut self, incoming: Incoming) -> (r: Delivery)
        requires
            old(self).wf(),
        ensures
            final(self).wf(),
            match incoming {
                Incoming::Response { id: Some(id), outcome } => {
                    &&& final(self)@ == old(self)@.remove(id)
                    &&& if old(self)@.contains(id) {
                        r == (Delivery::Reply {
                            id,
                            outcome: match outcome {
                                Ok(value) => Ok(value),
                                Err(error) => Err(ClientError::Rpc(error)),
                            },
                        })
                    } else {
                        r == Delivery::Discard
                    }
                },
                Incoming::Response { id: None, outcome } => {
                    &&& final(self)@ == old(self)@
                    &&& match outcome {
                        Err(error) => r == Delivery::Lost(ClientError::Rpc(error)),
                        Ok(_) => r is Lost && r->Lost_0 is BadJson && r->Lost_0->BadJson_0@
                            == "an unaddressed result"@,
                    }
                },
                Incoming::Notification { method, params } => final(self)@ == old(self)@ && r == (
                Delivery::Notify { method, params }),
                Incoming::Unrecognized => final(self)@ == old(self)@ && r == Delivery::Discard,
            },
    {
        match incoming {
            Incoming::Response { id: Some(id), outcome } => {
                if self.forget(id) {
                    Delivery::Reply {
                        id,
                        outcome: match outcome {
                            Ok(value) => Ok(value),
                            Err(error) => Err(ClientError::Rpc(error)),
                        },
                    }
                } else {
                    Delivery::Discard
                }
            },
            Incoming::Response { id: None, outcome } => match outcome {
                Err(error) => Delivery::Lost(ClientError::Rpc(error)),
                Ok(_) => Delivery::Lost(ClientError::BadJson("an unaddressed result".to_owned())),
            },
            Incoming::Notification { method, params } => Delivery::Notify { method, params },
            Incoming::Unrecognized => Delivery::Discard,
        }
    }
}

/// A request that could not be written says something about the socket, unless this client was
/// the one that refused to write it.
pub open spec fn socket_survives(error: ClientError) -> bool {
    error is FrameTooLarge || error is BadJson
}

pub fn survives_send_failure(error: &ClientError) -> (r: bool)
    ensures
        r == socket_survives(*error),
{
    matches!(error, ClientError::FrameTooLarge { .. } | ClientError::BadJson(_))
}

/// What follows a lost connection.
#[derive(Debug, Clone, Copy, PartialEq, Eq, Structural)]
pub enum Recovery {
    /// Wait for the delay of this attempt, then connect.
    Attempt(u32),
    Stop,
}

/// The first step after a connection was lost.
pub fn recovery(reconnect: bool) -> (r: Recovery)
    ensures
        r == if reconnect {
            Recovery::Attempt(0)
        } else {
            Recovery::Stop
        },
{
    if reconnect {
        Recovery::Attempt(0)
    } else {
        Recovery::Stop
    }
}

/// The step after an attempt that failed. A refused handshake is not retried.
pub fn after_attempt(attempt: u32, error: &ClientError) -> (r: Recovery)
    ensures
        r == if error.fatal() {
            Recovery::Stop
        } else {
            Recovery::Attempt(
                if attempt == u32::MAX {
                    attempt
                } else {
                    (attempt + 1) as u32
                },
            )
        },
{
    if error.is_fatal() {
        Recovery::Stop
    } else {
        Recovery::Attempt(attempt.saturating_add(1))
    }
}

/// What a call comes to once nothing serves it any more.
pub fn stopped_error(reason: Option<String>) -> (r: ClientError)
    ensures
        r is Stopped,
        r->Stopped_0@ == match reason {
            Some(reason) => reason@,
            None => Seq::empty(),
        },
{
    match reason {
        Some(reason) => ClientError::Stopped(reason),
        None => ClientError::Stopped(String::new()),
    }
}

} // verus!
