use vstd::prelude::*;

verus! {

/// Size of the buffer that one read of a pipe fills at most.
pub const READ_CHUNK: usize = 4096;

/// How a non-blocking OS read or write on a pipe failed.
#[derive(Debug)]
pub enum IoFailure {
    /// The call would have blocked.
    WouldBlock,
    /// The peer closed its end of the pipe; the OS error text.
    BrokenPipe(String),
    /// Any other OS error, with its text.
    Os(String),
}

/// Result of one write on the stdin pipe.
#[derive(Debug)]
pub enum WriteOutcome {
    /// The whole buffer was accepted.
    Written,
    /// Only this many bytes were accepted; the rest must be sent again.
    Partial(usize),
    WouldBlock,
    BrokenPipe,
    NotPiped,
    Os(String),
}

/// Result of one read on a stdout or stderr pipe.
#[derive(Debug)]
pub enum ReadOutcome {
    /// The peer closed the stream.
    Eof,
    /// Between one and `READ_CHUNK` bytes.
    Data(Vec<u8>),
    WouldBlock,
    NotPiped,
    Os(String),
}

/// Result of closing a pipe slot.
#[derive(Debug, PartialEq, Eq, Structural)]
pub enum CloseOutcome {
    Closed,
    NotPiped,
}

/// The state of one pipe slot: whether it holds a pipe end, and whether a
/// read has seen the end of the stream.
pub struct StreamModel {
    pub open: bool,
    pub at_eof: bool,
}

/// Kinds of read results, as the laws speak of them.
pub enum ReadKind {
    Eof,
    Data,
    WouldBlock,
    NotPiped,
    Failed,
}

pub open spec fn read_kind(o: ReadOutcome) -> ReadKind {
    match o {
        ReadOutcome::Eof => ReadKind::Eof,
        ReadOutcome::Data(_) => ReadKind::Data,
        ReadOutcome::WouldBlock => ReadKind::WouldBlock,
        ReadOutcome::NotPiped => ReadKind::NotPiped,
        ReadOutcome::Os(_) => ReadKind::Failed,
    }
}

/// What the OS answered to a read, as the laws speak of it.
pub enum OsRead {
    Bytes(nat),
    Blocked,
    Failed,
}

pub open spec fn os_read_of(result: Result<Vec<u8>, IoFailure>) -> OsRead {
    match result {
        Ok(b) => OsRead::Bytes(b@.len()),
        Err(IoFailure::WouldBlock) => OsRead::Blocked,
        Err(_) => OsRead::Failed,
    }
}

/// The result kind of a read in state `s` when the OS would answer `os`.
pub open spec fn read_result(s: StreamModel, os: OsRead) -> ReadKind {
    if !s.open {
        ReadKind::NotPiped
    } else if s.at_eof {
        ReadKind::Eof
    } else {
        match os {
            OsRead::Bytes(n) => if n == 0 { ReadKind::Eof } else { ReadKind::Data },
            OsRead::Blocked => ReadKind::WouldBlock,
            OsRead::Failed => ReadKind::Failed,
        }
    }
}

pub open spec fn after_read(s: StreamModel, os: OsRead) -> StreamModel {
    StreamModel { open: s.open, at_eof: read_result(s, os) is Eof }
}

/// What closing a slot in state `s` reports.
pub open spec fn close_result(s: StreamModel) -> CloseOutcome {
    if s.open {
        CloseOutcome::Closed
    } else {
        CloseOutcome::NotPiped
    }
}

pub open spec fn after_close(s: StreamModel) -> StreamModel {
    if s.open {
        StreamModel { open: false, at_eof: false }
    } else {
        s
    }
}

/// One slot holding a pipe end of the child, or nothing when the stream was
/// not piped or has been closed.
pub struct PipeSlot<P> {
    pipe: Option<P>,
    at_eof: bool,
}

impl<P> View for PipeSlot<P> {
    type V = StreamModel;

    closed spec fn view(&self) -> StreamModel {
        StreamModel { open: self.pipe is Some, at_eof: self.pipe is Some && self.at_eof }
    }
}

impl<P> PipeSlot<P> {
    pub fn new(pipe: Option<P>) -> (r: PipeSlot<P>)
        ensures
            r@.open == pipe is Some,
            !r@.at_eof,
    {
        PipeSlot { pipe, at_eof: false }
    }

    pub fn is_open(&self) -> (r: bool)
        ensures
            r == self@.open,
    {
        self.pipe.is_some()
    }

    /// The pipe end, for an OS read or write.
    pub fn pipe_mut(&mut self) -> (r: Option<&mut P>)
        ensures
            r is Some <==> old(self)@.open,
            final(self)@ == old(self)@,
    {
        match &mut self.pipe {
            Some(p) => Some(p),
            None => None,
        }
    }

    /// Answers a write without the OS where the slot decides it: an empty
    /// slot.
    pub fn settled_write(&self) -> (r: Option<WriteOutcome>)
        ensures
            r is None <==> self@.open,
            r matches Some(o) ==> o is NotPiped,
    {
        if self.pipe.is_none() {
            Some(WriteOutcome::NotPiped)
        } else {
            None
        }
    }

    /// Answers a read without the OS where the slot's state decides it: an
    /// empty slot, or a stream already seen at its end.
    pub fn settled_read(&self) -> (r: Option<ReadOutcome>)
        ensures
            r is None <==> (self@.open && !self@.at_eof),
            r matches Some(o) ==> read_kind(o) == read_result(self@, OsRead::Blocked),
    {
        if self.pipe.is_none() {
            Some(ReadOutcome::NotPiped)
        } else if self.at_eof {
            Some(ReadOutcome::Eof)
        } else {
            None
        }
    }

    /// Settles a read of the open pipe from the OS answer `result`.
    pub fn settle_read(&mut self, result: Result<Vec<u8>, IoFailure>) -> (r: ReadOutcome)
        requires
            old(self)@.open,
            !old(self)@.at_eof,
            result matches Ok(b) ==> b@.len() <= READ_CHUNK,
        ensures
            read_kind(r) == read_result(old(self)@, os_read_of(result)),
            final(self)@ == after_read(old(self)@, os_read_of(result)),
            r matches ReadOutcome::Data(b) ==> (result matches Ok(d) && b@ == d@ && 1 <= b@.len()
                <= READ_CHUNK),
            r matches ReadOutcome::Os(m) ==> (result matches Err(IoFailure::Os(e)) && m@ == e@) || (
            result matches Err(IoFailure::BrokenPipe(e)) && m@ == e@),
    {
        match result {
            Ok(bytes) => {
                if bytes.len() == 0 {
                    self.at_eof = true;
                    ReadOutcome::Eof
                } else {
                    ReadOutcome::Data(bytes)
                }
            },
            Err(IoFailure::WouldBlock) => ReadOutcome::WouldBlock,
            Err(IoFailure::BrokenPipe(e)) => ReadOutcome::Os(e),
            Err(IoFailure::Os(m)) => ReadOutcome::Os(m),
        }
    }

    /// Empties the slot, dropping the pipe end.
    pub fn close(&mut self) -> (r: CloseOutcome)
        ensures
            r == close_result(old(self)@),
            final(self)@ == after_close(old(self)@),
    {
        if self.pipe.is_some() {
            self.pipe = None;
            self.at_eof = false;
            CloseOutcome::Closed
        } else {
            CloseOutcome::NotPiped
        }
    }
}

/// One operation on a pipe slot: a read that the OS would answer with the
/// given result, or a close.
pub enum StreamEvent {
    Read(OsRead),
    Close,
}

pub open spec fn stream_step(s: StreamModel, e: StreamEvent) -> StreamModel {
    match e {
        StreamEvent::Read(os) => after_read(s, os),
        StreamEvent::Close => after_close(s),
    }
}

pub open spec fn run_stream(s: StreamModel, t: Seq<StreamEvent>) -> StreamModel
    decreases t.len(),
{
    if t.len() == 0 {
        s
    } else {
        stream_step(run_stream(s, t.drop_last()), t.last())
    }
}

proof fn lemma_eof_stays(s: StreamModel, t: Seq<StreamEvent>, i: int, j: int)
    requires
        0 <= i <= j <= t.len(),
        run_stream(s, t.take(i)).open && run_stream(s, t.take(i)).at_eof,
        forall|k: int| i <= k < j ==> !(#[trigger] t[k] is Close),
    ensures
        run_stream(s, t.take(j)).open && run_stream(s, t.take(j)).at_eof,
    decreases j - i,
{
    if i < j {
        lemma_eof_stays(s, t, i, j - 1);
        assert(t.take(j).drop_last() =~= t.take(j - 1));
        assert(!(t[j - 1] is Close));
    }
}

/// End of stream is final: once a read of a stream has returned `Eof`, every
/// later read returns `Eof` too, as long as the slot is not closed in between.
pub proof fn lemma_eof_is_final(s: StreamModel, t: Seq<StreamEvent>, i: int, j: int)
    requires
        0 <= i < j < t.len(),
        t[i] matches StreamEvent::Read(os) && read_result(run_stream(s, t.take(i)), os) is Eof,
        forall|k: int| i < k < j ==> !(#[trigger] t[k] is Close),
        t[j] is Read,
    ensures
        t[j] matches StreamEvent::Read(os) && read_result(run_stream(s, t.take(j)), os) is Eof,
{
    assert(t.take(i + 1).drop_last() =~= t.take(i));
    lemma_eof_stays(s, t, i + 1, j);
}

/// Closing is idempotent: a second close reports `NotPiped` and changes
/// nothing, and neither does a close of a slot that never held a pipe.
pub proof fn lemma_close_idempotent(s: StreamModel)
    ensures
        close_result(after_close(s)) == CloseOutcome::NotPiped,
        after_close(after_close(s)) == after_close(s),
        !s.open ==> close_result(s) == CloseOutcome::NotPiped && after_close(s) == s,
{
}

} // verus!
