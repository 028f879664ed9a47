//! Decisions of an adapter that drives a completion-based stream (each
//! operation owns its buffer until it completes) through a readiness-based
//! interface (each call borrows a buffer and may be told to come back).
//!
//! The adapter keeps one slot per direction. A slot is empty or holds the
//! size of the buffer that the operation in flight owns. A shutdown never
//! starts while a write is in flight, nor a write while a shutdown is.
use vstd::prelude::*;

verus! {

/// What the caller of a readiness operation does next.
#[derive(Debug, PartialEq, Eq)]
pub enum Step {
    /// Issue the underlying operation with a buffer of this many bytes, then
    /// poll it.
    Start(usize),
    /// Poll the operation already in flight; start nothing.
    Resume,
    /// Report "not ready"; start nothing.
    Wait,
    /// Report completion at once; nothing is in flight.
    Done,
}

/// The result of polling an operation in flight.
#[derive(Debug, PartialEq, Eq)]
pub enum Progress<T, E> {
    NotReady,
    Ready(Result<T, E>),
}

/// The slots of an adapter.
pub struct Slots {
    pub read: Option<usize>,
    pub write: Option<usize>,
    pub shutdown: bool,
}

/// No shutdown while a write is in flight.
pub open spec fn slots_ok(s: Slots) -> bool {
    !(s.write is Some && s.shutdown)
}

/// A read request with room for `room` bytes.
pub open spec fn read_step(s: Slots, room: usize) -> (Step, Slots) {
    match s.read {
        None => (Step::Start(room), Slots { read: Some(room), ..s }),
        Some(_) => (Step::Resume, s),
    }
}

/// A write request of `len` bytes.
pub open spec fn write_step(s: Slots, len: usize) -> (Step, Slots) {
    if s.shutdown {
        (Step::Wait, s)
    } else {
        match s.write {
            None => (Step::Start(len), Slots { write: Some(len), ..s }),
            Some(_) => (Step::Resume, s),
        }
    }
}

/// A flush request: the write in flight, if any, is driven to its end.
pub open spec fn flush_step(s: Slots) -> (Step, Slots) {
    match s.write {
        Some(_) => (Step::Resume, s),
        None => (Step::Done, s),
    }
}

/// A shutdown request.
pub open spec fn shutdown_step(s: Slots) -> (Step, Slots) {
    if s.write is Some {
        (Step::Wait, s)
    } else if !s.shutdown {
        (Step::Start(0), Slots { shutdown: true, ..s })
    } else {
        (Step::Resume, s)
    }
}

/// The slots once the read in flight has produced `p`.
pub open spec fn read_polled<E>(s: Slots, p: Progress<usize, E>) -> Slots {
    match p {
        Progress::NotReady => s,
        Progress::Ready(_) => Slots { read: None, ..s },
    }
}

/// The slots once the write in flight has produced `p`.
pub open spec fn write_polled<E>(s: Slots, p: Progress<usize, E>) -> Slots {
    match p {
        Progress::NotReady => s,
        Progress::Ready(_) => Slots { write: None, ..s },
    }
}

/// The slots once the shutdown in flight has produced `p`.
pub open spec fn shutdown_polled<E>(s: Slots, p: Progress<(), E>) -> Slots {
    match p {
        Progress::NotReady => s,
        Progress::Ready(_) => Slots { shutdown: false, ..s },
    }
}

/// The slots of one stream adapter.
pub struct StreamAdapter {
    read: Option<usize>,
    write: Option<usize>,
    shutdown: bool,
}

impl StreamAdapter {
    pub closed spec fn view(&self) -> Slots {
        Slots { read: self.read, write: self.write, shutdown: self.shutdown }
    }

    /// An adapter with nothing in flight.
    pub fn new() -> (r: StreamAdapter)
        ensures
            r@ == (Slots { read: None, write: None, shutdown: false }),
            slots_ok(r@),
    {
        StreamAdapter { read: None, write: None, shutdown: false }
    }

    /// Whether a read is in flight, and the size of its buffer.
    pub fn pending_read(&self) -> (r: Option<usize>)
        ensures
            r == self@.read,
    {
        self.read
    }

    /// Whether a write is in flight, and its length.
    pub fn pending_write(&self) -> (r: Option<usize>)
        ensures
            r == self@.write,
    {
        self.write
    }

    /// Whether a shutdown is in flight.
    pub fn pending_shutdown(&self) -> (r: bool)
        ensures
            r == self@.shutdown,
    {
        self.shutdown
    }

    /// A read request with room for `room` bytes: starts a read with a
    /// scratch buffer of that size, or resumes the one in flight.
    pub fn poll_read(&mut self, room: usize) -> (r: Step)
        requires
            slots_ok(old(self)@),
        ensures
            slots_ok(final(self)@),
            (r, final(self)@) == read_step(old(self)@, room),
    {
        match self.read {
            None => {
                self.read = Some(room);
                Step::Start(room)
            },
            Some(_) => Step::Resume,
        }
    }

    /// A write request of `len` bytes: waits while a shutdown is in flight,
    /// starts a write, or resumes the one in flight.
    pub fn poll_write(&mut self, len: usize) -> (r: Step)
        requires
            slots_ok(old(self)@),
        ensures
            slots_ok(final(self)@),
            (r, final(self)@) == write_step(old(self)@, len),
    {
        if self.shutdown {
            Step::Wait
        } else {
            match self.write {
                None => {
                    self.write = Some(len);
                    Step::Start(len)
                },
                Some(_) => Step::Resume,
            }
        }
    }

    /// A flush request: resumes the write in flight, or is done at once.
    pub fn poll_flush(&mut self) -> (r: Step)
        requires
            slots_ok(old(self)@),
        ensures
            slots_ok(final(self)@),
            (r, final(self)@) == flush_step(old(self)@),
    {
        match self.write {
            Some(_) => Step::Resume,
            None => Step::Done,
        }
    }

    /// A shutdown request: waits while a write is in flight, starts the
    /// shutdown, or resumes the one in flight.
    pub fn poll_shutdown(&mut self) -> (r: Step)
        requires
            slots_ok(old(self)@),
        ensures
            slots_ok(final(self)@),
            (r, final(self)@) == shutdown_step(old(self)@),
    {
        if self.write.is_some() {
            Step::Wait
        } else if !self.shutdown {
            self.shutdown = true;
            Step::Start(0)
        } else {
            Step::Resume
        }
    }

    /// Records what polling the read in flight gave; a completed read frees
    /// the slot and its result is handed on unchanged.
    pub fn read_polled<E>(&mut self, p: Progress<usize, E>) -> (r: Progress<usize, E>)
        requires
            slots_ok(old(self)@),
            old(self)@.read is Some,
            p matches Progress::Ready(Ok(n)) ==> n <= old(self)@.read->0,
        ensures
            slots_ok(final(self)@),
            final(self)@ == read_polled(old(self)@, p),
            r == p,
    {
        if let Progress::Ready(_) = &p {
            self.read = None;
        }
        p
    }

    /// Records what polling the write in flight gave; a completed write frees
    /// the slot and its result is handed on unchanged.
    pub fn write_polled<E>(&mut self, p: Progress<usize, E>) -> (r: Progress<usize, E>)
        requires
            slots_ok(old(self)@),
            old(self)@.write is Some,
            p matches Progress::Ready(Ok(n)) ==> n <= old(self)@.write->0,
        ensures
            slots_ok(final(self)@),
            final(self)@ == write_polled(old(self)@, p),
            r == p,
    {
        if let Progress::Ready(_) = &p {
            self.write = None;
        }
        p
    }

    /// Records what polling the shutdown in flight gave; a completed
    /// shutdown frees the slot and its result is handed on unchanged.
    pub fn shutdown_polled<E>(&mut self, p: Progress<(), E>) -> (r: Progress<(), E>)
        requires
            slots_ok(old(self)@),
            old(self)@.shutdown,
        ensures
            slots_ok(final(self)@),
            final(self)@ == shutdown_polled(old(self)@, p),
            r == p,
    {
        if let Progress::Ready(_) = &p {
            self.shutdown = false;
        }
        p
    }
}

/// A shutdown requested while a write is in flight starts nothing and
/// changes nothing; once the write has completed, a shutdown starts. In the
/// same way a write waits for a shutdown in flight.
pub proof fn shutdown_waits_for_write<E>(s: Slots, len: usize, done: Result<usize, E>)
    requires
        slots_ok(s),
    ensures
        s.write is Some ==> shutdown_step(s) == (Step::Wait, s),
        s.write is Some && !s.shutdown ==> shutdown_step(
            write_polled(s, Progress::Ready(done)),
        ).0 == Step::Start(0),
        s.shutdown ==> write_step(s, len) == (Step::Wait, s),
{
}

/// A second read request while one is in flight starts nothing: the slot
/// keeps the first request's buffer size and the caller polls the same
/// operation.
pub proof fn read_single_flight(s: Slots, first: usize, second: usize)
    requires
        s.read is None,
    ensures
        read_step(s, first).0 == Step::Start(first),
        read_step(read_step(s, first).1, second) == (Step::Resume, read_step(s, first).1),
        read_step(read_step(s, first).1, second).1.read == Some(first),
{
}

} // verus!
