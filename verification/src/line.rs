use vstd::prelude::*;
use crate::head::LineType;

verus! {

/// Life stage of a line: it only ever moves forward in this order.
#[derive(Debug, Clone, Copy, PartialEq, Eq, Structural)]
pub enum Status {
    Baby,
    Working,
    Dead,
}

/// How an idle caller line is judged when the hub checks its pool.
#[derive(Debug, Clone, Copy, PartialEq, Eq, Structural)]
pub enum LineAge {
    Young,
    Old,
    Fail,
    Defalut,
}

/// What the stream reported when the queue was handed to it.
#[derive(Debug, Clone, Copy, PartialEq, Eq, Structural)]
pub enum WriteOutcome {
    /// This many bytes from the front of the queue were written.
    Wrote(usize),
    /// Nothing could be written right now.
    WouldBlock,
    /// The stream failed.
    Failed,
}

/// Position of a status in the order Baby < Working < Dead.
pub open spec fn status_rank(s: Status) -> int {
    match s {
        Status::Baby => 0,
        Status::Working => 1,
        Status::Dead => 2,
    }
}

/// The later of two statuses.
pub open spec fn later_status(a: Status, b: Status) -> Status {
    if status_rank(b) <= status_rank(a) {
        a
    } else {
        b
    }
}

/// The data a line holds, apart from its socket.
pub struct LineView {
    pub id: u64,
    pub partner_id: u64,
    pub status: Status,
    pub kind: LineType,
    pub queue: Seq<u8>,
    pub stage: u8,
    pub host: Seq<char>,
    pub read_close: bool,
    pub write_close: bool,
    pub born: u128,
}

/// One connection handled by the hub: its identity, the line it is paired
/// with, its life stage, and the bytes waiting to be written to it.
pub struct Line {
    id: u64,
    partner_id: u64,
    status: Status,
    kind: LineType,
    queue: Vec<u8>,
    stage: u8,
    host: String,
    read_close: bool,
    write_close: bool,
    born: u128,
}

impl View for Line {
    type V = LineView;

    closed spec fn view(&self) -> LineView {
        LineView {
            id: self.id,
            partner_id: self.partner_id,
            status: self.status,
            kind: self.kind,
            queue: self.queue@,
            stage: self.stage,
            host: self.host@,
            read_close: self.read_close,
            write_close: self.write_close,
            born: self.born,
        }
    }
}

impl Status {
    /// Position in the order Baby < Working < Dead.
    pub fn rank(&self) -> (r: u8)
        ensures
            r as int == status_rank(*self),
    {
        match self {
            Status::Baby => 0,
            Status::Working => 1,
            Status::Dead => 2,
        }
    }
}

//Get
impl Line {
    pub fn id(&self) -> (r: u64)
        ensures
            r == self@.id,
    {
        self.id
    }

    pub fn partner_id(&self) -> (r: u64)
        ensures
            r == self@.partner_id,
    {
        self.partner_id
    }

    pub fn status(&self) -> (r: Status)
        ensures
            r == self@.status,
    {
        self.status
    }

    pub fn kind(&self) -> (r: LineType)
        ensures
            r == self@.kind,
    {
        self.kind
    }

    pub fn queue(&self) -> (r: &Vec<u8>)
        ensures
            r@ == self@.queue,
    {
        &self.queue
    }

    pub fn stage(&self) -> (r: u8)
        ensures
            r == self@.stage,
    {
        self.stage
    }

    pub fn host(&self) -> (r: &String)
        ensures
            r@ == self@.host,
    {
        &self.host
    }

    pub fn is_dead(&self) -> (r: bool)
        ensures
            r == (self@.status == Status::Dead),
    {
        if self.status == Status::Dead {
            return true;
        }
        false
    }

    pub fn born_time(&self) -> (r: u128)
        ensures
            r == self@.born,
    {
        self.born
    }

    /// Whether the line should hand its queue to its stream now.
    pub fn can_send(&self) -> (r: bool)
        ensures
            r == (self@.status == Status::Working && self@.queue.len() > 0),
    {
        self.status == Status::Working && self.queue.len() > 0
    }
}

//Set
impl Line {
    /// A fresh line with no partner, an empty queue and no host, born at `now`.
    pub fn new(id: u64, kind: LineType, now: u128) -> (r: Line)
        ensures
            r@ == fresh_line(id, kind, now),
    {
        Line {
            id,
            partner_id: 0,
            status: Status::Baby,
            kind,
            queue: Vec::new(),
            stage: 0,
            host: String::new(),
            read_close: false,
            write_close: false,
            born: now,
        }
    }

    /// Pairs the line with `id` (0: no partner).
    pub fn set_partner_id(&mut self, id: u64)
        ensures
            final(self)@ == (LineView { partner_id: id, ..old(self)@ }),
    {
        if self.partner_id == id {
            return;
        }
        self.partner_id = id;
    }

    /// Moves the line to `v` unless it is already there or further on.
    pub fn set_status(&mut self, v: Status)
        ensures
            final(self)@ == (LineView { status: later_status(old(self)@.status, v), ..old(self)@ }),
    {
        if v.rank() <= self.status.rank() {
            return;
        }
        self.status = v;
    }

    /// Records that the peer closed its sending side.
    pub fn read_closed(&mut self)
        ensures
            final(self)@ == (LineView { read_close: true, ..old(self)@ }),
    {
        self.read_close = true;
    }

    /// Records that the peer closed its receiving side.
    pub fn write_closed(&mut self)
        ensures
            final(self)@ == (LineView { write_close: true, ..old(self)@ }),
    {
        self.write_close = true;
    }

    /// Advances the handshake stage by one.
    pub fn next_stage(&mut self)
        requires
            old(self)@.stage < 255,
        ensures
            final(self)@ == (LineView { stage: (old(self)@.stage + 1) as u8, ..old(self)@ }),
    {
        self.stage = self.stage + 1;
    }

    /// Records the target host. The tag tells where the host came from (0
    /// for a SOCKS5 request, the sender's line id for a received frame);
    /// the line does not keep it, and writing it to the `Establish` log is
    /// left to the caller.
    pub fn set_host(&mut self, str: String, tag: u64)
        ensures
            final(self)@ == (LineView { host: str@, ..old(self)@ }),
    {
        self.host = str;
    }
}

//[Queue]
impl Line {
    /// Appends `v` to the bytes waiting to be written.
    pub fn add_queue(&mut self, v: Vec<u8>)
        ensures
            final(self)@ == (LineView { queue: old(self)@.queue + v@, ..old(self)@ }),
    {
        if v.len() > 0 {
            let mut v = v;
            self.queue.append(&mut v);
        } else {
            assert(self.queue@ + v@ =~= self.queue@);
        }
    }

    /// Handles what the stream reported for the queue; returns whether the
    /// stream has to be shut down because the line just died.
    pub fn pour_queue(&mut self, outcome: WriteOutcome) -> (shutdown: bool)
        requires
            outcome matches WriteOutcome::Wrote(n) ==> n <= old(self)@.queue.len(),
        ensures
            match outcome {
                WriteOutcome::Wrote(n) => {
                    &&& final(self)@ == (LineView {
                        queue: old(self)@.queue.skip(n as int),
                        ..old(self)@
                    })
                    &&& !shutdown
                },
                WriteOutcome::WouldBlock => final(self)@ == old(self)@ && !shutdown,
                WriteOutcome::Failed => final(self)@ == died(old(self)@) && shutdown == (
                old(self)@.status == Status::Working),
            },
    {
        match outcome {
            WriteOutcome::Wrote(n) => {
                self.shrink_queue(n);
                false
            },
            WriteOutcome::WouldBlock => false,
            WriteOutcome::Failed => self.go_die(),
        }
    }

    /// Drops the first `n` queued bytes, which have been written.
    pub fn shrink_queue(&mut self, n: usize)
        requires
            n <= old(self)@.queue.len(),
        ensures
            final(self)@ == (LineView { queue: old(self)@.queue.skip(n as int), ..old(self)@ }),
    {
        let mut rest: Vec<u8> = Vec::new();
        let len = self.queue.len();
        let mut i = n;
        while i < len
            invariant
                len == self.queue@.len(),
                n <= i <= len,
                rest@ == self.queue@.subrange(n as int, i as int),
            decreases len - i,
        {
            rest.push(self.queue[i]);
            i = i + 1;
        }
        assert(rest@ =~= self.queue@.skip(n as int));
        self.queue = rest;
    }

    /// Drops every queued byte.
    pub fn clear_queue(&mut self)
        ensures
            final(self)@ == (LineView { queue: Seq::empty(), ..old(self)@ }),
    {
        self.queue.clear();
    }
}

/// A line as created: unpaired, Baby, nothing queued, stage 0, no host.
pub open spec fn fresh_line(id: u64, kind: LineType, now: u128) -> LineView {
    LineView {
        id,
        partner_id: 0,
        status: Status::Baby,
        kind,
        queue: Seq::empty(),
        stage: 0,
        host: Seq::empty(),
        read_close: false,
        write_close: false,
        born: now,
    }
}

/// A line after it died: nothing queued, no partner, status Dead.
pub open spec fn died(v: LineView) -> LineView {
    LineView { queue: Seq::empty(), partner_id: 0, status: Status::Dead, ..v }
}

impl Line {
    /// Ends the line: drops its queue, unpairs it and marks it dead.
    /// Returns whether its stream is still open and has to be shut down.
    pub fn go_die(&mut self) -> (shutdown: bool)
        ensures
            final(self)@ == died(old(self)@),
            shutdown == (old(self)@.status == Status::Working),
    {
        let shutdown = self.status == Status::Working;
        self.clear_queue();
        self.set_partner_id(0);
        self.set_status(Status::Dead);
        shutdown
    }

    /// The stream reported an error: the line is dead from now on.
    pub fn on_error(&mut self)
        ensures
            final(self)@ == (LineView { status: Status::Dead, ..old(self)@ }),
    {
        self.set_status(Status::Dead);
    }

    /// The stream became writable: the line is working unless already dead.
    pub fn on_writable(&mut self)
        ensures
            final(self)@ == (LineView {
                status: later_status(old(self)@.status, Status::Working),
                ..old(self)@
            }),
    {
        self.set_status(Status::Working);
    }
}

/// Bytes leave a queue in the order they entered it: writing part of the
/// old bytes after more were queued leaves the rest of the old bytes ahead
/// of the new ones.
pub proof fn lemma_queue_fifo(q: Seq<u8>, v: Seq<u8>, n: int)
    requires
        0 <= n <= q.len(),
    ensures
        (q + v).skip(n) == q.skip(n) + v,
{
    assert((q + v).skip(n) =~= q.skip(n) + v);
}

/// A line's status never moves backwards, whatever it is asked to become.
pub proof fn lemma_status_monotone(old_status: Status, v: Status)
    ensures
        status_rank(later_status(old_status, v)) >= status_rank(old_status),
        status_rank(later_status(old_status, v)) >= status_rank(v),
        later_status(Status::Dead, v) == Status::Dead,
{
}

} // verus!
