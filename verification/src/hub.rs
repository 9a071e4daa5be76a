use vstd::prelude::*;
use std::collections::HashMap;
use std::collections::VecDeque;
use crate::head::LineType;
use crate::fox::{fox_data_ok, fox_step};
use crate::line::{died, fresh_line, later_status, Line, LineView, Status, WriteOutcome};

verus! {

broadcast use vstd::std_specs::hash::group_hash_axioms;

/// The data a hub holds: the last id it handed out, its lines by id, the
/// idle caller lines waiting for a browser connection (oldest first), and
/// the lines that died since the last sweep (in order of death).
pub struct HubView {
    pub key: u64,
    pub lines: Map<u64, LineView>,
    pub idle: Seq<u64>,
    pub dead: Seq<u64>,
}

/// The hub's bookkeeping is consistent: each line is stored under its own
/// id, no id is above the last one handed out, idle entries are distinct
/// caller lines, and the dead list names exactly the dead lines, once each.
pub open spec fn hub_wf(h: HubView) -> bool {
    &&& forall|k: u64| #[trigger] h.lines.contains_key(k) ==> h.lines[k].id == k && 0 < k <= h.key
    &&& forall|i: int|
        0 <= i < h.idle.len() ==> h.lines.contains_key(#[trigger] h.idle[i]) && h.lines[h.idle[i]].kind
            == LineType::Caller
    &&& h.idle.no_duplicates()
    &&& h.dead.no_duplicates()
    &&& forall|i: int| 0 <= i < h.dead.len() ==> h.lines.contains_key(#[trigger] h.dead[i])
    &&& forall|k: u64| #[trigger]
        h.lines.contains_key(k) ==> (h.lines[k].status == Status::Dead <==> h.dead.contains(k))
}

/// The hub after the line `id` died, counting it among the dead if it was
/// alive.
pub open spec fn after_kill(h: HubView, id: u64) -> HubView {
    HubView {
        lines: h.lines.insert(id, died(h.lines[id])),
        dead: if h.lines[id].status == Status::Dead {
            h.dead
        } else {
            h.dead.push(id)
        },
        ..h
    }
}

/// The hub after `k` and the line it is paired with (if that line is
/// still held) both died.
pub open spec fn after_dead_pair(h: HubView, k: u64) -> HubView {
    let p = h.lines[k].partner_id;
    let h1 = after_kill(h, k);
    if p != 0 && h.lines.contains_key(p) {
        after_kill(h1, p)
    } else {
        h1
    }
}

/// Which of `k` and its partner had a working stream when the pair died.
pub open spec fn dead_pair_shutdowns(h: HubView, k: u64) -> Seq<u64> {
    let p = h.lines[k].partner_id;
    let first = if h.lines[k].status == Status::Working {
        seq![k]
    } else {
        Seq::empty()
    };
    if p != 0 && h.lines.contains_key(p) && p != k && h.lines[p].status == Status::Working {
        first.push(p)
    } else {
        first
    }
}

/// The streams shut down when `k`'s stream failed: those of the ended pair
/// but `k`'s own.
pub open spec fn error_shutdowns(h: HubView, k: u64) -> Seq<u64> {
    dead_pair_shutdowns(h, k).filter(|id: u64| id != k)
}

/// Replacing a line by one with the same id, kind and deadness keeps the
/// hub consistent.
pub proof fn lemma_wf_replace(h: HubView, id: u64, v: LineView)
    requires
        hub_wf(h),
        h.lines.contains_key(id),
        v.id == id,
        v.kind == h.lines[id].kind,
        (v.status == Status::Dead) == (h.lines[id].status == Status::Dead),
    ensures
        hub_wf(HubView { lines: h.lines.insert(id, v), ..h }),
{
    let n = HubView { lines: h.lines.insert(id, v), ..h };
    assert forall|i: int| 0 <= i < n.idle.len() implies n.lines.contains_key(
        #[trigger] n.idle[i],
    ) && n.lines[n.idle[i]].kind == LineType::Caller by {
        assert(h.lines.contains_key(h.idle[i]));
    }
    assert forall|k: u64| #[trigger] n.lines.contains_key(k) implies (n.lines[k].status
        == Status::Dead <==> n.dead.contains(k)) by {
        assert(h.lines.contains_key(k));
    }
    assert forall|i: int| 0 <= i < n.dead.len() implies n.lines.contains_key(
        #[trigger] n.dead[i],
    ) by {
        assert(h.lines.contains_key(h.dead[i]));
    }
}

proof fn lemma_remove_insert(m: Map<u64, LineView>, k: u64, v: LineView)
    ensures
        m.remove(k).insert(k, v) == m.insert(k, v),
{
    assert(m.remove(k).insert(k, v) =~= m.insert(k, v));
}

/// What the hub did with bytes read from a line.
pub enum Route {
    /// Nothing has to be sent yet.
    Nothing,
    /// The bytes were queued on this line.
    Forwarded(u64),
    /// A browser-facing line has bytes for the remote side but no caller
    /// line yet: run the pool check, then `attach_caller`.
    NeedsCaller(Vec<u8>),
}

/// Readiness reported by the poller for one line.
#[derive(Debug, Clone, Copy, PartialEq, Eq, Structural)]
pub struct EventFlags {
    pub error: bool,
    pub writable: bool,
    pub readable: bool,
    pub write_closed: bool,
    pub read_closed: bool,
}

/// What is left to do for an event after `process`.
pub enum EventStep {
    /// The line is dead: the event is only worth a log line.
    Ignore,
    /// The stream failed; the line and its partner are dead. These streams
    /// have to be shut down.
    Failed(Vec<u64>),
    /// Flush the line's queue if it became writable, read from it if it is
    /// readable (and hand the bytes to `on_data`), then call `finish`.
    Continue { send: bool, read: bool },
}

/// The hub after `d` was queued on line `p`.
pub open spec fn tunneled(h: HubView, p: u64, d: Seq<u8>) -> HubView {
    HubView {
        lines: h.lines.insert(p, LineView { queue: h.lines[p].queue + d, ..h.lines[p] }),
        ..h
    }
}

/// Whether `on_data` can take `buf` read from line `k`: the line's step
/// must accept it, and a line that forwards must have a held partner.
pub open spec fn on_data_ok(h: HubView, k: u64, buf: Seq<u8>) -> bool {
    let v = h.lines[k];
    buf.len() > 0 ==> if v.kind == LineType::Fox {
        &&& fox_data_ok(v, buf)
        &&& fox_step(v, buf).1 is Some && v.partner_id != 0 ==> h.lines.contains_key(
            v.partner_id,
        )
    } else {
        v.partner_id != 0 && h.lines.contains_key(v.partner_id)
    }
}

/// The hub after browser-facing line `k` was paired with caller line `c`
/// and `d` was queued on `c`.
pub open spec fn attached(h: HubView, k: u64, c: u64, d: Seq<u8>) -> HubView {
    HubView {
        lines: h.lines.insert(
            c,
            LineView { partner_id: k, queue: h.lines[c].queue + d, ..h.lines[c] },
        ).insert(k, LineView { partner_id: c, ..h.lines[k] }),
        idle: h.idle.drop_first(),
        ..h
    }
}

/// Attaching a caller pairs the two lines with each other and leaves
/// every other line as it was.
pub proof fn lemma_attach_pairs(h: HubView, k: u64, c: u64, d: Seq<u8>)
    requires
        k != c,
    ensures
        attached(h, k, c, d).lines[k].partner_id == c,
        attached(h, k, c, d).lines[c].partner_id == k,
        attached(h, k, c, d).lines[c].queue == h.lines[c].queue + d,
        forall|x: u64|
            x != k && x != c && h.lines.contains_key(x) ==> #[trigger] attached(h, k, c, d).lines[x]
                == h.lines[x],
{
}

/// Taking a caller for a browser line takes the oldest one out of the pool
/// and keeps the others in order; so the next browser line gets a
/// different caller (the next oldest).
pub proof fn lemma_attach_takes_oldest(h: HubView, k: u64, d: Seq<u8>, k2: u64, d2: Seq<u8>)
    requires
        hub_wf(h),
        h.idle.len() > 0,
    ensures
        ({
            let c = h.idle[0];
            let h1 = attached(h, k, c, d);
            &&& !h1.idle.contains(c)
            &&& h1.idle.len() == h.idle.len() - 1
            &&& forall|i: int| 0 <= i < h1.idle.len() ==> #[trigger] h1.idle[i] == h.idle[i + 1]
            &&& h.idle.len() > 1 ==> h1.idle[0] != c && attached(h1, k2, h1.idle[0], d2).lines[
                h1.idle[0]].partner_id == k2
        }),
{
    let c = h.idle[0];
    let h1 = attached(h, k, c, d);
    assert forall|i: int| 0 <= i < h1.idle.len() implies #[trigger] h1.idle[i] == h.idle[i + 1] by {}
    if h1.idle.contains(c) {
        let i = choose|i: int| 0 <= i < h1.idle.len() && h1.idle[i] == c;
        assert(h.idle[i + 1] == h.idle[0]);
    }
}

/// Which streams are shut down when a pair ends: `k`'s exactly when it was
/// working, and its partner's exactly when the partner is held, is another
/// line and was working, whatever `k`'s own status. On a stream error the
/// list is the same without `k`.
pub proof fn lemma_dead_pair_shutdowns(h: HubView, k: u64)
    ensures
        ({
            let p = h.lines[k].partner_id;
            let partner_open = p != 0 && h.lines.contains_key(p) && p != k && h.lines[p].status
                == Status::Working;
            &&& forall|x: u64| #[trigger]
                dead_pair_shutdowns(h, k).contains(x) <==> ((x == k && h.lines[k].status
                    == Status::Working) || (x == p && partner_open))
            &&& forall|x: u64| #[trigger]
                error_shutdowns(h, k).contains(x) <==> (x == p && partner_open)
        }),
{
    let p = h.lines[k].partner_id;
    let sd = dead_pair_shutdowns(h, k);
    let first: Seq<u64> = if h.lines[k].status == Status::Working {
        seq![k]
    } else {
        Seq::empty()
    };
    reveal_with_fuel(Seq::filter, 3);
    assert forall|x: u64| #[trigger] first.contains(x) <==> (x == k && h.lines[k].status
        == Status::Working) by {
        if first.contains(x) {
            let i = choose|i: int| 0 <= i < first.len() && first[i] == x;
        }
        if x == k && h.lines[k].status == Status::Working {
            assert(first[0] == x);
        }
    }
    assert forall|x: u64| #[trigger] sd.contains(x) <==> ((x == k && h.lines[k].status
        == Status::Working) || (x == p && p != 0 && h.lines.contains_key(p) && p != k
        && h.lines[p].status == Status::Working)) by {
        if p != 0 && h.lines.contains_key(p) && p != k && h.lines[p].status == Status::Working {
            crate::pool::lemma_seq_push(first, p);
        }
    }
    let f = sd.filter(|id: u64| id != k);
    if h.lines[k].status == Status::Working {
        assert(seq![k].filter(|id: u64| id != k) =~= Seq::<u64>::empty()) by {
            assert(seq![k].drop_last() =~= Seq::<u64>::empty());
        }
        if sd.len() == 2 {
            assert(sd.drop_last() =~= seq![k]);
            assert(f =~= seq![p]);
        } else {
            assert(sd =~= seq![k]);
            assert(f =~= Seq::<u64>::empty());
        }
    } else if sd.len() == 1 {
        assert(sd =~= seq![p]);
        assert(sd.drop_last() =~= Seq::<u64>::empty());
        assert(f =~= seq![p]);
    } else {
        assert(sd =~= Seq::<u64>::empty());
        assert(f =~= Seq::<u64>::empty());
    }
    assert forall|x: u64| #[trigger] f.contains(x) <==> (x == p && p != 0 && h.lines.contains_key(p)
        && p != k && h.lines[p].status == Status::Working) by {
        if f.contains(x) {
            let i = choose|i: int| 0 <= i < f.len() && f[i] == x;
        }
        if x == p && p != 0 && h.lines.contains_key(p) && p != k && h.lines[p].status
            == Status::Working {
            assert(f[0] == p);
        }
    }
}

/// When a line's pair ends, both lines are dead, unpaired and have nothing
/// queued, and no other line changes.
pub proof fn lemma_dead_pair_kills_both(h: HubView, k: u64)
    requires
        hub_wf(h),
        h.lines.contains_key(k),
    ensures
        ({
            let p = h.lines[k].partner_id;
            let n = after_dead_pair(h, k);
            &&& n.lines[k] == died(h.lines[k])
            &&& p != 0 && h.lines.contains_key(p) ==> n.lines[p] == died(h.lines[p])
            &&& forall|x: u64|
                x != k && x != p && h.lines.contains_key(x) ==> #[trigger] n.lines[x] == h.lines[x]
            &&& n.lines.dom() == h.lines.dom()
        }),
{
    let p = h.lines[k].partner_id;
    let n = after_dead_pair(h, k);
    assert(n.lines.dom() =~= h.lines.dom());
    if p != 0 && h.lines.contains_key(p) && p == k {
        assert(died(died(h.lines[k])) == died(h.lines[k]));
    }
}

/// Owns every line of a listener, keyed by id (the id doubles as the poll token
/// of the line's socket), and the pool of idle caller lines.
pub struct Hub {
    key: u64,
    m: HashMap<u64, Line>,
    idle: VecDeque<u64>,
    dead: Vec<u64>,
}

impl View for Hub {
    type V = HubView;

    closed spec fn view(&self) -> HubView {
        HubView {
            key: self.key,
            lines: self.m@.map_values(|l: Line| l@),
            idle: self.idle@,
            dead: self.dead@,
        }
    }
}

//Set
impl Hub {
    /// An empty hub whose line ids will start right after `key`.
    pub fn new(key: u64) -> (r: Hub)
        ensures
            r@ == (HubView { key, lines: Map::empty(), idle: Seq::empty(), dead: Seq::empty() }),
            hub_wf(r@),
    {
        let r = Hub { key, m: HashMap::new(), idle: VecDeque::new(), dead: Vec::new() };
        assert(r@.lines =~= Map::empty());
        r
    }
}

//[Private]
impl Hub {
    fn take_line(&mut self, id: u64) -> (l: Line)
        requires
            old(self)@.lines.contains_key(id),
        ensures
            l@ == old(self)@.lines[id],
            final(self)@ == (HubView { lines: old(self)@.lines.remove(id), ..old(self)@ }),
    {
        let l = self.m.remove(&id).unwrap();
        proof {
            assert(self@.lines =~= old(self)@.lines.remove(id));
        }
        l
    }

    fn put_line(&mut self, id: u64, l: Line)
        ensures
            final(self)@ == (HubView { lines: old(self)@.lines.insert(id, l@), ..old(self)@ }),
    {
        let ghost v = l@;
        self.m.insert(id, l);
        proof {
            assert(self@.lines =~= old(self)@.lines.insert(id, v));
        }
    }
}

//[Crate]
impl Hub {
    /// Replaces the idle pool.
    pub(crate) fn set_idle(&mut self, idle: VecDeque<u64>)
        ensures
            final(self)@ == (HubView { idle: idle@, ..old(self)@ }),
    {
        self.idle = idle;
    }

    /// Drops the line `id`, if held.
    pub(crate) fn remove_line(&mut self, id: u64)
        ensures
            final(self)@ == (HubView { lines: old(self)@.lines.remove(id), ..old(self)@ }),
    {
        self.m.remove(&id);
        proof {
            assert(self@.lines =~= old(self)@.lines.remove(id));
        }
    }

    /// Hands out the dead list and leaves it empty.
    pub(crate) fn take_dead(&mut self) -> (r: Vec<u64>)
        ensures
            r@ == old(self)@.dead,
            final(self)@ == (HubView { dead: Seq::empty(), ..old(self)@ }),
    {
        let mut d: Vec<u64> = Vec::new();
        std::mem::swap(&mut d, &mut self.dead);
        d
    }
}

//Lines
impl Hub {
    /// Creates a line of `kind` born at `now` under the next free id and
    /// returns that id.
    pub fn new_line(&mut self, kind: LineType, now: u128) -> (id: u64)
        requires
            hub_wf(old(self)@),
            old(self)@.key < u64::MAX,
        ensures
            id == old(self)@.key + 1,
            !old(self)@.lines.contains_key(id),
            final(self)@ == (HubView {
                key: id,
                lines: old(self)@.lines.insert(id, fresh_line(id, kind, now)),
                ..old(self)@
            }),
            hub_wf(final(self)@),
    {
        let id = self.key + 1;
        self.key = id;
        let line = Line::new(id, kind, now);
        self.put_line(id, line);
        id
    }

    /// Creates a caller line born at `now` and puts it at the back of the
    /// idle pool; returns its id.
    pub fn add_one_caller(&mut self, now: u128) -> (id: u64)
        requires
            hub_wf(old(self)@),
            old(self)@.key < u64::MAX,
        ensures
            id == old(self)@.key + 1,
            final(self)@ == (HubView {
                key: id,
                lines: old(self)@.lines.insert(id, fresh_line(id, LineType::Caller, now)),
                idle: old(self)@.idle.push(id),
                ..old(self)@
            }),
            hub_wf(final(self)@),
    {
        let id = self.new_line(LineType::Caller, now);
        proof {
            if old(self)@.idle.contains(id) {
                let i = choose|i: int| 0 <= i < old(self)@.idle.len() && old(self)@.idle[i] == id;
                assert(old(self)@.lines.contains_key(old(self)@.idle[i]));
            }
        }
        self.add_idle_caller(id);
        id
    }

    /// Adds a caller line to the back of the idle pool.
    pub fn add_idle_caller(&mut self, id: u64)
        requires
            hub_wf(old(self)@),
            old(self)@.lines.contains_key(id),
            old(self)@.lines[id].kind == LineType::Caller,
            !old(self)@.idle.contains(id),
        ensures
            final(self)@ == (HubView { idle: old(self)@.idle.push(id), ..old(self)@ }),
            hub_wf(final(self)@),
    {
        self.idle.push_back(id);
        proof {
            assert forall|i: int| 0 <= i < self@.idle.len() implies self@.lines.contains_key(
                #[trigger] self@.idle[i],
            ) && self@.lines[self@.idle[i]].kind == LineType::Caller by {
                if i < old(self)@.idle.len() {
                    assert(self@.idle[i] == old(self)@.idle[i]);
                }
            }
        }
    }

    /// Takes the oldest idle caller line out of the pool.
    pub fn idle_caller(&mut self) -> (r: Option<u64>)
        requires
            hub_wf(old(self)@),
        ensures
            old(self)@.idle.len() == 0 ==> r is None && final(self)@ == old(self)@,
            old(self)@.idle.len() > 0 ==> r == Some(old(self)@.idle[0]) && final(self)@ == (
            HubView { idle: old(self)@.idle.drop_first(), ..old(self)@ }),
            hub_wf(final(self)@),
    {
        let r = self.idle.pop_front();
        proof {
            if old(self)@.idle.len() > 0 {
                assert(self@.idle =~= old(self)@.idle.drop_first());
                assert forall|i: int| 0 <= i < self@.idle.len() implies self@.lines.contains_key(
                    #[trigger] self@.idle[i],
                ) && self@.lines[self@.idle[i]].kind == LineType::Caller by {
                    assert(self@.idle[i] == old(self)@.idle[i + 1]);
                }
            }
        }
        r
    }

    /// Ends the line `id` (see `Line::go_die`); returns whether its stream
    /// has to be shut down.
    pub fn kill_line_by_id(&mut self, id: u64) -> (shutdown: bool)
        requires
            hub_wf(old(self)@),
            old(self)@.lines.contains_key(id),
        ensures
            final(self)@ == after_kill(old(self)@, id),
            shutdown == (old(self)@.lines[id].status == Status::Working),
            hub_wf(final(self)@),
    {
        let mut line = self.take_line(id);
        let was_dead = line.is_dead();
        let shutdown = line.go_die();
        self.put_line(id, line);
        if !was_dead {
            self.dead.push(id);
        }
        proof {
            let o = old(self)@;
            let n = self@;
            assert(n.lines =~= o.lines.insert(id, died(o.lines[id])));
            assert forall|k: u64| #[trigger] n.lines.contains_key(k) implies (n.lines[k].status
                == Status::Dead <==> n.dead.contains(k)) by {
                if k != id {
                    assert(o.lines.contains_key(k));
                    if !was_dead {
                        assert(n.dead.contains(k) <==> o.dead.contains(k)) by {
                            if n.dead.contains(k) {
                                let i = choose|i: int| 0 <= i < n.dead.len() && n.dead[i] == k;
                                assert(i < o.dead.len());
                            }
                            if o.dead.contains(k) {
                                let i = choose|i: int| 0 <= i < o.dead.len() && o.dead[i] == k;
                                assert(n.dead[i] == k);
                            }
                        }
                    }
                } else {
                    if !was_dead {
                        assert(n.dead[n.dead.len() - 1] == id);
                    }
                }
            }
            assert forall|i: int| 0 <= i < n.dead.len() implies n.lines.contains_key(
                #[trigger] n.dead[i],
            ) by {
                if i < o.dead.len() {
                    assert(n.dead[i] == o.dead[i]);
                }
            }
            if !was_dead {
                assert(!o.dead.contains(id));
                assert forall|i: int, j: int|
                    0 <= i < n.dead.len() && 0 <= j < n.dead.len() && i != j implies n.dead[i]
                    != n.dead[j] by {
                    if i == o.dead.len() as int {
                        assert(o.dead[j] == n.dead[j]);
                    } else if j == o.dead.len() as int {
                        assert(o.dead[i] == n.dead[i]);
                    } else {
                        assert(o.dead[i] == n.dead[i] && o.dead[j] == n.dead[j]);
                    }
                }
            }
            assert forall|i: int| 0 <= i < n.idle.len() implies n.lines.contains_key(
                #[trigger] n.idle[i],
            ) && n.lines[n.idle[i]].kind == LineType::Caller by {
                assert(o.lines.contains_key(o.idle[i]));
            }
        }
        shutdown
    }
}

//Events
impl Hub {
    /// Ends the line `k` and the line it is paired with; returns the ids
    /// whose streams have to be shut down.
    pub fn dead_pair(&mut self, k: u64) -> (shutdown: Vec<u64>)
        requires
            hub_wf(old(self)@),
            old(self)@.lines.contains_key(k),
        ensures
            final(self)@ == after_dead_pair(old(self)@, k),
            shutdown@ == dead_pair_shutdowns(old(self)@, k),
            hub_wf(final(self)@),
    {
        let pid = self.get_line_by_id(k).partner_id();
        let mut shutdown: Vec<u64> = Vec::new();
        if self.kill_line_by_id(k) {
            shutdown.push(k);
        }
        if pid != 0 && self.contains(pid) {
            if self.kill_line_by_id(pid) {
                shutdown.push(pid);
            }
        }
        proof {
            let o = old(self)@;
            let h1 = after_kill(o, k);
            if pid != 0 && o.lines.contains_key(pid) {
                assert(pid != k ==> h1.lines[pid] == o.lines[pid]);
            }
            assert(shutdown@ =~= dead_pair_shutdowns(o, k));
        }
        shutdown
    }

    /// The stream of `k` reported an error: the line is dead, and so is its
    /// partner. Returns the ids whose streams have to be shut down (never
    /// `k`, whose stream failed).
    pub fn on_error(&mut self, k: u64) -> (shutdown: Vec<u64>)
        requires
            hub_wf(old(self)@),
            old(self)@.lines.contains_key(k),
        ensures
            final(self)@ == after_dead_pair(old(self)@, k),
            shutdown@ == dead_pair_shutdowns(old(self)@, k).filter(|id: u64| id != k),
            hub_wf(final(self)@),
    {
        let pid = self.get_line_by_id(k).partner_id();
        self.kill_line_by_id(k);
        let mut shutdown: Vec<u64> = Vec::new();
        if pid != 0 && self.contains(pid) {
            if self.kill_line_by_id(pid) {
                shutdown.push(pid);
            }
        }
        proof {
            let o = old(self)@;
            let h1 = after_kill(o, k);
            if pid != 0 && o.lines.contains_key(pid) {
                assert(pid != k ==> h1.lines[pid] == o.lines[pid]);
            }
            let d = dead_pair_shutdowns(o, k);
            reveal_with_fuel(Seq::filter, 3);
            if o.lines[k].status == Status::Working {
                assert(seq![k].filter(|id: u64| id != k) =~= Seq::<u64>::empty()) by {
                    reveal_with_fuel(Seq::filter, 2);
                    assert(seq![k].drop_last() =~= Seq::<u64>::empty());
                }
                if d.len() == 2 {
                    assert(d.drop_last() =~= seq![k]);
                }
            } else if d.len() == 1 {
                assert(d.drop_last() =~= Seq::<u64>::empty());
            }
            assert(shutdown@ =~= d.filter(|id: u64| id != k));
        }
        shutdown
    }

    /// The stream of `k` became writable.
    pub fn on_writable(&mut self, k: u64)
        requires
            hub_wf(old(self)@),
            old(self)@.lines.contains_key(k),
        ensures
            final(self)@ == (HubView {
                lines: old(self)@.lines.insert(
                    k,
                    LineView {
                        status: later_status(old(self)@.lines[k].status, Status::Working),
                        ..old(self)@.lines[k]
                    },
                ),
                ..old(self)@
            }),
            hub_wf(final(self)@),
    {
        let mut line = self.take_line(k);
        line.on_writable();
        proof {
            lemma_wf_replace(old(self)@, k, line@);
            lemma_remove_insert(old(self)@.lines, k, line@);
        }
        self.put_line(k, line);
    }

    /// The peer of `k` closed its receiving side.
    pub fn on_write_closed(&mut self, k: u64)
        requires
            hub_wf(old(self)@),
            old(self)@.lines.contains_key(k),
        ensures
            final(self)@ == (HubView {
                lines: old(self)@.lines.insert(
                    k,
                    LineView { write_close: true, ..old(self)@.lines[k] },
                ),
                ..old(self)@
            }),
            hub_wf(final(self)@),
    {
        let mut line = self.take_line(k);
        line.write_closed();
        proof {
            lemma_wf_replace(old(self)@, k, line@);
            lemma_remove_insert(old(self)@.lines, k, line@);
        }
        self.put_line(k, line);
    }

    /// The peer of `k` closed its sending side: the pair is over. Returns
    /// the ids whose streams have to be shut down.
    pub fn on_read_closed(&mut self, k: u64) -> (shutdown: Vec<u64>)
        requires
            hub_wf(old(self)@),
            old(self)@.lines.contains_key(k),
        ensures
            ({
                let h = HubView {
                    lines: old(self)@.lines.insert(
                        k,
                        LineView { read_close: true, ..old(self)@.lines[k] },
                    ),
                    ..old(self)@
                };
                &&& final(self)@ == after_dead_pair(h, k)
                &&& shutdown@ == dead_pair_shutdowns(h, k)
            }),
            hub_wf(final(self)@),
    {
        let mut line = self.take_line(k);
        line.read_closed();
        proof {
            lemma_wf_replace(old(self)@, k, line@);
            lemma_remove_insert(old(self)@.lines, k, line@);
        }
        self.put_line(k, line);
        self.dead_pair(k)
    }

    /// Handles what the stream of `k` reported when handed its queue;
    /// returns whether the stream has to be shut down.
    pub fn pour_queue(&mut self, k: u64, outcome: WriteOutcome) -> (shutdown: bool)
        requires
            hub_wf(old(self)@),
            old(self)@.lines.contains_key(k),
            outcome matches WriteOutcome::Wrote(n) ==> n <= old(self)@.lines[k].queue.len(),
        ensures
            match outcome {
                WriteOutcome::Wrote(n) => final(self)@ == (HubView {
                    lines: old(self)@.lines.insert(
                        k,
                        LineView {
                            queue: old(self)@.lines[k].queue.skip(n as int),
                            ..old(self)@.lines[k]
                        },
                    ),
                    ..old(self)@
                }) && !shutdown,
                WriteOutcome::WouldBlock => final(self)@ == old(self)@ && !shutdown,
                WriteOutcome::Failed => final(self)@ == after_kill(old(self)@, k) && shutdown == (
                old(self)@.lines[k].status == Status::Working),
            },
            hub_wf(final(self)@),
    {
        match outcome {
            WriteOutcome::Failed => self.kill_line_by_id(k),
            WriteOutcome::WouldBlock => false,
            WriteOutcome::Wrote(n) => {
                let mut line = self.take_line(k);
                line.pour_queue(outcome);
                proof {
                    lemma_wf_replace(old(self)@, k, line@);
                    lemma_remove_insert(old(self)@.lines, k, line@);
                }
                self.put_line(k, line);
                false
            },
        }
    }
}

//Dispatch
impl Hub {
    /// First half of handling a poll event for line `k`: a dead line
    /// ignores it; an error ends the pair; otherwise a writable stream makes
    /// the line working.
    pub fn process(&mut self, k: u64, ev: EventFlags) -> (r: EventStep)
        requires
            hub_wf(old(self)@),
            old(self)@.lines.contains_key(k),
        ensures
            hub_wf(final(self)@),
            old(self)@.lines[k].status == Status::Dead ==> r is Ignore && final(self)@ == old(
                self,
            )@,
            old(self)@.lines[k].status != Status::Dead && ev.error ==> final(self)@
                == after_dead_pair(old(self)@, k) && (r matches EventStep::Failed(ids) && ids@
                == dead_pair_shutdowns(old(self)@, k).filter(|id: u64| id != k)),
            old(self)@.lines[k].status != Status::Dead && !ev.error ==> r == (EventStep::Continue {
                send: ev.writable,
                read: ev.readable,
            }) && final(self)@ == if ev.writable {
                HubView {
                    lines: old(self)@.lines.insert(
                        k,
                        LineView { status: Status::Working, ..old(self)@.lines[k] },
                    ),
                    ..old(self)@
                }
            } else {
                old(self)@
            },
    {
        if self.get_line_by_id(k).is_dead() {
            return EventStep::Ignore;
        }
        if ev.error {
            let ids = self.on_error(k);
            return EventStep::Failed(ids);
        }
        if ev.writable {
            self.on_writable(k);
            proof {
                assert(later_status(old(self)@.lines[k].status, Status::Working) == Status::Working);
            }
        }
        EventStep::Continue { send: ev.writable, read: ev.readable }
    }

    /// Second half of handling a poll event for line `k`: records closed
    /// directions; a closed reading side ends the pair. Returns the streams
    /// to shut down.
    pub fn finish(&mut self, k: u64, ev: EventFlags) -> (shutdown: Vec<u64>)
        requires
            hub_wf(old(self)@),
            old(self)@.lines.contains_key(k),
        ensures
            hub_wf(final(self)@),
            ({
                let h = if ev.write_closed {
                    HubView {
                        lines: old(self)@.lines.insert(
                            k,
                            LineView { write_close: true, ..old(self)@.lines[k] },
                        ),
                        ..old(self)@
                    }
                } else {
                    old(self)@
                };
                let h2 = HubView {
                    lines: h.lines.insert(k, LineView { read_close: true, ..h.lines[k] }),
                    ..h
                };
                if ev.read_closed {
                    final(self)@ == after_dead_pair(h2, k) && shutdown@ == dead_pair_shutdowns(h2, k)
                } else {
                    final(self)@ == h && shutdown@.len() == 0
                }
            }),
    {
        if ev.write_closed {
            self.on_write_closed(k);
        }
        if ev.read_closed {
            self.on_read_closed(k)
        } else {
            Vec::new()
        }
    }
}

//Data
impl Hub {
    fn tunnel(&mut self, pid: u64, data: Vec<u8>)
        requires
            hub_wf(old(self)@),
            old(self)@.lines.contains_key(pid),
        ensures
            final(self)@ == tunneled(old(self)@, pid, data@),
            hub_wf(final(self)@),
    {
        let mut line = self.take_line(pid);
        line.add_queue(data);
        proof {
            lemma_wf_replace(old(self)@, pid, line@);
            lemma_remove_insert(old(self)@.lines, pid, line@);
        }
        self.put_line(pid, line);
    }

    /// Whether `on_data` can take `buf` read from line `k`.
    pub fn can_take_data(&self, k: u64, buf: &Vec<u8>) -> (r: bool)
        requires
            self@.lines.contains_key(k),
        ensures
            r == on_data_ok(self@, k, buf@),
    {
        if buf.len() == 0 {
            return true;
        }
        let line = self.get_line_by_id(k);
        let pid = line.partner_id();
        if line.kind() == LineType::Fox {
            if !line.fox_data_accepts(buf.as_slice()) {
                return false;
            }
            if line.stage() >= 2 && pid != 0 {
                return self.contains(pid);
            }
            true
        } else {
            pid != 0 && self.contains(pid)
        }
    }

    /// Bytes were read from line `k`: a browser-facing line runs its
    /// SOCKS5 step and forwards what it produces to its caller line; any
    /// other line forwards the bytes to its partner.
    pub fn on_data(&mut self, k: u64, buf: Vec<u8>) -> (r: Route)
        requires
            hub_wf(old(self)@),
            old(self)@.lines.contains_key(k),
            on_data_ok(old(self)@, k, buf@),
        ensures
            hub_wf(final(self)@),
            buf@.len() == 0 ==> r is Nothing && final(self)@ == old(self)@,
            buf@.len() > 0 && old(self)@.lines[k].kind == LineType::Fox ==> ({
                let v = old(self)@.lines[k];
                let h1 = HubView {
                    lines: old(self)@.lines.insert(k, fox_step(v, buf@).0),
                    ..old(self)@
                };
                match fox_step(v, buf@).1 {
                    None => r is Nothing && final(self)@ == h1,
                    Some(d) => if v.partner_id != 0 {
                        r == Route::Forwarded(v.partner_id) && final(self)@ == tunneled(
                            h1,
                            v.partner_id,
                            d,
                        )
                    } else {
                        r matches Route::NeedsCaller(out) && out@ == d && final(self)@ == h1
                    },
                }
            }),
            buf@.len() > 0 && old(self)@.lines[k].kind != LineType::Fox ==> r == Route::Forwarded(
                old(self)@.lines[k].partner_id,
            ) && final(self)@ == tunneled(old(self)@, old(self)@.lines[k].partner_id, buf@),
    {
        if buf.len() == 0 {
            return Route::Nothing;
        }
        let line = self.get_line_by_id(k);
        let pid = line.partner_id();
        if line.kind() == LineType::Fox {
            let mut line = self.take_line(k);
            let out = line.fox_data(buf);
            proof {
                lemma_wf_replace(old(self)@, k, line@);
                lemma_remove_insert(old(self)@.lines, k, line@);
            }
            self.put_line(k, line);
            match out {
                None => Route::Nothing,
                Some(data) => {
                    if pid != 0 {
                        self.tunnel(pid, data);
                        Route::Forwarded(pid)
                    } else {
                        Route::NeedsCaller(data)
                    }
                },
            }
        } else {
            self.tunnel(pid, buf);
            Route::Forwarded(pid)
        }
    }

    /// Pairs browser-facing line `k` with the oldest idle caller line and
    /// queues `data` on that caller; `None` when the pool is empty.
    pub fn attach_caller(&mut self, k: u64, data: Vec<u8>) -> (r: Option<u64>)
        requires
            hub_wf(old(self)@),
            old(self)@.lines.contains_key(k),
            !old(self)@.idle.contains(k),
        ensures
            hub_wf(final(self)@),
            old(self)@.idle.len() == 0 ==> r is None && final(self)@ == old(self)@,
            old(self)@.idle.len() > 0 ==> r == Some(old(self)@.idle[0]) && final(self)@
                == attached(old(self)@, k, old(self)@.idle[0], data@),
    {
        let c = match self.idle_caller() {
            None => return None,
            Some(c) => c,
        };
        proof {
            assert(old(self)@.idle[0] == c);
            assert(c != k);
        }
        let ghost h0 = self@;
        let mut caller = self.take_line(c);
        caller.set_partner_id(k);
        caller.add_queue(data);
        proof {
            lemma_wf_replace(h0, c, caller@);
            lemma_remove_insert(h0.lines, c, caller@);
        }
        self.put_line(c, caller);
        let ghost h1 = self@;
        let mut fox = self.take_line(k);
        fox.set_partner_id(c);
        proof {
            lemma_wf_replace(h1, k, fox@);
            lemma_remove_insert(h1.lines, k, fox@);
        }
        self.put_line(k, fox);
        Some(c)
    }
}

//Get
impl Hub {
    /// Whether a line with this id is held.
    pub fn contains(&self, id: u64) -> (r: bool)
        ensures
            r == self@.lines.contains_key(id),
    {
        self.m.contains_key(&id)
    }

    /// The line with this id.
    pub fn get_line_by_id(&self, id: u64) -> (r: &Line)
        requires
            self@.lines.contains_key(id),
        ensures
            r@ == self@.lines[id],
    {
        self.m.get(&id).unwrap()
    }

    /// Whether another line id can still be handed out.
    pub fn key_available(&self) -> (r: bool)
        ensures
            r == (self@.key < u64::MAX),
    {
        self.key < u64::MAX
    }

    /// Number of idle caller lines.
    pub fn idle_caller_count(&self) -> (r: usize)
        ensures
            r == self@.idle.len(),
    {
        self.idle.len()
    }

    /// The idle caller lines, oldest first.
    pub fn idle_caller_list(&self) -> (r: &VecDeque<u64>)
        ensures
            r@ == self@.idle,
    {
        &self.idle
    }

    /// Number of lines that died since the last sweep.
    pub fn dead_count(&self) -> (r: usize)
        ensures
            r == self@.dead.len(),
    {
        self.dead.len()
    }
}

} // verus!
