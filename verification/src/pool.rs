use vstd::prelude::*;
use std::collections::VecDeque;
use crate::head::LineType;
use crate::hub::{after_kill, hub_wf, Hub, HubView};
use crate::line::{died, LineAge, LineView, Status};

verus! {

/// A caller line's age class at time `now`: lines of other kinds and dead
/// lines are not judged; a line still waiting for its connection after 5 s
/// has failed; any line older than 3 min is old; the rest are young.
pub open spec fn line_age(v: LineView, now: u128) -> LineAge {
    if v.kind != LineType::Caller || v.status == Status::Dead {
        LineAge::Defalut
    } else if v.status == Status::Baby && now - v.born > 5 * 1000 {
        LineAge::Fail
    } else if now - v.born > 3 * 60 * 1000 {
        LineAge::Old
    } else {
        LineAge::Young
    }
}

/// The clock has not gone back behind the birth of a line that gets judged.
pub open spec fn age_defined(v: LineView, now: u128) -> bool {
    v.kind == LineType::Caller && v.status != Status::Dead ==> v.born <= now
}

/// The ids among `ids` whose line has age class `a`, in order.
pub open spec fn aged(ids: Seq<u64>, lines: Map<u64, LineView>, now: u128, a: LineAge) -> Seq<
    u64,
>
    decreases ids.len(),
{
    if ids.len() == 0 {
        Seq::empty()
    } else {
        let rest = aged(ids.drop_last(), lines, now, a);
        if line_age(lines[ids.last()], now) == a {
            rest.push(ids.last())
        } else {
            rest
        }
    }
}

/// The ids among `ids` whose line is working, in order.
pub open spec fn working_ids(ids: Seq<u64>, lines: Map<u64, LineView>) -> Seq<u64>
    decreases ids.len(),
{
    if ids.len() == 0 {
        Seq::empty()
    } else {
        let rest = working_ids(ids.drop_last(), lines);
        if lines[ids.last()].status == Status::Working {
            rest.push(ids.last())
        } else {
            rest
        }
    }
}

/// The hub after the lines `ids` died, one after the other.
pub open spec fn kill_seq(h: HubView, ids: Seq<u64>) -> HubView
    decreases ids.len(),
{
    if ids.len() == 0 {
        h
    } else {
        after_kill(kill_seq(h, ids.drop_last()), ids.last())
    }
}

/// What a sequence holds after a push: what it held, and the new element;
/// pushing an element it does not hold keeps it free of duplicates.
pub proof fn lemma_seq_push(s: Seq<u64>, y: u64)
    ensures
        forall|x: u64| #[trigger] s.push(y).contains(x) <==> (s.contains(x) || x == y),
        s.no_duplicates() && !s.contains(y) ==> s.push(y).no_duplicates(),
{
    let r = s.push(y);
    assert forall|x: u64| #[trigger] r.contains(x) <==> (s.contains(x) || x == y) by {
        if r.contains(x) {
            let i = choose|i: int| 0 <= i < r.len() && r[i] == x;
            if i < s.len() {
                assert(s[i] == x);
            }
        }
        if s.contains(x) {
            let i = choose|i: int| 0 <= i < s.len() && s[i] == x;
            assert(r[i] == x);
        }
        if x == y {
            assert(r[s.len() as int] == x);
        }
    }
    if s.no_duplicates() && !s.contains(y) {
        assert forall|i: int, j: int| 0 <= i < r.len() && 0 <= j < r.len() && i != j implies r[i]
            != r[j] by {
            if i == s.len() as int {
                assert(s[j] == r[j]);
            } else if j == s.len() as int {
                assert(s[i] == r[i]);
            }
        }
    }
}

/// A non-empty sequence is its front with its last element pushed; if it
/// has no duplicates, neither has its front, which lacks the last element.
pub proof fn lemma_seq_split_last(s: Seq<u64>)
    requires
        s.len() > 0,
    ensures
        s == s.drop_last().push(s.last()),
        s.no_duplicates() ==> s.drop_last().no_duplicates() && !s.drop_last().contains(s.last()),
{
    let pre = s.drop_last();
    assert(s =~= pre.push(s.last()));
    if s.no_duplicates() {
        assert forall|i: int, j: int|
            0 <= i < pre.len() && 0 <= j < pre.len() && i != j implies pre[i] != pre[j] by {
            assert(s[i] == pre[i] && s[j] == pre[j]);
        }
        if pre.contains(s.last()) {
            let i = choose|i: int| 0 <= i < pre.len() && pre[i] == s.last();
            assert(s[i] == s[s.len() - 1]);
        }
    }
}

/// What a concatenation holds is what either part holds; two disjoint
/// parts without duplicates make a whole without duplicates.
pub proof fn lemma_seq_concat(a: Seq<u64>, b: Seq<u64>)
    ensures
        forall|x: u64| #[trigger] (a + b).contains(x) <==> (a.contains(x) || b.contains(x)),
        a.no_duplicates() && b.no_duplicates() && (forall|x: u64|
            a.contains(x) ==> !b.contains(x)) ==> (a + b).no_duplicates(),
{
    let r = a + b;
    assert forall|x: u64| #[trigger] r.contains(x) <==> (a.contains(x) || b.contains(x)) by {
        if r.contains(x) {
            let i = choose|i: int| 0 <= i < r.len() && r[i] == x;
            if i < a.len() {
                assert(a[i] == x);
            } else {
                assert(b[i - a.len()] == x);
            }
        }
        if a.contains(x) {
            let i = choose|i: int| 0 <= i < a.len() && a[i] == x;
            assert(r[i] == x);
        }
        if b.contains(x) {
            let i = choose|i: int| 0 <= i < b.len() && b[i] == x;
            assert(r[a.len() + i] == x);
        }
    }
    if a.no_duplicates() && b.no_duplicates() && (forall|x: u64| a.contains(x) ==> !b.contains(x)) {
        assert forall|i: int, j: int| 0 <= i < r.len() && 0 <= j < r.len() && i != j implies r[i]
            != r[j] by {
            if i < a.len() && j < a.len() {
                assert(a[i] == r[i] && a[j] == r[j]);
            } else if i >= a.len() && j >= a.len() {
                assert(b[i - a.len()] == r[i] && b[j - a.len()] == r[j]);
            } else if i < a.len() {
                assert(a.contains(r[i]));
                assert(b[j - a.len()] == r[j]);
            } else {
                assert(a.contains(r[j]));
                assert(b[i - a.len()] == r[i]);
            }
        }
    }
}

/// One more element of a prefix: the longer prefix is the shorter one with
/// that element pushed; in a sequence without duplicates the shorter prefix
/// has none either and lacks that element.
pub proof fn lemma_take_step(s: Seq<u64>, j: int)
    requires
        0 <= j < s.len(),
    ensures
        s.take(j + 1) == s.take(j).push(s[j]),
        s.no_duplicates() ==> s.take(j).no_duplicates() && !s.take(j).contains(s[j]),
{
    assert(s.take(j + 1) =~= s.take(j).push(s[j]));
    if s.no_duplicates() {
        let pre = s.take(j);
        assert forall|a: int, b: int|
            0 <= a < pre.len() && 0 <= b < pre.len() && a != b implies pre[a] != pre[b] by {
            assert(s[a] == pre[a] && s[b] == pre[b]);
        }
        if pre.contains(s[j]) {
            let a = choose|a: int| 0 <= a < pre.len() && pre[a] == s[j];
            assert(s[a] == s[j]);
        }
    }
}

/// `aged` picks exactly the ids of the wanted class, keeps their order,
/// and picks no id twice if `ids` holds none twice.
pub proof fn lemma_aged(ids: Seq<u64>, lines: Map<u64, LineView>, now: u128, a: LineAge)
    ensures
        forall|x: u64| #[trigger]
            aged(ids, lines, now, a).contains(x) <==> (ids.contains(x) && line_age(lines[x], now)
                == a),
        ids.no_duplicates() ==> aged(ids, lines, now, a).no_duplicates(),
        aged(ids, lines, now, a).len() <= ids.len(),
    decreases ids.len(),
{
    if ids.len() > 0 {
        let pre = ids.drop_last();
        lemma_seq_split_last(ids);
        lemma_aged(pre, lines, now, a);
        lemma_seq_push(pre, ids.last());
        lemma_seq_push(aged(pre, lines, now, a), ids.last());
    }
}

/// `aged` keeps the order of `ids`: of two picked ids, the one picked first
/// stands earlier in `ids`.
pub proof fn lemma_aged_order(ids: Seq<u64>, lines: Map<u64, LineView>, now: u128, a: LineAge)
    requires
        ids.no_duplicates(),
    ensures
        forall|i: int, j: int, x: int, y: int|
            #![trigger ids[x], ids[y], aged(ids, lines, now, a)[i], aged(ids, lines, now, a)[j]]
            0 <= i < j < aged(ids, lines, now, a).len() && 0 <= x < ids.len() && 0 <= y < ids.len()
                && ids[x] == aged(ids, lines, now, a)[i] && ids[y] == aged(ids, lines, now, a)[j]
                ==> x < y,
    decreases ids.len(),
{
    if ids.len() > 0 {
        let pre = ids.drop_last();
        let last = ids.last();
        lemma_seq_split_last(ids);
        lemma_aged_order(pre, lines, now, a);
        lemma_aged(pre, lines, now, a);
        lemma_aged(ids, lines, now, a);
        let r = aged(pre, lines, now, a);
        let s = aged(ids, lines, now, a);
        assert forall|i: int, j: int, x: int, y: int|
            #![trigger ids[x], ids[y], s[i], s[j]]
            0 <= i < j < s.len() && 0 <= x < ids.len() && 0 <= y < ids.len() && ids[x] == s[i]
                && ids[y] == s[j] implies x < y by {
            // every element of r comes from pre, which does not hold `last`
            assert(r.contains(s[i])) by {
                assert(s[i] == r[i]);
            }
            assert(pre.contains(s[i]));
            if x == ids.len() - 1 {
                assert(pre.contains(last));
            }
            if j < r.len() {
                assert(s[j] == r[j]);
                assert(r.contains(s[j]));
                assert(pre.contains(s[j]));
                if y == ids.len() - 1 {
                    assert(pre.contains(last));
                }
                assert(pre[x] == ids[x] && pre[y] == ids[y]);
                assert(r[i] == s[i] && r[j] == s[j]);
            }
        }
    }
}

/// `working_ids` picks exactly the working lines among `ids`.
pub proof fn lemma_working_ids(ids: Seq<u64>, lines: Map<u64, LineView>)
    ensures
        forall|x: u64| #[trigger]
            working_ids(ids, lines).contains(x) <==> (ids.contains(x) && lines[x].status
                == Status::Working),
    decreases ids.len(),
{
    if ids.len() > 0 {
        let pre = ids.drop_last();
        lemma_seq_split_last(ids);
        lemma_working_ids(pre, lines);
        lemma_seq_push(pre, ids.last());
        lemma_seq_push(working_ids(pre, lines), ids.last());
    }
}

/// Killing distinct live lines one after the other kills exactly those
/// lines, leaves every other line as it was, keeps the same ids, and lists
/// the new dead in the order they died.
pub proof fn lemma_kill_seq(h: HubView, ids: Seq<u64>)
    requires
        ids.no_duplicates(),
        forall|i: int| 0 <= i < ids.len() ==> h.lines.contains_key(#[trigger] ids[i]),
        forall|i: int| 0 <= i < ids.len() ==> h.lines[#[trigger] ids[i]].status != Status::Dead,
    ensures
        kill_seq(h, ids).lines.dom() == h.lines.dom(),
        forall|k: u64| #[trigger]
            kill_seq(h, ids).lines.contains_key(k) ==> kill_seq(h, ids).lines[k] == if ids.contains(
                k,
            ) {
                died(h.lines[k])
            } else {
                h.lines[k]
            },
        kill_seq(h, ids).dead == h.dead + ids,
        kill_seq(h, ids).idle == h.idle,
        kill_seq(h, ids).key == h.key,
    decreases ids.len(),
{
    if ids.len() > 0 {
        let pre = ids.drop_last();
        let x = ids.last();
        lemma_seq_split_last(ids);
        lemma_seq_push(pre, x);
        assert forall|i: int| 0 <= i < pre.len() implies h.lines.contains_key(#[trigger] pre[i])
            && h.lines[pre[i]].status != Status::Dead by {
            assert(ids[i] == pre[i]);
        }
        lemma_kill_seq(h, pre);
        assert(h.lines.contains_key(x));
        assert(kill_seq(h, ids).lines.dom() =~= h.lines.dom());
        assert(h.dead + ids =~= (h.dead + pre).push(x));
    }
}

/// The ids among `ids` that `lines` still holds, in order.
pub open spec fn held_ids(ids: Seq<u64>, lines: Map<u64, LineView>) -> Seq<u64>
    decreases ids.len(),
{
    if ids.len() == 0 {
        Seq::empty()
    } else {
        let rest = held_ids(ids.drop_last(), lines);
        if lines.contains_key(ids.last()) {
            rest.push(ids.last())
        } else {
            rest
        }
    }
}

/// `lines` without the lines listed in `gone`.
pub open spec fn without(lines: Map<u64, LineView>, gone: Seq<u64>) -> Map<u64, LineView> {
    Map::new(|k: u64| lines.contains_key(k) && !gone.contains(k), |k: u64| lines[k])
}

/// The hub after the dead lines were swept out of it and out of the pool.
pub open spec fn after_dead_check(h: HubView) -> HubView {
    HubView {
        lines: without(h.lines, h.dead),
        idle: held_ids(h.idle, without(h.lines, h.dead)),
        dead: Seq::empty(),
        ..h
    }
}

/// `held_ids` picks exactly the held ids, and none twice if `ids` has none
/// twice.
pub proof fn lemma_held_ids(ids: Seq<u64>, lines: Map<u64, LineView>)
    ensures
        forall|x: u64| #[trigger]
            held_ids(ids, lines).contains(x) <==> (ids.contains(x) && lines.contains_key(x)),
        ids.no_duplicates() ==> held_ids(ids, lines).no_duplicates(),
    decreases ids.len(),
{
    if ids.len() > 0 {
        let pre = ids.drop_last();
        lemma_seq_split_last(ids);
        lemma_held_ids(pre, lines);
        lemma_seq_push(pre, ids.last());
        lemma_seq_push(held_ids(pre, lines), ids.last());
    }
}

/// The lines that the pool check kills (failed ones, then old ones) are
/// distinct live lines held by the hub, and they are exactly the pool's
/// failed and old callers.
pub proof fn lemma_doomed(h: HubView, now: u128)
    requires
        hub_wf(h),
    ensures
        ({
            let ids = aged(h.idle, h.lines, now, LineAge::Fail) + aged(
                h.idle,
                h.lines,
                now,
                LineAge::Old,
            );
            &&& ids.no_duplicates()
            &&& forall|a: int| 0 <= a < ids.len() ==> h.lines.contains_key(#[trigger] ids[a])
            &&& forall|a: int| 0 <= a < ids.len() ==> h.lines[#[trigger] ids[a]].status
                != Status::Dead
            &&& forall|x: u64| #[trigger]
                ids.contains(x) <==> (h.idle.contains(x) && (line_age(h.lines[x], now)
                    == LineAge::Fail || line_age(h.lines[x], now) == LineAge::Old))
        }),
{
    let f = aged(h.idle, h.lines, now, LineAge::Fail);
    let o = aged(h.idle, h.lines, now, LineAge::Old);
    let ids = f + o;
    lemma_aged(h.idle, h.lines, now, LineAge::Fail);
    lemma_aged(h.idle, h.lines, now, LineAge::Old);
    lemma_seq_concat(f, o);
    assert forall|a: int| 0 <= a < ids.len() implies h.lines.contains_key(#[trigger] ids[a])
        && h.lines[ids[a]].status != Status::Dead by {
        assert(ids.contains(ids[a]));
        let j = choose|j: int| 0 <= j < h.idle.len() && h.idle[j] == ids[a];
        assert(h.lines.contains_key(h.idle[j]));
    }
}

/// After the pool check, the pool holds exactly the idle callers that were
/// young, each still a live caller; the failed and old ones are dead and
/// out of the pool; every other line is as it was.
pub proof fn lemma_pool_after_check(h: HubView, now: u128)
    requires
        hub_wf(h),
        pool_ages_defined(h, now),
    ensures
        forall|x: u64| #[trigger]
            after_old_check(h, now).idle.contains(x) <==> (h.idle.contains(x) && line_age(
                h.lines[x],
                now,
            ) == LineAge::Young),
        forall|x: u64|
            after_old_check(h, now).idle.contains(x) ==> #[trigger] after_old_check(h, now).lines[x]
                == h.lines[x] && h.lines[x].status != Status::Dead,
        forall|x: u64|
            h.idle.contains(x) && (line_age(h.lines[x], now) == LineAge::Fail || line_age(
                h.lines[x],
                now,
            ) == LineAge::Old) ==> #[trigger] after_old_check(h, now).lines[x] == died(h.lines[x]),
        forall|x: u64|
            h.lines.contains_key(x) && !h.idle.contains(x) ==> #[trigger] after_old_check(
                h,
                now,
            ).lines[x] == h.lines[x],
        after_old_check(h, now).lines.dom() == h.lines.dom(),
{
    let ids = aged(h.idle, h.lines, now, LineAge::Fail) + aged(h.idle, h.lines, now, LineAge::Old);
    lemma_doomed(h, now);
    lemma_aged(h.idle, h.lines, now, LineAge::Young);
    lemma_kill_seq(h, ids);
    assert forall|x: u64| after_old_check(h, now).idle.contains(x) implies #[trigger] after_old_check(
        h,
        now,
    ).lines[x] == h.lines[x] && h.lines[x].status != Status::Dead by {
        let j = choose|j: int| 0 <= j < h.idle.len() && h.idle[j] == x;
        assert(h.lines.contains_key(h.idle[j]));
    }
    assert forall|x: u64|
        h.idle.contains(x) && (line_age(h.lines[x], now) == LineAge::Fail || line_age(
            h.lines[x],
            now,
        ) == LineAge::Old) implies #[trigger] after_old_check(h, now).lines[x] == died(
        h.lines[x],
    ) by {
        let j = choose|j: int| 0 <= j < h.idle.len() && h.idle[j] == x;
        assert(h.lines.contains_key(h.idle[j]));
    }
}

/// The pool check keeps the young callers in their pool order: of two
/// callers left in the pool, the one in front was in front before.
pub proof fn lemma_pool_check_keeps_order(h: HubView, now: u128)
    requires
        hub_wf(h),
    ensures
        forall|i: int, j: int, x: int, y: int|
            #![trigger h.idle[x], h.idle[y], after_old_check(h, now).idle[i], after_old_check(h, now).idle[j]]
            0 <= i < j < after_old_check(h, now).idle.len() && 0 <= x < h.idle.len() && 0 <= y
                < h.idle.len() && h.idle[x] == after_old_check(h, now).idle[i] && h.idle[y]
                == after_old_check(h, now).idle[j] ==> x < y,
{
    lemma_aged_order(h.idle, h.lines, now, LineAge::Young);
}

/// After the sweep, no dead line is left in the hub and the pool only
/// names lines the hub still holds.
pub proof fn lemma_sweep_leaves_no_dead(h: HubView)
    requires
        hub_wf(h),
    ensures
        forall|k: u64| #[trigger]
            after_dead_check(h).lines.contains_key(k) ==> after_dead_check(h).lines[k].status
                != Status::Dead,
        forall|k: u64|
            h.lines.contains_key(k) && h.lines[k].status != Status::Dead ==> #[trigger] after_dead_check(
                h,
            ).lines.contains_key(k),
{
    assert forall|k: u64| #[trigger] after_dead_check(h).lines.contains_key(k) implies after_dead_check(
        h,
    ).lines[k].status != Status::Dead by {
        assert(h.lines.contains_key(k));
    }
}

/// What the pool check found and did.
pub struct OldCheck {
    /// Idle callers kept.
    pub young: usize,
    /// Idle callers still not connected after 5 s, now dead.
    pub fail: usize,
    /// Idle callers older than 3 min, now dead.
    pub old: usize,
    /// Lines dead before the check and not yet swept.
    pub dead: usize,
    /// More than half the wanted pool failed to connect.
    pub alarm: bool,
    /// Lines whose streams have to be shut down.
    pub shutdown: Vec<u64>,
}

/// The hub after the pool check: failed and old idle callers died, in that
/// order, and only the young ones stay in the pool.
pub open spec fn after_old_check(h: HubView, now: u128) -> HubView {
    HubView {
        idle: aged(h.idle, h.lines, now, LineAge::Young),
        ..kill_seq(
            h,
            aged(h.idle, h.lines, now, LineAge::Fail) + aged(h.idle, h.lines, now, LineAge::Old),
        )
    }
}

/// Every idle caller can be judged at `now`.
pub open spec fn pool_ages_defined(h: HubView, now: u128) -> bool {
    forall|i: int| 0 <= i < h.idle.len() ==> age_defined(h.lines[#[trigger] h.idle[i]], now)
}

//[Caller pool]
impl Hub {
    /// The age class of line `id` at time `now`.
    pub fn age(&self, id: u64, now: u128) -> (r: LineAge)
        requires
            self@.lines.contains_key(id),
            age_defined(self@.lines[id], now),
        ensures
            r == line_age(self@.lines[id], now),
    {
        let v = self.get_line_by_id(id);
        if v.kind() != LineType::Caller {
            return LineAge::Defalut;
        }
        if v.status() == Status::Dead {
            return LineAge::Defalut;
        }
        let age = now - v.born_time();
        if v.status() == Status::Baby && age > 5 * 1000 {
            return LineAge::Fail;
        }
        if age > 3 * 60 * 1000 {
            return LineAge::Old;
        }
        LineAge::Young
    }

    /// Judges every idle caller at `now`: failed and old ones die and leave
    /// the pool, dead ones leave it, young ones stay in order.
    pub fn old_check(&mut self, now: u128, minimum_worker: u8) -> (r: OldCheck)
        requires
            hub_wf(old(self)@),
            pool_ages_defined(old(self)@, now),
        ensures
            hub_wf(final(self)@),
            final(self)@ == after_old_check(old(self)@, now),
            r.young == aged(old(self)@.idle, old(self)@.lines, now, LineAge::Young).len(),
            r.fail == aged(old(self)@.idle, old(self)@.lines, now, LineAge::Fail).len(),
            r.old == aged(old(self)@.idle, old(self)@.lines, now, LineAge::Old).len(),
            r.dead == old(self)@.dead.len(),
            r.alarm == (aged(old(self)@.idle, old(self)@.lines, now, LineAge::Fail).len()
                > minimum_worker / 2),
            r.shutdown@ == working_ids(
                aged(old(self)@.idle, old(self)@.lines, now, LineAge::Fail) + aged(
                    old(self)@.idle,
                    old(self)@.lines,
                    now,
                    LineAge::Old,
                ),
                old(self)@.lines,
            ),
    {
        let ghost h = self@;
        let mut fail: Vec<u64> = Vec::new();
        let mut old: Vec<u64> = Vec::new();
        let mut young: VecDeque<u64> = VecDeque::new();
        let n = self.idle_caller_list().len();
        let mut i: usize = 0;
        while i < n
            invariant
                self@ == h,
                hub_wf(h),
                pool_ages_defined(h, now),
                n == h.idle.len(),
                i <= n,
                young@ == aged(h.idle.take(i as int), h.lines, now, LineAge::Young),
                fail@ == aged(h.idle.take(i as int), h.lines, now, LineAge::Fail),
                old@ == aged(h.idle.take(i as int), h.lines, now, LineAge::Old),
            decreases n - i,
        {
            let id = self.idle_caller_list()[i];
            proof {
                assert(h.idle.take(i + 1).drop_last() =~= h.idle.take(i as int));
                assert(h.idle.take(i + 1).last() == h.idle[i as int]);
                assert(h.lines.contains_key(h.idle[i as int]));
            }
            match self.age(id, now) {
                LineAge::Young => {
                    young.push_back(id);
                },
                LineAge::Fail => {
                    fail.push(id);
                },
                LineAge::Old => {
                    old.push(id);
                },
                _ => {},
            }
            i = i + 1;
        }
        proof {
            assert(h.idle.take(n as int) =~= h.idle);
        }
        let ghost fa = fail@;
        let ghost ol = old@;
        let report_young = young.len();
        let report_fail = fail.len();
        let report_old = old.len();
        let report_dead = self.dead_count();
        let alarm = fail.len() > (minimum_worker / 2) as usize;
        let mut doomed = fail;
        doomed.append(&mut old);
        let ghost ids = doomed@;
        proof {
            lemma_doomed(h, now);
            lemma_aged(h.idle, h.lines, now, LineAge::Young);
            assert(ids == fa + ol);
        }
        let mut shutdown: Vec<u64> = Vec::new();
        let total = doomed.len();
        let mut j: usize = 0;
        while j < total
            invariant
                total == ids.len(),
                doomed@ == ids,
                j <= total,
                ids.no_duplicates(),
                forall|a: int| 0 <= a < ids.len() ==> h.lines.contains_key(#[trigger] ids[a]),
                forall|a: int| 0 <= a < ids.len() ==> h.lines[#[trigger] ids[a]].status != Status::Dead,
                self@ == kill_seq(h, ids.take(j as int)),
                hub_wf(self@),
                shutdown@ == working_ids(ids.take(j as int), h.lines),
            decreases total - j,
        {
            let id = doomed[j];
            proof {
                let pre = ids.take(j as int);
                lemma_take_step(ids, j as int);
                assert forall|a: int| 0 <= a < pre.len() implies h.lines.contains_key(#[trigger] pre[a])
                    && h.lines[pre[a]].status != Status::Dead by {
                    assert(ids[a] == pre[a]);
                }
                lemma_kill_seq(h, pre);
                assert(h.lines.contains_key(id));
                assert(ids.take(j + 1).drop_last() =~= pre);
                assert(ids.take(j + 1).last() == id);
            }
            if self.kill_line_by_id(id) {
                shutdown.push(id);
            }
            j = j + 1;
        }
        proof {
            assert(ids.take(total as int) =~= ids);
            lemma_kill_seq(h, ids);
        }
        let ghost k = self@;
        self.set_idle(young);
        proof {
            let y = aged(h.idle, h.lines, now, LineAge::Young);
            let f = self@;
            assert forall|a: int| 0 <= a < f.idle.len() implies f.lines.contains_key(
                #[trigger] f.idle[a],
            ) && f.lines[f.idle[a]].kind == LineType::Caller by {
                assert(y.contains(f.idle[a]));
                let b = choose|b: int| 0 <= b < h.idle.len() && h.idle[b] == f.idle[a];
                assert(h.lines.contains_key(h.idle[b]));
                assert(k.lines.contains_key(f.idle[a]));
            }
        }
        OldCheck {
            young: report_young,
            fail: report_fail,
            old: report_old,
            dead: report_dead,
            alarm,
            shutdown,
        }
    }
}

//[Sweep]
impl Hub {
    /// Sweeps the lines that died since the last sweep out of the hub and
    /// out of the pool; returns their ids so their sockets can be released.
    pub fn dead_check(&mut self) -> (removed: Vec<u64>)
        requires
            hub_wf(old(self)@),
        ensures
            removed@ == old(self)@.dead,
            final(self)@ == after_dead_check(old(self)@),
            hub_wf(final(self)@),
    {
        let ghost h = self@;
        let removed = self.take_dead();
        proof {
            assert(without(h.lines, h.dead.take(0)) =~= h.lines);
        }
        let total = removed.len();
        let mut j: usize = 0;
        while j < total
            invariant
                total == h.dead.len(),
                removed@ == h.dead,
                j <= total,
                self@ == (HubView {
                    lines: without(h.lines, h.dead.take(j as int)),
                    dead: Seq::empty(),
                    ..h
                }),
            decreases total - j,
        {
            let id = removed[j];
            self.remove_line(id);
            proof {
                let pre = h.dead.take(j as int);
                let nxt = h.dead.take(j + 1);
                lemma_take_step(h.dead, j as int);
                lemma_seq_push(pre, id);
                assert(self@.lines =~= without(h.lines, nxt));
            }
            j = j + 1;
        }
        proof {
            assert(h.dead.take(total as int) =~= h.dead);
        }
        let ghost lines = self@.lines;
        let mut kept: VecDeque<u64> = VecDeque::new();
        let n = self.idle_caller_list().len();
        let mut i: usize = 0;
        while i < n
            invariant
                n == h.idle.len(),
                i <= n,
                self@ == (HubView { lines, dead: Seq::empty(), ..h }),
                kept@ == held_ids(h.idle.take(i as int), lines),
            decreases n - i,
        {
            let id = self.idle_caller_list()[i];
            proof {
                assert(h.idle.take(i + 1).drop_last() =~= h.idle.take(i as int));
                assert(h.idle.take(i + 1).last() == h.idle[i as int]);
            }
            if self.contains(id) {
                kept.push_back(id);
            }
            i = i + 1;
        }
        proof {
            assert(h.idle.take(n as int) =~= h.idle);
        }
        self.set_idle(kept);
        proof {
            let f = self@;
            lemma_held_ids(h.idle, lines);
            assert forall|a: int| 0 <= a < f.idle.len() implies f.lines.contains_key(
                #[trigger] f.idle[a],
            ) && f.lines[f.idle[a]].kind == LineType::Caller by {
                assert(held_ids(h.idle, lines).contains(f.idle[a]));
                let b = choose|b: int| 0 <= b < h.idle.len() && h.idle[b] == f.idle[a];
                assert(h.lines.contains_key(h.idle[b]));
            }
            assert forall|k: u64| #[trigger] f.lines.contains_key(k) implies (f.lines[k].status
                == Status::Dead <==> f.dead.contains(k)) by {
                assert(h.lines.contains_key(k));
                assert(!h.dead.contains(k));
            }
        }
        removed
    }

    /// How many caller lines to open so the pool holds at least `need`: none
    /// when it already does, otherwise `need` more.
    pub fn health_check(&self, need: u8) -> (r: u8)
        ensures
            r == if self@.idle.len() < need {
                need
            } else {
                0
            },
    {
        let have = self.idle_caller_count();
        if have < need as usize {
            need
        } else {
            0
        }
    }
}

/// What a full check of the hub found and what is left to do.
pub struct CheckPlan {
    /// The pool check's findings.
    pub report: OldCheck,
    /// Lines swept out of the hub.
    pub removed: Vec<u64>,
    /// Caller lines to open and add to the pool.
    pub add_callers: u8,
}

impl Hub {
    /// Checks the pool at `now`, sweeps dead lines, and tells how many
    /// caller lines the pool is short of.
    pub fn check(&mut self, now: u128, minimum_worker: u8) -> (r: CheckPlan)
        requires
            hub_wf(old(self)@),
            pool_ages_defined(old(self)@, now),
        ensures
            hub_wf(final(self)@),
            final(self)@ == after_dead_check(after_old_check(old(self)@, now)),
            r.removed@ == after_old_check(old(self)@, now).dead,
            r.add_callers == if final(self)@.idle.len() < minimum_worker {
                minimum_worker
            } else {
                0
            },
            r.report.fail == aged(old(self)@.idle, old(self)@.lines, now, LineAge::Fail).len(),
            r.report.old == aged(old(self)@.idle, old(self)@.lines, now, LineAge::Old).len(),
            r.report.young == aged(old(self)@.idle, old(self)@.lines, now, LineAge::Young).len(),
            r.report.alarm == (aged(old(self)@.idle, old(self)@.lines, now, LineAge::Fail).len()
                > minimum_worker / 2),
            r.report.dead == old(self)@.dead.len(),
            r.report.shutdown@ == working_ids(
                aged(old(self)@.idle, old(self)@.lines, now, LineAge::Fail) + aged(
                    old(self)@.idle,
                    old(self)@.lines,
                    now,
                    LineAge::Old,
                ),
                old(self)@.lines,
            ),
    {
        let report = self.old_check(now, minimum_worker);
        let removed = self.dead_check();
        let add_callers = self.health_check(minimum_worker);
        CheckPlan { report, removed, add_callers }
    }
}

} // verus!
