//! Bounded per-device work: each device has at most one piece of work, at
//! most `limit` run at once, and queued work starts in arrival order as soon
//! as a running one ends. The work itself is held and run by the caller,
//! keyed by device serial; this type decides what starts and what stops.
use vstd::prelude::*;
use crate::text::str_eq;

verus! {

pub struct DeviceTasks {
    limit: usize,
    queued: Vec<String>,
    active: Vec<String>,
}

pub struct TasksView {
    pub limit: nat,
    pub queued: Seq<Seq<char>>,
    pub active: Seq<Seq<char>>,
}

pub open spec fn views(s: Seq<String>) -> Seq<Seq<char>> {
    s.map_values(|x: String| x@)
}

pub open spec fn distinct(s: Seq<Seq<char>>) -> bool {
    forall|i: int, j: int| 0 <= i < s.len() && 0 <= j < s.len() && i != j ==> s[i] != s[j]
}

pub open spec fn disjoint(a: Seq<Seq<char>>, b: Seq<Seq<char>>) -> bool {
    forall|i: int, j: int| 0 <= i < a.len() && 0 <= j < b.len() ==> a[i] != b[j]
}

/// `s` without `k`.
pub open spec fn without(s: Seq<Seq<char>>, k: Seq<char>) -> Seq<Seq<char>>
    decreases s.len(),
{
    if s.len() == 0 {
        s
    } else if s.last() == k {
        without(s.drop_last(), k)
    } else {
        without(s.drop_last(), k).push(s.last())
    }
}

impl TasksView {
    /// At most `limit` running, every device once, and no work waiting while
    /// there is room to run it.
    pub open spec fn wf(self) -> bool {
        &&& self.limit > 0
        &&& self.active.len() <= self.limit
        &&& distinct(self.queued)
        &&& distinct(self.active)
        &&& disjoint(self.queued, self.active)
        &&& (self.active.len() < self.limit ==> self.queued.len() == 0)
    }

    pub open spec fn contains(self, serial: Seq<char>) -> bool {
        self.queued.contains(serial) || self.active.contains(serial)
    }

    /// How much queued work fits into the free slots.
    pub open spec fn room(self) -> nat {
        if self.active.len() >= self.limit {
            0
        } else if self.queued.len() < self.limit - self.active.len() {
            self.queued.len()
        } else {
            (self.limit - self.active.len()) as nat
        }
    }

    /// The queued work that starts now, oldest first.
    pub open spec fn starting(self) -> Seq<Seq<char>> {
        self.queued.take(self.room() as int)
    }

    /// The state once every free slot has taken the oldest queued work.
    pub open spec fn settled(self) -> TasksView {
        TasksView {
            limit: self.limit,
            queued: self.queued.skip(self.room() as int),
            active: self.active + self.starting(),
        }
    }
}

impl View for DeviceTasks {
    type V = TasksView;

    closed spec fn view(&self) -> TasksView {
        TasksView { limit: self.limit as nat, queued: views(self.queued@), active: views(self.active@) }
    }
}

/// Whether a list holds the serial.
fn holds(list: &Vec<String>, serial: &str) -> (r: bool)
    ensures
        r == views(list@).contains(serial@),
{
    let mut i: usize = 0;
    while i < list.len()
        invariant
            i <= list@.len(),
            forall|j: int| 0 <= j < i ==> views(list@)[j] != serial@,
        decreases list@.len() - i,
    {
        if str_eq(list[i].as_str(), serial) {
            assert(views(list@)[i as int] == serial@);
            return true;
        }
        i = i + 1;
    }
    false
}

/// The list without the serial.
fn drop_serial(list: &mut Vec<String>, serial: &str)
    ensures
        views(final(list)@) == without(views(old(list)@), serial@),
{
    let ghost all = views(list@);
    let mut kept: Vec<String> = Vec::new();
    let mut rest: Vec<String> = Vec::new();
    std::mem::swap(&mut rest, list);
    let mut i: usize = 0;
    let n = rest.len();
    assert(all.subrange(0, 0) =~= Seq::<Seq<char>>::empty());
    while i < n
        invariant
            n == rest@.len(),
            i <= n,
            views(rest@) == all,
            views(kept@) == without(all.subrange(0, i as int), serial@),
        decreases n - i,
    {
        let ghost prev = all.subrange(0, i as int);
        assert(all.subrange(0, i + 1).drop_last() == prev);
        assert(all.subrange(0, i + 1).last() == all[i as int]);
        if !str_eq(rest[i].as_str(), serial) {
            let ghost before = views(kept@);
            kept.push(rest[i].clone());
            assert(views(kept@) =~= before.push(all[i as int]));
        }
        i = i + 1;
    }
    assert(all.subrange(0, n as int) == all);
    *list = kept;
}

proof fn lemma_without_contents(s: Seq<Seq<char>>, k: Seq<char>)
    ensures
        forall|x: Seq<char>| #[trigger] without(s, k).contains(x) <==> (s.contains(x) && x != k),
        distinct(s) ==> distinct(without(s, k)),
    decreases s.len(),
{
    if s.len() > 0 {
        let d = s.drop_last();
        lemma_without_contents(d, k);
        let w = without(d, k);
        assert forall|x: Seq<char>| #[trigger] without(s, k).contains(x) <==> (s.contains(x) && x
            != k) by {
            if s.contains(x) && x != k {
                let i = choose|i: int| 0 <= i < s.len() && s[i] == x;
                if i < s.len() - 1 {
                    assert(d[i] == x);
                    assert(d.contains(x));
                    assert(w.contains(x));
                    if s.last() != k {
                        let j = choose|j: int| 0 <= j < w.len() && w[j] == x;
                        assert(w.push(s.last())[j] == x);
                    }
                } else {
                    assert(s.last() == x);
                    assert(w.push(s.last())[w.len() as int] == x);
                }
            }
            if without(s, k).contains(x) {
                if s.last() == k {
                    assert(w.contains(x));
                    let i = choose|i: int| 0 <= i < d.len() && d[i] == x;
                    assert(s[i] == x);
                } else {
                    let p = w.push(s.last());
                    let i = choose|i: int| 0 <= i < p.len() && p[i] == x;
                    if i < w.len() {
                        assert(w[i] == x);
                        assert(w.contains(x));
                        let j = choose|j: int| 0 <= j < d.len() && d[j] == x;
                        assert(s[j] == x);
                    } else {
                        assert(s[s.len() - 1] == x);
                    }
                }
            }
        }
        if distinct(s) {
            assert(distinct(d)) by {
                assert forall|i: int, j: int| 0 <= i < d.len() && 0 <= j < d.len() && i != j implies d[i]
                    != d[j] by {
                    assert(d[i] == s[i] && d[j] == s[j]);
                }
            }
            if s.last() != k {
                assert(!w.contains(s.last())) by {
                    if w.contains(s.last()) {
                        let i = choose|i: int| 0 <= i < d.len() && d[i] == s.last();
                        assert(s[i] == s[s.len() - 1]);
                    }
                }
                let p = w.push(s.last());
                assert forall|i: int, j: int| 0 <= i < p.len() && 0 <= j < p.len() && i != j implies p[i]
                    != p[j] by {
                    if i < w.len() && j < w.len() {
                        assert(p[i] == w[i] && p[j] == w[j]);
                    } else if i < w.len() {
                        assert(p[i] == w[i]);
                        assert(w.contains(p[i]));
                    } else {
                        assert(p[j] == w[j]);
                        assert(w.contains(p[j]));
                    }
                }
            }
        }
    }
}

proof fn lemma_settled_wf(v: TasksView)
    requires
        v.limit > 0,
        v.active.len() <= v.limit,
        distinct(v.queued),
        distinct(v.active),
        disjoint(v.queued, v.active),
    ensures
        v.settled().wf(),
        forall|x: Seq<char>| #[trigger] v.settled().contains(x) <==> v.contains(x),
        v.settled().active.len() >= v.active.len(),
{
    let m = v.room() as int;
    let s = v.settled();
    let q = v.queued;
    let a = v.active;
    assert(s.queued == q.skip(m));
    assert(s.active == a + q.take(m));
    assert forall|i: int, j: int| 0 <= i < s.active.len() && 0 <= j < s.active.len() && i != j implies s.active[i]
        != s.active[j] by {
        if i < a.len() && j < a.len() {
        } else if i < a.len() {
            assert(s.active[j] == q[j - a.len()]);
        } else if j < a.len() {
            assert(s.active[i] == q[i - a.len()]);
        } else {
            assert(s.active[i] == q[i - a.len()] && s.active[j] == q[j - a.len()]);
        }
    }
    assert forall|i: int, j: int| 0 <= i < s.queued.len() && 0 <= j < s.queued.len() && i != j implies s.queued[i]
        != s.queued[j] by {
        assert(s.queued[i] == q[i + m] && s.queued[j] == q[j + m]);
    }
    assert forall|i: int, j: int| 0 <= i < s.queued.len() && 0 <= j < s.active.len() implies s.queued[i]
        != s.active[j] by {
        assert(s.queued[i] == q[i + m]);
        if j >= a.len() {
            assert(s.active[j] == q[j - a.len()]);
        }
    }
    assert forall|x: Seq<char>| #[trigger] s.contains(x) <==> v.contains(x) by {
        if q.contains(x) {
            let i = choose|i: int| 0 <= i < q.len() && q[i] == x;
            if i < m {
                assert(s.active[a.len() + i] == x);
            } else {
                assert(s.queued[i - m] == x);
            }
        }
        if a.contains(x) {
            let i = choose|i: int| 0 <= i < a.len() && a[i] == x;
            assert(s.active[i] == x);
        }
        if s.queued.contains(x) {
            let i = choose|i: int| 0 <= i < s.queued.len() && s.queued[i] == x;
            assert(q[i + m] == x);
        }
        if s.active.contains(x) {
            let i = choose|i: int| 0 <= i < s.active.len() && s.active[i] == x;
            if i < a.len() {
                assert(a[i] == x);
            } else {
                assert(q[i - a.len()] == x);
            }
        }
    }
}

impl DeviceTasks {
    pub closed spec fn wf(&self) -> bool {
        self@.wf()
    }

    /// No work, at most `limit` running at once.
    pub fn new(limit: usize) -> (r: DeviceTasks)
        requires
            limit > 0,
        ensures
            r.wf(),
            r@.limit == limit,
            r@.queued.len() == 0,
            r@.active.len() == 0,
    {
        let r = DeviceTasks { limit, queued: Vec::new(), active: Vec::new() };
        assert(views(r.queued@) =~= Seq::<Seq<char>>::empty());
        assert(views(r.active@) =~= Seq::<Seq<char>>::empty());
        r
    }

    /// Whether the device has work, queued or running.
    pub fn contains(&self, serial: &str) -> (r: bool)
        ensures
            r == self@.contains(serial@),
    {
        holds(&self.active, serial) || holds(&self.queued, serial)
    }

    /// Move queued work into free slots, oldest first; the serials started.
    fn start_ready(&mut self) -> (started: Vec<String>)
        requires
            old(self)@.limit > 0,
            old(self)@.active.len() <= old(self)@.limit,
        ensures
            final(self)@ == old(self)@.settled(),
            views(started@) == old(self)@.starting(),
    {
        let ghost v = self@;
        let ghost m = v.room() as int;
        let mut started: Vec<String> = Vec::new();
        let mut k: usize = 0;
        assert(v.queued.take(0) =~= Seq::<Seq<char>>::empty());
        assert(v.queued.skip(0) =~= v.queued);
        assert(v.active + v.queued.take(0) =~= v.active);
        while self.active.len() < self.limit && self.queued.len() > 0
            invariant
                self.limit as nat == v.limit,
                v.limit > 0,
                v.active.len() <= v.limit,
                m == v.room(),
                0 <= k <= m,
                k <= v.queued.len(),
                self.active@.len() == v.active.len() + k,
                self.queued@.len() == v.queued.len() - k,
                views(self.queued@) == v.queued.skip(k as int),
                views(self.active@) == v.active + v.queued.take(k as int),
                views(started@) == v.queued.take(k as int),
            decreases self.queued@.len(),
        {
            assert(views(self.queued@)[0] == v.queued[k as int]);
            let serial = self.queued.remove(0);
            proof {
                assert(serial@ == v.queued[k as int]);
                assert(v.queued.skip(k as int).drop_first() =~= v.queued.skip(k + 1));
                assert(v.queued.take(k + 1) =~= v.queued.take(k as int).push(v.queued[k as int]));
            }
            let ghost before_active = views(self.active@);
            let ghost before_started = views(started@);
            self.active.push(serial.clone());
            started.push(serial);
            assert(views(self.active@) =~= before_active.push(v.queued[k as int]));
            assert(views(started@) =~= before_started.push(v.queued[k as int]));
            assert(views(self.queued@) =~= v.queued.skip(k + 1));
            k = k + 1;
        }
        started
    }

    /// Queue work for a device that has none and start what fits. A device
    /// that already has work keeps it: the result is `None` and nothing
    /// changes. Otherwise the result lists the devices whose work starts now,
    /// oldest first.
    pub fn schedule(&mut self, serial: String) -> (r: Option<Vec<String>>)
        requires
            old(self).wf(),
        ensures
            final(self).wf(),
            old(self)@.contains(serial@) ==> r is None && final(self)@ == old(self)@,
            !old(self)@.contains(serial@) ==> (r matches Some(started) && ({
                let queued = TasksView {
                    queued: old(self)@.queued.push(serial@),
                    ..old(self)@
                };
                &&& final(self)@ == queued.settled()
                &&& views(started@) == queued.starting()
            })),
    {
        if self.contains(serial.as_str()) {
            return None;
        }
        let ghost v = self@;
        let ghost before = views(self.queued@);
        self.queued.push(serial);
        assert(views(self.queued@) =~= before.push(serial@));
        proof {
            let q = v.queued.push(serial@);
            assert forall|i: int, j: int| 0 <= i < q.len() && 0 <= j < q.len() && i != j implies q[i]
                != q[j] by {
                if i == q.len() - 1 {
                    assert(v.queued[j] == q[j]);
                } else if j == q.len() - 1 {
                    assert(v.queued[i] == q[i]);
                }
            }
            assert forall|i: int, j: int| 0 <= i < q.len() && 0 <= j < v.active.len() implies q[i]
                != v.active[j] by {
                if i == q.len() - 1 {
                    assert(v.active.contains(v.active[j]));
                }
            }
            lemma_settled_wf(self@);
        }
        let started = self.start_ready();
        Some(started)
    }

    /// Record that a device's running work ended; queued work takes its slot.
    /// The result lists the devices whose work starts now.
    pub fn finished(&mut self, serial: &str) -> (started: Vec<String>)
        requires
            old(self).wf(),
        ensures
            final(self).wf(),
            ({
                let ended = TasksView { active: without(old(self)@.active, serial@), ..old(self)@ };
                &&& final(self)@ == ended.settled()
                &&& views(started@) == ended.starting()
            }),
    {
        let ghost v = self@;
        drop_serial(&mut self.active, serial);
        proof {
            lemma_without_contents(v.active, serial@);
            let a = without(v.active, serial@);
            assert forall|i: int, j: int| 0 <= i < v.queued.len() && 0 <= j < a.len() implies v.queued[i]
                != a[j] by {
                assert(a.contains(a[j]));
                assert(v.active.contains(a[j]));
                let k = choose|k: int| 0 <= k < v.active.len() && v.active[k] == a[j];
            }
            lemma_without_len(v.active, serial@);
            lemma_settled_wf(self@);
        }
        self.start_ready()
    }

    /// Withdraw a device's work: queued work is dropped, and running work
    /// stops and is handed back to the caller to await (`true`); free slots
    /// are refilled. The result also lists the devices whose work starts now.
    pub fn retire(&mut self, serial: &str) -> (r: (bool, Vec<String>))
        requires
            old(self).wf(),
        ensures
            final(self).wf(),
            r.0 == old(self)@.active.contains(serial@),
            ({
                let gone = TasksView {
                    queued: without(old(self)@.queued, serial@),
                    active: without(old(self)@.active, serial@),
                    ..old(self)@
                };
                &&& final(self)@ == gone.settled()
                &&& views(r.1@) == gone.starting()
            }),
    {
        let ghost v = self@;
        let was_active = holds(&self.active, serial);
        drop_serial(&mut self.queued, serial);
        drop_serial(&mut self.active, serial);
        proof {
            lemma_without_contents(v.active, serial@);
            lemma_without_contents(v.queued, serial@);
            let a = without(v.active, serial@);
            let q = without(v.queued, serial@);
            assert forall|i: int, j: int| 0 <= i < q.len() && 0 <= j < a.len() implies q[i] != a[j] by {
                assert(a.contains(a[j]));
                assert(q.contains(q[i]));
                let k = choose|k: int| 0 <= k < v.active.len() && v.active[k] == a[j];
                let l = choose|l: int| 0 <= l < v.queued.len() && v.queued[l] == q[i];
            }
            lemma_without_len(v.active, serial@);
            lemma_settled_wf(self@);
        }
        let started = self.start_ready();
        (was_active, started)
    }

    /// Drop a device's queued work; its running work, if any, is for the
    /// caller to stop (`true`), and stays counted until it has ended.
    pub fn cancel(&mut self, serial: &str) -> (r: bool)
        requires
            old(self).wf(),
        ensures
            final(self).wf(),
            r == old(self)@.active.contains(serial@),
            final(self)@ == (TasksView { queued: without(old(self)@.queued, serial@), ..old(self)@ }),
    {
        let ghost v = self@;
        drop_serial(&mut self.queued, serial);
        proof {
            lemma_without_contents(v.queued, serial@);
            let q = without(v.queued, serial@);
            assert forall|i: int, j: int| 0 <= i < q.len() && 0 <= j < v.active.len() implies q[i]
                != v.active[j] by {
                assert(q.contains(q[i]));
                let l = choose|l: int| 0 <= l < v.queued.len() && v.queued[l] == q[i];
            }
            lemma_without_len(v.queued, serial@);
        }
        holds(&self.active, serial)
    }

    /// Drop all queued work and hand back every running device, whose work
    /// the caller stops and awaits; nothing is left.
    pub fn stop(&mut self) -> (r: Vec<String>)
        requires
            old(self).wf(),
        ensures
            final(self).wf(),
            views(r@) == old(self)@.active,
            final(self)@.queued.len() == 0,
            final(self)@.active.len() == 0,
            final(self)@.limit == old(self)@.limit,
    {
        self.queued = Vec::new();
        let mut r: Vec<String> = Vec::new();
        std::mem::swap(&mut r, &mut self.active);
        assert(views(self.queued@) =~= Seq::<Seq<char>>::empty());
        assert(views(self.active@) =~= Seq::<Seq<char>>::empty());
        r
    }
}

proof fn lemma_without_len(s: Seq<Seq<char>>, k: Seq<char>)
    ensures
        without(s, k).len() <= s.len(),
    decreases s.len(),
{
    if s.len() > 0 {
        lemma_without_len(s.drop_last(), k);
    }
}

} // verus!
