use vstd::prelude::*;

verus! {

/// Why a connection could not be leased.
#[derive(Clone, Copy, Debug, PartialEq, Eq, Structural)]
pub enum PoolError {
    /// The pool was never constructed: no database connection could be made.
    Unavailable,
    /// Every connection of the pool is leased out.
    Exhausted,
}

/// Number of idle slots in a pool's view.
pub open spec fn count_idle(v: Seq<bool>) -> nat
    decreases v.len(),
{
    if v.len() == 0 {
        0
    } else {
        count_idle(v.drop_last()) + if v.last() {
            1nat
        } else {
            0nat
        }
    }
}

/// Whether some slot of the view is idle.
pub open spec fn has_idle(v: Seq<bool>) -> bool {
    exists|i: int| 0 <= i < v.len() && v[i]
}

/// One lease on a pool whose view was `v`: `r` is the slot handed out (or `None`
/// when the pool was exhausted) and `w` the view afterwards.
pub open spec fn lease_step(v: Seq<bool>, r: Option<int>, w: Seq<bool>) -> bool {
    match r {
        Some(i) => 0 <= i < v.len() && v[i] && w == v.update(i, false),
        None => !has_idle(v) && w == v,
    }
}

/// The view after a connection taken from slot `i` is given back.
pub open spec fn release_step(v: Seq<bool>, i: int) -> Seq<bool> {
    if 0 <= i < v.len() && !v[i] {
        v.update(i, true)
    } else {
        v
    }
}

/// A connection taken out of a pool, together with the slot it belongs to.
/// It gives read access to the connection until it is handed back with
/// `Pool::release`, which consumes it: a lease is given back at most once.
pub struct DbConn<C> {
    slot: usize,
    conn: C,
}

impl<C> DbConn<C> {
    pub closed spec fn slot_spec(&self) -> int {
        self.slot as int
    }

    /// The pool slot this connection was taken from.
    pub fn slot(&self) -> (r: usize)
        ensures
            r as int == self.slot_spec(),
    {
        self.slot
    }

    pub closed spec fn conn_spec(&self) -> C {
        self.conn
    }

    /// The leased connection, for the duration of the request.
    pub fn conn(&self) -> (r: &C)
        ensures
            *r == self.conn_spec(),
    {
        &self.conn
    }
}

/// A bounded pool of reusable connections. Each slot holds one connection,
/// which is either idle in the pool or leased out; the number of slots is
/// fixed when the pool is built, so the pool never grows.
pub struct Pool<C> {
    slots: Vec<Option<C>>,
}

impl<C> View for Pool<C> {
    /// Slot `i` is `true` while its connection is idle in the pool.
    type V = Seq<bool>;

    closed spec fn view(&self) -> Seq<bool> {
        Seq::new(self.slots@.len(), |i: int| self.slots@[i] is Some)
    }
}

impl<C> Pool<C> {
    /// What each slot holds: its connection while idle, nothing while leased.
    pub closed spec fn held(&self) -> Seq<Option<C>> {
        self.slots@
    }

    /// Builds a pool over the connections that could be opened. With none of
    /// them the database is unreachable and the pool is `Unavailable`.
    pub fn new(conns: Vec<C>) -> (r: Result<Pool<C>, PoolError>)
        ensures
            conns@.len() == 0 <==> r == Err::<Pool<C>, PoolError>(PoolError::Unavailable),
            r is Ok ==> r->Ok_0@ == Seq::new(conns@.len(), |i: int| true),
            r is Ok ==> r->Ok_0.held() == conns@.map_values(|c: C| Some(c)),
    {
        if conns.len() == 0 {
            return Err(PoolError::Unavailable);
        }
        let ghost orig = conns;
        let mut conns = conns;
        let ghost n = conns@.len();
        let mut slots: Vec<Option<C>> = Vec::new();
        while conns.len() > 0
            invariant
                slots@.len() + conns@.len() == n,
                forall|i: int| 0 <= i < slots@.len() ==> slots@[i] is Some,
                slots@ + conns@.map_values(|c: C| Some(c)) == orig@.map_values(|c: C| Some(c)),
            decreases conns@.len(),
        {
            let ghost before = conns@;
            let c = conns.remove(0);
            slots.push(Some(c));
            assert(before.map_values(|c: C| Some(c)) =~= seq![Some(c)] + conns@.map_values(|c: C| Some(c)));
            assert(slots@ + conns@.map_values(|c: C| Some(c)) =~= orig@.map_values(|c: C| Some(c)));
        }
        assert(slots@ =~= orig@.map_values(|c: C| Some(c)));
        let p = Pool { slots };
        assert(p@ =~= Seq::new(n, |i: int| true));
        Ok(p)
    }

    /// Number of connections the pool holds, leased or idle.
    pub fn capacity(&self) -> (r: usize)
        ensures
            r == self@.len(),
    {
        self.slots.len()
    }

    /// Number of connections idle in the pool.
    pub fn idle_count(&self) -> (r: usize)
        ensures
            r == count_idle(self@),
    {
        let mut n: usize = 0;
        let mut i: usize = 0;
        while i < self.slots.len()
            invariant
                i <= self@.len(),
                n == count_idle(self@.subrange(0, i as int)),
                n <= i,
            decreases self@.len() - i,
        {
            proof {
                assert(self@.subrange(0, i + 1).drop_last() =~= self@.subrange(0, i as int));
            }
            if self.slots[i].is_some() {
                n = n + 1;
            }
            i = i + 1;
        }
        assert(self@.subrange(0, i as int) =~= self@);
        n
    }

    /// Takes an idle connection out of the pool: the lowest idle slot is
    /// handed out and marked leased. Fails with `Exhausted` when no slot is
    /// idle, leaving the pool as it was.
    pub fn lease(&mut self) -> (r: Result<DbConn<C>, PoolError>)
        ensures
            r is Ok <==> has_idle(old(self)@),
            r is Err ==> r == Err::<DbConn<C>, PoolError>(PoolError::Exhausted),
            lease_step(
                old(self)@,
                match r {
                    Ok(l) => Some(l.slot_spec()),
                    Err(_) => None,
                },
                final(self)@,
            ),
            r is Ok ==> forall|j: int| 0 <= j < r->Ok_0.slot_spec() ==> !old(self)@[j],
            r is Ok ==> old(self).held()[r->Ok_0.slot_spec()] == Some(r->Ok_0.conn_spec())
                && final(self).held() == old(self).held().update(r->Ok_0.slot_spec(), None),
            r is Err ==> final(self).held() == old(self).held(),
    {
        let mut i: usize = 0;
        while i < self.slots.len()
            invariant
                *self == *old(self),
                i <= self@.len(),
                forall|j: int| 0 <= j < i ==> !self@[j],
            decreases self@.len() - i,
        {
            if self.slots[i].is_some() {
                let ghost v = self@;
                let ghost h = self.slots@;
                assert(v[i as int]);
                let taken = self.slots.remove(i);
                self.slots.insert(i, None);
                assert(self@ =~= v.update(i as int, false));
                assert(self.slots@ =~= h.update(i as int, None));
                match taken {
                    Some(conn) => {
                        return Ok(DbConn { slot: i, conn });
                    },
                    None => {
                        assert(false);
                    },
                }
            }
            i = i + 1;
        }
        assert(!has_idle(self@));
        Err(PoolError::Exhausted)
    }

    /// Gives a leased connection back to its slot. Returns `false`, and drops
    /// the connection, when the slot does not belong to this pool or is
    /// already idle.
    pub fn release(&mut self, lease: DbConn<C>) -> (r: bool)
        ensures
            r <==> (0 <= lease.slot_spec() < old(self)@.len() && !old(self)@[lease.slot_spec()]),
            final(self)@ == release_step(old(self)@, lease.slot_spec()),
            r ==> final(self).held() == old(self).held().update(lease.slot_spec(), Some(lease.conn_spec())),
            !r ==> final(self).held() == old(self).held(),
    {
        let DbConn { slot, conn } = lease;
        if slot < self.slots.len() && self.slots[slot].is_none() {
            let ghost v = self@;
            let ghost h = self.slots@;
            self.slots.remove(slot);
            self.slots.insert(slot, Some(conn));
            assert(self@ =~= v.update(slot as int, true));
            assert(self.slots@ =~= h.update(slot as int, Some(conn)));
            true
        } else {
            false
        }
    }
}

proof fn lemma_count_update_false(v: Seq<bool>, i: int)
    requires
        0 <= i < v.len(),
        v[i],
    ensures
        count_idle(v.update(i, false)) + 1 == count_idle(v),
    decreases v.len(),
{
    let w = v.update(i, false);
    if i == v.len() - 1 {
        assert(w.drop_last() =~= v.drop_last());
    } else {
        assert(w.drop_last() =~= v.drop_last().update(i, false));
        lemma_count_update_false(v.drop_last(), i);
    }
}

proof fn lemma_count_zero(v: Seq<bool>)
    ensures
        count_idle(v) == 0 <==> !has_idle(v),
    decreases v.len(),
{
    if v.len() > 0 {
        let u = v.drop_last();
        lemma_count_zero(u);
        if has_idle(v) && !v.last() {
            let i = choose|i: int| 0 <= i < v.len() && v[i];
            assert(u[i]);
        }
        if has_idle(u) {
            let i = choose|i: int| 0 <= i < u.len() && u[i];
            assert(v[i]);
        }
    }
}

/// A slot that is leased stays leased over any run of further leases.
proof fn lemma_leased_stays(views: Seq<Seq<bool>>, slots: Seq<Option<int>>, i: int, k: int)
    requires
        views.len() == slots.len() + 1,
        forall|m: int| #![trigger slots[m]] 0 <= m < slots.len() ==> lease_step(views[m], slots[m], views[m + 1]),
        0 <= k < views.len(),
        0 <= i < views[0].len(),
        !views[0][i],
    ensures
        views[k].len() == views[0].len(),
        !views[k][i],
    decreases k,
{
    if k > 0 {
        lemma_leased_stays(views, slots, i, k - 1);
        assert(lease_step(views[k - 1], slots[k - 1], views[k]));
    }
}

/// Leasing `slots.len()` times in a row from a pool whose view is `views[0]`
/// (`views[k + 1]` being the view after the `k`-th lease): exactly the first
/// `count_idle(views[0])` leases succeed, every later one finds the pool
/// exhausted, and no two successful leases hand out the same connection.
pub proof fn lemma_successive_leases(views: Seq<Seq<bool>>, slots: Seq<Option<int>>)
    requires
        views.len() == slots.len() + 1,
        forall|k: int| #![trigger slots[k]] 0 <= k < slots.len() ==> lease_step(views[k], slots[k], views[k + 1]),
    ensures
        forall|k: int| 0 <= k < slots.len() ==> (#[trigger] slots[k] is Some <==> k < count_idle(views[0])),
        forall|a: int, b: int|
            #![trigger slots[a], slots[b]]
            0 <= a < b < slots.len() && slots[a] is Some && slots[b] is Some ==> slots[a] != slots[b],
    decreases slots.len(),
{
    if slots.len() > 0 {
        let vs = views.subrange(1, views.len() as int);
        let ss = slots.subrange(1, slots.len() as int);
        assert forall|k: int| #![trigger ss[k]] 0 <= k < ss.len() implies lease_step(vs[k], ss[k], vs[k + 1]) by {
            assert(slots[k + 1] == ss[k]);
        }
        lemma_successive_leases(vs, ss);
        assert(lease_step(views[0], slots[0], views[1]));
        match slots[0] {
            Some(i) => {
                lemma_count_update_false(views[0], i);
                assert forall|k: int| 0 <= k < slots.len() implies (#[trigger] slots[k] is Some <==> k < count_idle(views[0])) by {
                    if k > 0 {
                        assert(slots[k] == ss[k - 1]);
                    }
                }
                assert forall|a: int, b: int|
                    #![trigger slots[a], slots[b]]
                    0 <= a < b < slots.len() && slots[a] is Some && slots[b] is Some implies slots[a] != slots[b] by {
                    assert(slots[b] == ss[b - 1]);
                    if a == 0 {
                        lemma_leased_stays(vs, ss, i, b - 1);
                        assert(lease_step(views[b], slots[b], views[b + 1]));
                    } else {
                        assert(slots[a] == ss[a - 1]);
                    }
                }
            },
            None => {
                lemma_count_zero(views[0]);
                assert forall|k: int| 0 <= k < slots.len() implies (#[trigger] slots[k] is Some <==> k < count_idle(views[0])) by {
                    if k > 0 {
                        assert(slots[k] == ss[k - 1]);
                        lemma_count_zero(views[1]);
                    }
                }
                assert forall|a: int, b: int|
                    #![trigger slots[a], slots[b]]
                    0 <= a < b < slots.len() && slots[a] is Some && slots[b] is Some implies slots[a] != slots[b] by {
                    assert(slots[b] == ss[b - 1]);
                    assert(slots[a] == ss[a - 1]);
                }
            },
        }
    }
}

/// A request that leases a connection and gives it back leaves the pool as it
/// was, and so does one whose lease failed: the number of idle connections
/// returns to its count before the request.
pub proof fn lemma_request_restores_pool(v: Seq<bool>, r: Option<int>, w: Seq<bool>)
    requires
        lease_step(v, r, w),
    ensures
        match r {
            Some(i) => release_step(w, i) == v,
            None => w == v,
        },
        count_idle(
            match r {
                Some(i) => release_step(w, i),
                None => w,
            },
        ) == count_idle(v),
{
    if let Some(i) = r {
        assert(release_step(w, i) =~= v);
    }
}

} // verus!
