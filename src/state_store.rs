use vstd::prelude::*;

verus! {

/// An outstanding authorization state token: its id, the address of the
/// client that asked for it, and when it was issued (in seconds).
pub struct StateToken {
    pub id: String,
    pub ip: String,
    pub issued_at: u64,
}

/// The outstanding state tokens, keyed by id, each with its issuing address
/// and issue time. Each id occurs once. A successful check consumes its token
/// in the same step.
pub struct StateStore {
    tokens: Vec<StateToken>,
    contents: Ghost<Map<Seq<char>, (Seq<char>, u64)>>,
}

/// A token issued at `issued_at` has aged out at `now` once `ttl` seconds
/// have passed.
pub open spec fn expired(issued_at: u64, now: u64, ttl: u64) -> bool {
    now as int >= issued_at as int + ttl as int
}

/// Whether checking `id` from `ip` at `now` succeeds in a store holding `m`:
/// the token exists, was issued to `ip`, and has not aged out.
pub open spec fn consume_succeeds(m: Map<Seq<char>, (Seq<char>, u64)>, id: Seq<char>, ip: Seq<char>, now: u64, ttl: u64) -> bool {
    m.contains_key(id) && m[id].0 == ip && !expired(m[id].1, now, ttl)
}

/// The store after checking `id` from `ip` at `now`: the token leaves when
/// the check succeeds or when it has aged out; a check from another address
/// leaves a live token in place.
pub open spec fn after_consume(m: Map<Seq<char>, (Seq<char>, u64)>, id: Seq<char>, ip: Seq<char>, now: u64, ttl: u64) -> Map<
    Seq<char>,
    (Seq<char>, u64),
> {
    if m.contains_key(id) && (m[id].0 == ip || expired(m[id].1, now, ttl)) {
        m.remove(id)
    } else {
        m
    }
}

/// The tokens of `m` that have not aged out at `now`.
pub open spec fn unexpired(m: Map<Seq<char>, (Seq<char>, u64)>, now: u64, ttl: u64) -> Map<Seq<char>, (Seq<char>, u64)> {
    Map::new(|k: Seq<char>| m.contains_key(k) && !expired(m[k].1, now, ttl), |k: Seq<char>| m[k])
}

impl View for StateStore {
    type V = Map<Seq<char>, (Seq<char>, u64)>;

    closed spec fn view(&self) -> Map<Seq<char>, (Seq<char>, u64)> {
        self.contents@
    }
}

impl StateStore {
    pub closed spec fn wf(&self) -> bool {
        &&& forall|i: int|
            0 <= i < self.tokens@.len() ==> #[trigger] self.contents@.contains_key(self.tokens@[i].id@)
                && self.contents@[self.tokens@[i].id@] == (self.tokens@[i].ip@, self.tokens@[i].issued_at)
        &&& forall|i: int, j: int|
            0 <= i < self.tokens@.len() && 0 <= j < self.tokens@.len() && i != j ==> #[trigger] self.tokens@[i].id@
                != #[trigger] self.tokens@[j].id@
        &&& forall|k: Seq<char>|
            #[trigger] self.contents@.contains_key(k) ==> exists|i: int|
                0 <= i < self.tokens@.len() && #[trigger] self.tokens@[i].id@ == k
    }

    pub fn new() -> (r: StateStore)
        ensures
            r.wf(),
            r@ == Map::<Seq<char>, (Seq<char>, u64)>::empty(),
    {
        StateStore { tokens: Vec::new(), contents: Ghost(Map::empty()) }
    }

    /// Number of outstanding tokens.
    pub fn len(&self) -> (r: usize)
        requires
            self.wf(),
        ensures
            r == self@.len(),
    {
        proof {
            self.lemma_len();
        }
        self.tokens.len()
    }

    proof fn lemma_len(&self)
        requires
            self.wf(),
        ensures
            self.tokens@.len() == self@.len(),
        decreases self.tokens@.len(),
    {
        let ids = self.tokens@.map_values(|t: StateToken| t.id@);
        assert forall|i: int, j: int| 0 <= i < ids.len() && 0 <= j < ids.len() && i != j implies ids[i] != ids[j] by {
            assert(self.tokens@[i].id@ != self.tokens@[j].id@);
        }
        ids.unique_seq_to_set();
        assert(ids.to_set() =~= self@.dom()) by {
            assert forall|k: Seq<char>| self@.dom().contains(k) implies ids.to_set().contains(k) by {
                let i = choose|i: int| 0 <= i < self.tokens@.len() && #[trigger] self.tokens@[i].id@ == k;
                assert(ids[i] == k);
            }
            assert forall|k: Seq<char>| ids.to_set().contains(k) implies self@.dom().contains(k) by {
                let i = choose|i: int| 0 <= i < ids.len() && ids[i] == k;
                assert(self.contents@.contains_key(self.tokens@[i].id@));
            }
        }
    }

    /// Position of the token with this id, if there is one.
    fn find(&self, id: &String) -> (r: Option<usize>)
        requires
            self.wf(),
        ensures
            match r {
                Some(i) => i < self.tokens@.len() && self.tokens@[i as int].id@ == id@,
                None => !self@.contains_key(id@),
            },
    {
        let mut i: usize = 0;
        while i < self.tokens.len()
            invariant
                self.wf(),
                0 <= i <= self.tokens@.len(),
                forall|k: int| 0 <= k < i ==> #[trigger] self.tokens@[k].id@ != id@,
            decreases self.tokens@.len() - i,
        {
            if self.tokens[i].id == *id {
                return Some(i);
            }
            i += 1;
        }
        proof {
            if self@.contains_key(id@) {
                let k = choose|k: int| 0 <= k < self.tokens@.len() && #[trigger] self.tokens@[k].id@ == id@;
                assert(self.tokens@[k].id@ != id@);
            }
        }
        None
    }

    /// Whether a token with this id is outstanding.
    pub fn contains(&self, id: &str) -> (r: bool)
        requires
            self.wf(),
        ensures
            r == self@.contains_key(id@),
    {
        let id = id.to_owned();
        match self.find(&id) {
            Some(i) => {
                assert(self.contents@.contains_key(self.tokens@[i as int].id@));
                true
            },
            None => false,
        }
    }

    /// Records a token for `id`, issued to `ip` at `now`. An id already
    /// outstanding is refused and the store is left as it was.
    pub fn put(&mut self, id: &str, ip: &str, now: u64) -> (r: bool)
        requires
            old(self).wf(),
        ensures
            final(self).wf(),
            r == !old(self)@.contains_key(id@),
            final(self)@ == if r { old(self)@.insert(id@, (ip@, now)) } else { old(self)@ },
    {
        let id = id.to_owned();
        if let Some(i) = self.find(&id) {
            assert(self.contents@.contains_key(self.tokens@[i as int].id@));
            return false;
        }
        let ghost before = self.tokens@;
        let ghost m0 = self.contents@;
        self.tokens.push(StateToken { id, ip: ip.to_owned(), issued_at: now });
        self.contents = Ghost(m0.insert(id@, (ip@, now)));
        let ghost n = before.len() as int;
        assert forall|k: Seq<char>| #[trigger] self.contents@.contains_key(k) implies exists|i: int|
            0 <= i < self.tokens@.len() && #[trigger] self.tokens@[i].id@ == k by {
            if k != id@ {
                let i = choose|i: int| 0 <= i < before.len() && #[trigger] before[i].id@ == k;
                assert(self.tokens@[i].id@ == k);
            } else {
                assert(self.tokens@[n].id@ == k);
            }
        }
        assert forall|i: int| 0 <= i < self.tokens@.len() implies #[trigger] self.contents@.contains_key(self.tokens@[i].id@)
            && self.contents@[self.tokens@[i].id@] == (self.tokens@[i].ip@, self.tokens@[i].issued_at) by {
            if i < n {
                assert(before[i] == self.tokens@[i]);
                assert(m0.contains_key(before[i].id@));
            }
        }
        assert forall|i: int, j: int|
            0 <= i < self.tokens@.len() && 0 <= j < self.tokens@.len() && i != j implies #[trigger] self.tokens@[i].id@
                != #[trigger] self.tokens@[j].id@ by {
            if i < n {
                assert(m0.contains_key(before[i].id@));
            }
            if j < n {
                assert(m0.contains_key(before[j].id@));
            }
        }
        true
    }

    /// Takes out the token at position `i`.
    fn take(&mut self, i: usize) -> (r: StateToken)
        requires
            old(self).wf(),
            i < old(self).tokens@.len(),
        ensures
            final(self).wf(),
            r.id@ == old(self).tokens@[i as int].id@,
            r.ip@ == old(self).tokens@[i as int].ip@,
            r.issued_at == old(self).tokens@[i as int].issued_at,
            final(self).tokens@ == old(self).tokens@.remove(i as int),
            final(self)@ == old(self)@.remove(r.id@),
    {
        let ghost before = self.tokens@;
        let ghost m0 = self.contents@;
        let r = self.tokens.remove(i);
        self.contents = Ghost(m0.remove(r.id@));
        assert forall|k: Seq<char>| #[trigger] self.contents@.contains_key(k) implies exists|j: int|
            0 <= j < self.tokens@.len() && #[trigger] self.tokens@[j].id@ == k by {
            let j = choose|j: int| 0 <= j < before.len() && #[trigger] before[j].id@ == k;
            if j < i {
                assert(self.tokens@[j].id@ == k);
            } else {
                assert(j != i);
                assert(self.tokens@[j - 1].id@ == k);
            }
        }
        assert forall|j: int| 0 <= j < self.tokens@.len() implies #[trigger] self.contents@.contains_key(self.tokens@[j].id@)
            && self.contents@[self.tokens@[j].id@] == (self.tokens@[j].ip@, self.tokens@[j].issued_at) by {
            let o = if j < i { j } else { j + 1 };
            assert(self.tokens@[j] == before[o]);
            assert(before[o].id@ != before[i as int].id@);
            assert(m0.contains_key(before[o].id@));
        }
        assert forall|a: int, b: int|
            0 <= a < self.tokens@.len() && 0 <= b < self.tokens@.len() && a != b implies #[trigger] self.tokens@[a].id@
                != #[trigger] self.tokens@[b].id@ by {
            let oa = if a < i { a } else { a + 1 };
            let ob = if b < i { b } else { b + 1 };
            assert(self.tokens@[a] == before[oa]);
            assert(self.tokens@[b] == before[ob]);
        }
        r
    }

    /// Checks `id` against the address `ip` of the caller at time `now` and,
    /// when the token exists, was issued to that address and has not aged
    /// out after `ttl` seconds, consumes it in the same step. An unknown id,
    /// an aged-out token and an id of another address all give `false`. An
    /// aged-out token is removed; a live token checked from another address
    /// stays in place for a check from the right address.
    pub fn verify_and_consume(&mut self, id: &str, ip: &str, now: u64, ttl: u64) -> (r: bool)
        requires
            old(self).wf(),
        ensures
            final(self).wf(),
            r == consume_succeeds(old(self)@, id@, ip@, now, ttl),
            final(self)@ == after_consume(old(self)@, id@, ip@, now, ttl),
    {
        let id = id.to_owned();
        let ip = ip.to_owned();
        match self.find(&id) {
            None => false,
            Some(i) => {
                assert(self.contents@.contains_key(self.tokens@[i as int].id@));
                let aged_out = self.tokens[i].issued_at as u128 + ttl as u128 <= now as u128;
                if aged_out {
                    let _ = self.take(i);
                    false
                } else if self.tokens[i].ip == ip {
                    let _ = self.take(i);
                    true
                } else {
                    false
                }
            },
        }
    }

    /// Removes every token that has aged out at `now`: one issued at least
    /// `ttl` seconds earlier. A token that is not checked in time is thus
    /// reclaimed, and is refused as an unknown one would be.
    pub fn sweep(&mut self, now: u64, ttl: u64)
        requires
            old(self).wf(),
        ensures
            final(self).wf(),
            final(self)@ == unexpired(old(self)@, now, ttl),
    {
        let ghost m0 = self@;
        let mut i: usize = 0;
        while i < self.tokens.len()
            invariant
                self.wf(),
                0 <= i <= self.tokens@.len(),
                forall|j: int| 0 <= j < i ==> !expired(#[trigger] self.tokens@[j].issued_at, now, ttl),
                forall|k: Seq<char>| #[trigger] self@.contains_key(k) ==> m0.contains_key(k) && self@[k] == m0[k],
                forall|k: Seq<char>|
                    m0.contains_key(k) && !expired(m0[k].1, now, ttl) ==> #[trigger] self@.contains_key(k),
            decreases self.tokens@.len() - i,
        {
            if self.tokens[i].issued_at as u128 + ttl as u128 <= now as u128 {
                let ghost id = self.tokens@[i as int].id@;
                assert(self.contents@.contains_key(id));
                let ghost before = self.tokens@;
                let _ = self.take(i);
                assert forall|j: int| 0 <= j < i implies !expired(#[trigger] self.tokens@[j].issued_at, now, ttl) by {
                    assert(self.tokens@[j] == before[j]);
                }
            } else {
                i += 1;
            }
        }
        assert(self@ =~= unexpired(m0, now, ttl)) by {
            assert forall|k: Seq<char>| #[trigger] self@.contains_key(k) implies !expired(m0[k].1, now, ttl) by {
                let j = choose|j: int| 0 <= j < self.tokens@.len() && #[trigger] self.tokens@[j].id@ == k;
                assert(self.contents@.contains_key(self.tokens@[j].id@));
            }
        }
    }

    /// Removes the token with this id, if any; says whether there was one.
    pub fn delete(&mut self, id: &str) -> (r: bool)
        requires
            old(self).wf(),
        ensures
            final(self).wf(),
            r == old(self)@.contains_key(id@),
            final(self)@ == old(self)@.remove(id@),
    {
        let id = id.to_owned();
        match self.find(&id) {
            None => {
                assert(self@.remove(id@) =~= self@);
                false
            },
            Some(i) => {
                assert(self.contents@.contains_key(self.tokens@[i as int].id@));
                let _ = self.take(i);
                true
            },
        }
    }
}

/// A successful check consumes its token: a second check of the same id,
/// from any address and at any time, fails.
pub proof fn lemma_consumed_at_most_once(
    m: Map<Seq<char>, (Seq<char>, u64)>,
    id: Seq<char>,
    ip: Seq<char>,
    now: u64,
    ip2: Seq<char>,
    now2: u64,
    ttl: u64,
)
    requires
        consume_succeeds(m, id, ip, now, ttl),
    ensures
        !consume_succeeds(after_consume(m, id, ip, now, ttl), id, ip2, now2, ttl),
{
}

/// A check of a live token from an address other than the issuing one
/// fails and leaves the store as it was, and a later check from the issuing
/// address, before the token ages out, succeeds.
pub proof fn lemma_wrong_ip_keeps_token(
    m: Map<Seq<char>, (Seq<char>, u64)>,
    id: Seq<char>,
    ip_wrong: Seq<char>,
    now: u64,
    later: u64,
    ttl: u64,
)
    requires
        m.contains_key(id),
        ip_wrong != m[id].0,
        !expired(m[id].1, now, ttl),
        !expired(m[id].1, later, ttl),
    ensures
        !consume_succeeds(m, id, ip_wrong, now, ttl),
        after_consume(m, id, ip_wrong, now, ttl) == m,
        consume_succeeds(after_consume(m, id, ip_wrong, now, ttl), id, m[id].0, later, ttl),
{
}

/// An aged-out token is refused as an unknown one is, from any address, and
/// is removed.
pub proof fn lemma_expired_is_refused(m: Map<Seq<char>, (Seq<char>, u64)>, id: Seq<char>, ip: Seq<char>, now: u64, ttl: u64)
    requires
        m.contains_key(id),
        expired(m[id].1, now, ttl),
    ensures
        !consume_succeeds(m, id, ip, now, ttl),
        !after_consume(m, id, ip, now, ttl).contains_key(id),
{
}

} // verus!
