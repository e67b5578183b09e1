//! Taking turns among several identities' connection caches.
use vstd::prelude::*;

verus! {

/// Who picks the connection cache to send through.
pub trait ConnectionManager<C>: Sized {
    /// The caches to pick from, one for each identity.
    spec fn caches(&self) -> Seq<C>;

    /// The index whose turn it is, if there is a cache at it.
    spec fn turn(&self) -> u64;

    /// Picks the cache to send through; the address is to be looked up in every
    /// cache first, so that all of them stay warm.
    fn get_nonblocking_connection(&mut self) -> (r: usize)
        requires
            old(self).caches().len() > 0,
        ensures
            r < old(self).caches().len(),
            r == picked(old(self).turn(), old(self).caches().len()),
            final(self).turn() == turn_after(old(self).turn(), old(self).caches().len()),
            final(self).caches() == old(self).caches(),
    ;
}

/// The index that is picked: the one whose turn it is, or the first one when
/// there are no more.
pub open spec fn picked(turn: u64, num_identities: nat) -> int {
    if turn >= num_identities {
        0
    } else {
        turn as int
    }
}

/// Whose turn it is after a pick. When there were no more indexes the turns begin
/// anew, with the one that was just picked.
pub open spec fn turn_after(turn: u64, num_identities: nat) -> int {
    if turn >= num_identities {
        0
    } else {
        turn + 1
    }
}

/// The connection caches of the identities, and whose turn it is.
pub struct ConnectionManagerImpl<C> {
    connection_caches: Vec<C>,
    connection_index: u64,
}

impl<C> ConnectionManager<C> for ConnectionManagerImpl<C> {
    closed spec fn caches(&self) -> Seq<C> {
        self.connection_caches@
    }

    closed spec fn turn(&self) -> u64 {
        self.connection_index
    }

    fn get_nonblocking_connection(&mut self) -> (r: usize) {
        self.get_next_connection_index()
    }
}

impl<C> ConnectionManagerImpl<C> {
    /// A manager with the cache of a single identity.
    pub fn new_with_identity(cache: C) -> (r: Self)
        ensures
            r.caches() == seq![cache],
            r.turn() == 0,
    {
        let mut connection_caches: Vec<C> = Vec::new();
        connection_caches.push(cache);
        assert(connection_caches@ =~= seq![cache]);
        ConnectionManagerImpl { connection_caches, connection_index: 0 }
    }

    /// A manager with the caches of several identities.
    pub fn new_multi(caches: Vec<C>) -> (r: Self)
        ensures
            r.caches() == caches@,
            r.turn() == 0,
    {
        ConnectionManagerImpl { connection_caches: caches, connection_index: 0 }
    }

    /// The index whose turn it is; passes the turn on.
    pub fn get_next_connection_index(&mut self) -> (r: usize)
        ensures
            r == picked(old(self).turn(), old(self).caches().len()),
            final(self).turn() == turn_after(old(self).turn(), old(self).caches().len()),
            final(self).caches() == old(self).caches(),
    {
        let index: u64 = self.connection_index;
        if index >= self.connection_caches.len() as u64 {
            self.connection_index = 0;
            return 0;
        }
        self.connection_index = index + 1;
        index as usize
    }

    /// The caches in which an address is to be looked up before one is used.
    pub fn warm_connections(&self) -> (r: &Vec<C>)
        ensures
            r@ == self.caches(),
    {
        &self.connection_caches
    }
}

/// Whose turn it is after `n` picks, beginning with the first index.
pub open spec fn turn_after_picks(n: nat, num_identities: nat) -> int
    decreases n,
{
    if n == 0 {
        0
    } else {
        turn_after(turn_after_picks((n - 1) as nat, num_identities) as u64, num_identities)
    }
}

/// Every identity is picked in turn: pick number `n` takes the index `n` modulo
/// one more than the number of identities, except that the last of each such run
/// takes the first index.
pub proof fn law_identities_take_turns(n: nat, num_identities: nat)
    requires
        0 < num_identities < u64::MAX,
    ensures
        turn_after_picks(n, num_identities) == n % (num_identities + 1),
        picked(turn_after_picks(n, num_identities) as u64, num_identities) == if n % (
        num_identities + 1) == num_identities {
            0
        } else {
            (n % (num_identities + 1)) as int
        },
    decreases n,
{
    let period = num_identities + 1;
    if n > 0 {
        law_identities_take_turns((n - 1) as nat, num_identities);
        let m = (n - 1) as nat;
        if m % period == num_identities {
            assert((m + 1) % period == 0) by (nonlinear_arith)
                requires
                    period > 0,
                    m % period == period - 1,
            ;
        } else {
            assert((m + 1) % period == m % period + 1) by (nonlinear_arith)
                requires
                    period > 0,
                    m % period < period - 1,
            ;
        }
    }
}

} // verus!
