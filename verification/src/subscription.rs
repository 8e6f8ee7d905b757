//! Which connection wants to hear of which path.

use vstd::prelude::*;

verus! {

/// The identity of a connection.
pub type ConnId = u64;

#[derive(Debug)]
struct Subscription {
    conn: ConnId,
    path: String,
}

/// The subscriptions of all connections: pairs of a connection and a path
/// that it listens at, and the connections that listen at every path.
#[derive(Debug)]
pub struct Subscriptions {
    pairs: Vec<Subscription>,
    all: Vec<ConnId>,
}

/// The subscriptions as sets.
pub struct SubscriptionsView {
    /// Each pair of a connection and a path that it listens at.
    pub pairs: Set<(ConnId, Seq<char>)>,
    /// The connections that listen at every path.
    pub all: Set<ConnId>,
}

impl SubscriptionsView {
    /// A change at `path` is reported to `conn`: the connection listens at
    /// that very path, or at every path.
    pub open spec fn hears(self, conn: ConnId, path: Seq<char>) -> bool {
        self.all.contains(conn) || self.pairs.contains((conn, path))
    }
}

spec fn key(s: Subscription) -> (ConnId, Seq<char>) {
    (s.conn, s.path@)
}

spec fn pair_set(pairs: Seq<Subscription>) -> Set<(ConnId, Seq<char>)> {
    Set::new(|t: (ConnId, Seq<char>)| exists|i: int| 0 <= i < pairs.len() && key(#[trigger] pairs[i]) == t)
}

spec fn conn_set(conns: Seq<ConnId>) -> Set<ConnId> {
    Set::new(|c: ConnId| exists|i: int| 0 <= i < conns.len() && #[trigger] conns[i] == c)
}

proof fn lemma_pair_set_push(pairs: Seq<Subscription>, s: Subscription)
    ensures
        pair_set(pairs.push(s)) == pair_set(pairs).insert(key(s)),
{
    let longer = pairs.push(s);
    assert forall|t: (ConnId, Seq<char>)| pair_set(longer).contains(t) == pair_set(pairs).insert(
        key(s),
    ).contains(t) by {
        if pair_set(pairs).contains(t) {
            let i = choose|i: int| 0 <= i < pairs.len() && key(#[trigger] pairs[i]) == t;
            assert(key(longer[i]) == t);
        }
        if key(s) == t {
            assert(key(longer[pairs.len() as int]) == t);
        }
    }
}

proof fn lemma_conn_set_push(conns: Seq<ConnId>, c: ConnId)
    ensures
        conn_set(conns.push(c)) == conn_set(conns).insert(c),
{
    let longer = conns.push(c);
    assert forall|x: ConnId| conn_set(longer).contains(x) == conn_set(conns).insert(c).contains(
        x,
    ) by {
        if conn_set(conns).contains(x) {
            let i = choose|i: int| 0 <= i < conns.len() && #[trigger] conns[i] == x;
            assert(longer[i] == x);
        }
        if c == x {
            assert(longer[conns.len() as int] == x);
        }
    }
}

fn has_conn(conns: &Vec<ConnId>, conn: ConnId) -> (r: bool)
    ensures
        r == conn_set(conns@).contains(conn),
{
    let mut i: usize = 0;
    while i < conns.len()
        invariant
            i <= conns@.len(),
            forall|j: int| 0 <= j < i ==> conns@[j] != conn,
        decreases conns@.len() - i,
    {
        if conns[i] == conn {
            return true;
        }
        i += 1;
    }
    false
}

impl View for Subscriptions {
    type V = SubscriptionsView;

    closed spec fn view(&self) -> SubscriptionsView {
        SubscriptionsView { pairs: pair_set(self.pairs@), all: conn_set(self.all@) }
    }
}

impl Subscriptions {
    /// No connection listens at anything.
    pub fn new() -> (s: Subscriptions)
        ensures
            s@.pairs == Set::<(ConnId, Seq<char>)>::empty(),
            s@.all == Set::<ConnId>::empty(),
    {
        let s = Subscriptions { pairs: Vec::new(), all: Vec::new() };
        s
    }

    /// Whether `conn` listens at the very path `path`.
    pub fn listens(&self, conn: ConnId, path: &String) -> (r: bool)
        ensures
            r == self@.pairs.contains((conn, path@)),
    {
        let mut i: usize = 0;
        while i < self.pairs.len()
            invariant
                i <= self.pairs@.len(),
                forall|j: int| 0 <= j < i ==> key(self.pairs@[j]) != (conn, path@),
            decreases self.pairs@.len() - i,
        {
            if self.pairs[i].conn == conn && self.pairs[i].path == *path {
                return true;
            }
            i += 1;
        }
        false
    }

    /// Whether `conn` listens at every path.
    pub fn listens_all(&self, conn: ConnId) -> (r: bool)
        ensures
            r == self@.all.contains(conn),
    {
        has_conn(&self.all, conn)
    }

    /// Whether a change at `path` is reported to `conn`.
    pub fn hears(&self, conn: ConnId, path: &String) -> (r: bool)
        ensures
            r == self@.hears(conn, path@),
    {
        self.listens_all(conn) || self.listens(conn, path)
    }

    /// `conn` listens at `path` from now on. To listen twice is to listen
    /// once.
    pub fn listen(&mut self, conn: ConnId, path: String)
        ensures
            final(self)@.pairs == old(self)@.pairs.insert((conn, path@)),
            final(self)@.all == old(self)@.all,
    {
        if !self.listens(conn, &path) {
            let s = Subscription { conn, path };
            proof {
                lemma_pair_set_push(self.pairs@, s);
            }
            self.pairs.push(s);
        }
    }

    /// `conn` listens at every path from now on.
    pub fn listen_all(&mut self, conn: ConnId)
        ensures
            final(self)@.all == old(self)@.all.insert(conn),
            final(self)@.pairs == old(self)@.pairs,
    {
        if !has_conn(&self.all, conn) {
            proof {
                lemma_conn_set_push(self.all@, conn);
            }
            self.all.push(conn);
        }
    }

    /// `conn` no longer listens at `path`. Where it did not listen there,
    /// nothing changes; that it listens at every path is not undone.
    pub fn ignore(&mut self, conn: ConnId, path: &String)
        ensures
            final(self)@.pairs == old(self)@.pairs.remove((conn, path@)),
            final(self)@.all == old(self)@.all,
    {
        let mut kept: Vec<Subscription> = Vec::new();
        let ghost gone = (conn, path@);
        while self.pairs.len() > 0
            invariant
                self.all == old(self).all,
                gone == (conn, path@),
                pair_set(kept@).union(pair_set(self.pairs@).remove(gone)) == pair_set(
                    old(self).pairs@,
                ).remove(gone),
            decreases self.pairs@.len(),
        {
            let ghost before = self.pairs@;
            let s = self.pairs.pop().unwrap();
            proof {
                assert(before =~= self.pairs@.push(s));
                lemma_pair_set_push(self.pairs@, s);
            }
            if !(s.conn == conn && s.path == *path) {
                proof {
                    lemma_pair_set_push(kept@, s);
                    assert(pair_set(kept@.push(s)).union(pair_set(self.pairs@).remove(gone))
                        =~= pair_set(kept@).union(pair_set(before).remove(gone)));
                }
                kept.push(s);
            }
        }
        self.pairs = kept;
    }

    /// The connection `conn` is gone: it listens at nothing any more. To
    /// close twice is to close once.
    pub fn close(&mut self, conn: ConnId)
        ensures
            final(self)@.pairs == old(self)@.pairs.filter(|t: (ConnId, Seq<char>)| t.0 != conn),
            final(self)@.all == old(self)@.all.remove(conn),
    {
        let mut kept: Vec<Subscription> = Vec::new();
        let ghost stays = |t: (ConnId, Seq<char>)| t.0 != conn;
        while self.pairs.len() > 0
            invariant
                self.all == old(self).all,
                stays == |t: (ConnId, Seq<char>)| t.0 != conn,
                pair_set(kept@).union(pair_set(self.pairs@).filter(stays)) == pair_set(
                    old(self).pairs@,
                ).filter(stays),
            decreases self.pairs@.len(),
        {
            let ghost before = self.pairs@;
            let s = self.pairs.pop().unwrap();
            proof {
                assert(before =~= self.pairs@.push(s));
                lemma_pair_set_push(self.pairs@, s);
            }
            if s.conn != conn {
                proof {
                    lemma_pair_set_push(kept@, s);
                    assert(pair_set(kept@.push(s)).union(pair_set(self.pairs@).filter(stays))
                        =~= pair_set(kept@).union(pair_set(before).filter(stays)));
                }
                kept.push(s);
            }
        }
        self.pairs = kept;
        let mut others: Vec<ConnId> = Vec::new();
        while self.all.len() > 0
            invariant
                self.pairs == kept,
                conn_set(others@).union(conn_set(self.all@).remove(conn)) == conn_set(
                    old(self).all@,
                ).remove(conn),
            decreases self.all@.len(),
        {
            let ghost before = self.all@;
            let c = self.all.pop().unwrap();
            proof {
                assert(before =~= self.all@.push(c));
                lemma_conn_set_push(self.all@, c);
            }
            if c != conn {
                proof {
                    lemma_conn_set_push(others@, c);
                    assert(conn_set(others@.push(c)).union(conn_set(self.all@).remove(conn))
                        =~= conn_set(others@).union(conn_set(before).remove(conn)));
                }
                others.push(c);
            }
        }
        self.all = others;
    }

    /// The connections to which a change at `path` is reported, each once.
    pub fn recipients(&self, path: &String) -> (to: Vec<ConnId>)
        ensures
            to@.no_duplicates(),
            forall|c: ConnId| to@.contains(c) <==> self@.hears(c, path@),
    {
        let mut to: Vec<ConnId> = Vec::new();
        let mut i: usize = 0;
        while i < self.all.len()
            invariant
                i <= self.all@.len(),
                to@.no_duplicates(),
                forall|c: ConnId| conn_set(to@).contains(c) <==> conn_set(self.all@.take(i as int)).contains(c),
            decreases self.all@.len() - i,
        {
            let c = self.all[i];
            proof {
                assert(self.all@.take(i + 1) =~= self.all@.take(i as int).push(c));
                lemma_conn_set_push(self.all@.take(i as int), c);
            }
            if !has_conn(&to, c) {
                proof {
                    lemma_conn_set_push(to@, c);
                }
                to.push(c);
            }
            i += 1;
        }
        assert(self.all@.take(i as int) =~= self.all@);
        let mut j: usize = 0;
        while j < self.pairs.len()
            invariant
                j <= self.pairs@.len(),
                to@.no_duplicates(),
                forall|c: ConnId|
                    conn_set(to@).contains(c) <==> conn_set(self.all@).contains(c) || pair_set(
                        self.pairs@.take(j as int),
                    ).contains((c, path@)),
            decreases self.pairs@.len() - j,
        {
            let c = self.pairs[j].conn;
            let matches = self.pairs[j].path == *path;
            proof {
                assert(self.pairs@.take(j + 1) =~= self.pairs@.take(j as int).push(self.pairs@[j as int]));
                lemma_pair_set_push(self.pairs@.take(j as int), self.pairs@[j as int]);
            }
            if matches && !has_conn(&to, c) {
                proof {
                    lemma_conn_set_push(to@, c);
                }
                to.push(c);
            }
            j += 1;
        }
        proof {
            assert(self.pairs@.take(j as int) =~= self.pairs@);
            assert forall|c: ConnId| to@.contains(c) <==> self@.hears(c, path@) by {
                assert(to@.contains(c) <==> conn_set(to@).contains(c));
            }
        }
        to
    }
}

} // verus!
