//! A rotating pool of proxy endpoints.
//!
//! The pool is a plain queue: exclusive access is what `&mut self` gives. A
//! caller that shares one pool between tasks puts it behind a lock and holds
//! the lock for the length of one call only.

use std::collections::VecDeque;
use vstd::prelude::*;

use crate::text::{lemma_texts_push, text_of, texts};

verus! {

/// The endpoint that the next draw from a pool with contents `s` returns.
pub open spec fn front(s: Seq<Seq<char>>) -> Option<Seq<char>> {
    if s.len() == 0 {
        None
    } else {
        Some(s[0])
    }
}

/// The contents of a pool after one draw: the front endpoint moved to the back.
pub open spec fn rotate(s: Seq<Seq<char>>) -> Seq<Seq<char>> {
    if s.len() == 0 {
        s
    } else {
        s.drop_first().push(s[0])
    }
}

/// The contents of a pool after `k` draws.
pub open spec fn rotate_n(s: Seq<Seq<char>>, k: nat) -> Seq<Seq<char>>
    decreases k,
{
    if k == 0 {
        s
    } else {
        rotate(rotate_n(s, (k - 1) as nat))
    }
}

/// The contents of a pool after every endpoint equal to `proxy` has left it.
pub open spec fn without(s: Seq<Seq<char>>, proxy: Seq<char>) -> Seq<Seq<char>> {
    s.filter(|p: Seq<char>| p != proxy)
}

/// A simple proxy pool manager.
pub struct ProxyPool {
    proxies: VecDeque<String>,
}

impl View for ProxyPool {
    type V = Seq<Seq<char>>;

    /// The endpoints in rotation order, the next one to be drawn first.
    closed spec fn view(&self) -> Seq<Seq<char>> {
        texts(self.proxies@)
    }
}

impl ProxyPool {
    /// Creates a new proxy pool with a list of proxies.
    pub fn new(proxies: Vec<String>) -> (pool: Self)
        ensures
            pool@ == texts(proxies@),
    {
        let mut queue: VecDeque<String> = VecDeque::new();
        let mut i: usize = 0;
        while i < proxies.len()
            invariant
                i <= proxies.len(),
                texts(queue@) == texts(proxies@.subrange(0, i as int)),
            decreases proxies.len() - i,
        {
            proof {
                lemma_texts_push(queue@, proxies@[i as int]);
                lemma_texts_push(proxies@.subrange(0, i as int), proxies@[i as int]);
                assert(proxies@.subrange(0, i + 1) =~= proxies@.subrange(0, i as int).push(
                    proxies@[i as int],
                ));
            }
            queue.push_back(proxies[i].clone());
            i += 1;
        }
        assert(proxies@.subrange(0, i as int) =~= proxies@);
        ProxyPool { proxies: queue }
    }

    /// Get a proxy from the pool (round-robin).
    pub fn get_proxy(&mut self) -> (proxy: Option<String>)
        ensures
            text_of(proxy) == front(old(self)@),
            final(self)@ == rotate(old(self)@),
    {
        match self.proxies.pop_front() {
            Some(proxy) => {
                proof {
                    lemma_texts_push(self.proxies@, proxy);
                }
                self.proxies.push_back(proxy.clone());
                assert(self@ =~= rotate(old(self)@));
                Some(proxy)
            },
            None => None,
        }
    }

    /// Add a proxy to the pool.
    pub fn add_proxy(&mut self, proxy: String)
        ensures
            final(self)@ == old(self)@.push(proxy@),
    {
        proof {
            lemma_texts_push(self.proxies@, proxy);
        }
        self.proxies.push_back(proxy);
    }

    /// Remove a proxy from the pool: every endpoint equal to `proxy` leaves,
    /// the others keep their order.
    pub fn remove_proxy(&mut self, proxy: &str)
        ensures
            final(self)@ == without(old(self)@, proxy@),
    {
        let target: String = proxy.to_owned();
        let ghost all: Seq<String> = self.proxies@;
        let total: usize = self.proxies.len();
        let mut kept: VecDeque<String> = VecDeque::new();
        let mut seen: usize = 0;
        proof {
            reveal(Seq::filter);
            assert(texts(all.subrange(0, 0)) =~= Seq::<Seq<char>>::empty());
            assert(all.subrange(0, total as int) =~= all);
        }
        while seen < total
            invariant
                seen <= total,
                total == all.len(),
                target@ == proxy@,
                self.proxies@ == all.subrange(seen as int, total as int),
                texts(kept@) == without(texts(all.subrange(0, seen as int)), proxy@),
            decreases total - seen,
        {
            let ghost before: Seq<String> = kept@;
            let item: Option<String> = self.proxies.pop_front();
            proof {
                lemma_texts_push(all.subrange(0, seen as int), all[seen as int]);
                assert(all.subrange(0, seen + 1) =~= all.subrange(0, seen as int).push(
                    all[seen as int],
                ));
                lemma_without_push(texts(all.subrange(0, seen as int)), all[seen as int]@, proxy@);
                assert(all.subrange(seen as int, total as int).subrange(1, total - seen)
                    =~= all.subrange(seen + 1, total as int));
            }
            match item {
                Some(endpoint) => {
                    if endpoint != target {
                        proof {
                            lemma_texts_push(before, endpoint);
                        }
                        kept.push_back(endpoint);
                    }
                },
                None => {},
            }
            seen += 1;
        }
        proof {
            assert(all.subrange(0, total as int) =~= all);
        }
        self.proxies = kept;
    }
}

/// Filtering a sequence that grew by `x` keeps `x` exactly when it differs from `proxy`.
pub proof fn lemma_without_push(s: Seq<Seq<char>>, x: Seq<char>, proxy: Seq<char>)
    ensures
        without(s.push(x), proxy) == if x != proxy {
            without(s, proxy).push(x)
        } else {
            without(s, proxy)
        },
{
    reveal(Seq::filter);
    assert(s.push(x).drop_last() =~= s);
}

/// Round-robin fairness: after `k` draws from a non-empty pool the next draw
/// returns the endpoint at position `k` modulo the pool's size, and the pool
/// holds the initial sequence rotated by that many places. So the first `N`
/// draws from a pool of size `N` return its endpoints once each in their
/// initial order, draw `N + 1` returns the first endpoint again, and after
/// `N` draws the pool is back in its initial order.
pub proof fn lemma_round_robin(s: Seq<Seq<char>>, k: nat)
    requires
        s.len() > 0,
    ensures
        rotate_n(s, k) == s.subrange(k as int % s.len() as int, s.len() as int) + s.subrange(
            0,
            k as int % s.len() as int,
        ),
        front(rotate_n(s, k)) == Some(s[k as int % s.len() as int]),
        rotate_n(s, s.len()) == s,
    decreases k,
{
    let n = s.len() as int;
    lemma_rotation(s, k);
    lemma_rotation(s, s.len());
    assert(n % n == 0) by (nonlinear_arith)
        requires
            n > 0,
    ;
    assert(s.subrange(0, n) + s.subrange(0, 0) =~= s);
}

/// Drawing neither drops nor duplicates an endpoint: after any number of
/// draws the pool holds each endpoint as many times as before.
pub proof fn lemma_draws_keep_endpoints(s: Seq<Seq<char>>, k: nat)
    ensures
        rotate_n(s, k).to_multiset() == s.to_multiset(),
        rotate_n(s, k).len() == s.len(),
    decreases k,
{
    if k > 0 {
        let before = rotate_n(s, (k - 1) as nat);
        lemma_draws_keep_endpoints(s, (k - 1) as nat);
        if before.len() > 0 {
            let head = seq![before[0]];
            let tail = before.drop_first();
            assert(head + tail =~= before);
            assert(tail + head =~= rotate(before));
            vstd::seq_lib::lemma_multiset_commutative(head, tail);
            vstd::seq_lib::lemma_multiset_commutative(tail, head);
            assert(head.to_multiset().add(tail.to_multiset()) =~= tail.to_multiset().add(
                head.to_multiset(),
            ));
        }
    }
}

/// The contents after `k` draws, as two pieces of the initial sequence.
proof fn lemma_rotation(s: Seq<Seq<char>>, k: nat)
    requires
        s.len() > 0,
    ensures
        rotate_n(s, k) == s.subrange(k as int % s.len() as int, s.len() as int) + s.subrange(
            0,
            k as int % s.len() as int,
        ),
        front(rotate_n(s, k)) == Some(s[k as int % s.len() as int]),
    decreases k,
{
    let n = s.len() as int;
    if k == 0 {
        assert(0int % n == 0);
        assert(s.subrange(0, n) + s.subrange(0, 0) =~= s);
    } else {
        let j = (k - 1) as nat;
        lemma_rotation(s, j);
        let a = j as int % n;
        let b = k as int % n;
        assert(0 <= a < n && 0 <= b < n && (if a + 1 == n {
            b == 0
        } else {
            b == a + 1
        })) by (nonlinear_arith)
            requires
                n > 0,
                k == j + 1,
                j >= 0,
                a == j as int % n,
                b == k as int % n,
        ;
        let prev = s.subrange(a, n) + s.subrange(0, a);
        assert(prev.len() == n);
        assert(rotate(prev) =~= s.subrange(b, n) + s.subrange(0, b));
    }
}

/// Adding an endpoint that the pool does not hold and removing it at once
/// leaves the rotation order as it was before the addition.
pub proof fn lemma_add_then_remove(s: Seq<Seq<char>>, x: Seq<char>)
    requires
        !s.contains(x),
    ensures
        without(s.push(x), x) == s,
{
    lemma_without_push(s, x, x);
    lemma_without_absent(s, x);
}

/// Removing an endpoint that the pool does not hold changes nothing.
pub proof fn lemma_without_absent(s: Seq<Seq<char>>, x: Seq<char>)
    requires
        !s.contains(x),
    ensures
        without(s, x) == s,
    decreases s.len(),
{
    reveal(Seq::filter);
    if s.len() > 0 {
        let rest = s.drop_last();
        assert forall|y: Seq<char>| rest.contains(y) implies s.contains(y) by {
            let i = choose|i: int| 0 <= i < rest.len() && rest[i] == y;
            assert(s[i] == y);
        }
        lemma_without_absent(rest, x);
        assert(s.last() != x) by {
            assert(s[s.len() - 1] == s.last());
        }
        assert(rest.push(s.last()) =~= s);
    }
}

} // verus!
