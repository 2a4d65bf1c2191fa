//! Social graph store: follow edges with paired derived counters that never
//! diverge from the edge set, and governance-set reputation scores.

use vstd::prelude::*;
use std::collections::HashMap;

verus! {

use crate::Origin;

/// Events appended on every successful mutation, in order.
#[derive(Clone, Copy, Debug, PartialEq, Eq, Structural)]
pub enum Event {
    Followed { follower: u64, followee: u64 },
    Unfollowed { follower: u64, followee: u64 },
    ReputationUpdated { account: u64, old_score: u32, new_score: u32 },
}

/// Errors returned by the social graph store; every failure leaves state
/// unchanged.
#[derive(Clone, Copy, Debug, PartialEq, Eq, Structural)]
pub enum Error {
    BadOrigin,
    AlreadyFollowing,
    NotFollowing,
    CannotFollowSelf,
    MaxFollowingExceeded,
    ReputationOverflow,
}

/// How many edges in `s` point at `followee`: the number of its followers.
pub open spec fn count_followers_of(s: Seq<(u64, u64)>, followee: u64) -> nat
    decreases s.len(),
{
    if s.len() == 0 {
        0
    } else {
        count_followers_of(s.drop_last(), followee) + (if s.last().1 == followee {
            1nat
        } else {
            0nat
        })
    }
}

/// How many edges in `s` start at `follower`: the number it follows.
pub open spec fn count_following_of(s: Seq<(u64, u64)>, follower: u64) -> nat
    decreases s.len(),
{
    if s.len() == 0 {
        0
    } else {
        count_following_of(s.drop_last(), follower) + (if s.last().0 == follower {
            1nat
        } else {
            0nat
        })
    }
}

/// Appending an edge raises exactly the two counts it touches by one.
proof fn lemma_count_push(s: Seq<(u64, u64)>, e: (u64, u64))
    ensures
        forall|b: u64|
            #[trigger] count_followers_of(s.push(e), b) == count_followers_of(s, b) + (
            if e.1 == b {
                1int
            } else {
                0int
            }),
        forall|a: u64|
            #[trigger] count_following_of(s.push(e), a) == count_following_of(s, a) + (
            if e.0 == a {
                1int
            } else {
                0int
            }),
{
    assert(s.push(e).drop_last() =~= s);
    assert(s.push(e).last() == e);
}

/// Removing an edge lowers exactly the two counts it touched by one.
proof fn lemma_count_remove(s: Seq<(u64, u64)>, i: int)
    requires
        0 <= i < s.len(),
    ensures
        forall|b: u64|
            #[trigger] count_followers_of(s.remove(i), b) == count_followers_of(s, b) - (
            if s[i].1 == b {
                1int
            } else {
                0int
            }),
        forall|a: u64|
            #[trigger] count_following_of(s.remove(i), a) == count_following_of(s, a) - (
            if s[i].0 == a {
                1int
            } else {
                0int
            }),
    decreases s.len(),
{
    if i == s.len() - 1 {
        assert(s.remove(i) =~= s.drop_last());
    } else {
        let t = s.drop_last();
        lemma_count_remove(t, i);
        assert(s.remove(i) =~= t.remove(i).push(s.last()));
        lemma_count_push(t.remove(i), s.last());
        assert(t[i] == s[i]);
    }
}

/// An edge present in the sequence is counted on both of its sides.
proof fn lemma_count_member(s: Seq<(u64, u64)>, i: int)
    requires
        0 <= i < s.len(),
    ensures
        count_followers_of(s, s[i].1) >= 1,
        count_following_of(s, s[i].0) >= 1,
    decreases s.len(),
{
    if i == s.len() - 1 {
    } else {
        lemma_count_member(s.drop_last(), i);
        assert(s.drop_last()[i] == s[i]);
    }
}

/// Removing an element keeps the remaining elements distinct.
proof fn lemma_remove_no_duplicates<T>(s: Seq<T>, i: int)
    requires
        0 <= i < s.len(),
        s.no_duplicates(),
    ensures
        s.remove(i).no_duplicates(),
{
    s.remove_ensures(i);
    let t = s.remove(i);
    assert forall|j: int, k: int| 0 <= j < k < t.len() implies t[j] != t[k] by {
        let j2: int = if j < i { j } else { j + 1 };
        let k2: int = if k < i { k } else { k + 1 };
        assert(t[j] == s[j2]);
        assert(t[k] == s[k2]);
    }
}

/// After removing the only occurrence of an element from a duplicate-free
/// sequence, exactly the other elements remain.
proof fn lemma_remove_contains<T>(s: Seq<T>, i: int)
    requires
        0 <= i < s.len(),
        s.no_duplicates(),
    ensures
        !s.remove(i).contains(s[i]),
        forall|x: T| x != s[i] ==> s.remove(i).contains(x) == s.contains(x),
{
    s.remove_ensures(i);
    let t = s.remove(i);
    assert forall|j: int, k: int| 0 <= j < k < t.len() implies t[j] != t[k] by {
        let j2: int = if j < i { j } else { j + 1 };
        let k2: int = if k < i { k } else { k + 1 };
        assert(t[j] == s[j2]);
        assert(t[k] == s[k2]);
    }
    if t.contains(s[i]) {
        let j = choose|j: int| 0 <= j < t.len() && t[j] == s[i];
        let j2: int = if j < i { j } else { j + 1 };
        assert(s[j2] == s[i]);
        assert(false);
    }
    assert forall|x: T| x != s[i] implies t.contains(x) == s.contains(x) by {
        if s.contains(x) {
            let j = choose|j: int| 0 <= j < s.len() && s[j] == x;
            let j2: int = if j < i { j } else { j - 1 };
            assert(t[j2] == s[j]);
            assert(t.contains(x));
        }
        if t.contains(x) {
            let j = choose|j: int| 0 <= j < t.len() && t[j] == x;
            let j2: int = if j < i { j } else { j + 1 };
            assert(s[j2] == x);
            assert(s.contains(x));
        }
    }
}

/// The accounts that follow `account` under the edges `s`.
pub open spec fn spec_followers_set(s: Seq<(u64, u64)>, account: u64) -> Set<u64> {
    Set::new(|a: u64| s.contains((a, account)))
}

/// The accounts that `account` follows under the edges `s`.
pub open spec fn spec_following_set(s: Seq<(u64, u64)>, account: u64) -> Set<u64> {
    Set::new(|b: u64| s.contains((account, b)))
}

/// For a duplicate-free edge sequence, the recursive edge counts equal the
/// cardinalities of the follower and following sets, which are finite.
proof fn lemma_count_matches_set(s: Seq<(u64, u64)>, account: u64)
    requires
        s.no_duplicates(),
    ensures
        spec_followers_set(s, account).finite(),
        spec_followers_set(s, account).len() == count_followers_of(s, account),
        spec_following_set(s, account).finite(),
        spec_following_set(s, account).len() == count_following_of(s, account),
    decreases s.len(),
{
    if s.len() == 0 {
        assert(spec_followers_set(s, account) =~= Set::<u64>::empty());
        assert(spec_following_set(s, account) =~= Set::<u64>::empty());
    } else {
        let t = s.drop_last();
        let e = s.last();
        assert(t.no_duplicates()) by {
            assert(forall|i: int| 0 <= i < t.len() ==> t[i] == s[i]);
        }
        lemma_count_matches_set(t, account);
        assert forall|x: (u64, u64)| #[trigger] s.contains(x) == (t.contains(x) || x == e) by {
            if s.contains(x) {
                let j = choose|j: int| 0 <= j < s.len() && s[j] == x;
                if j < s.len() - 1 {
                    assert(t[j] == x);
                    assert(t.contains(x));
                }
            }
            if t.contains(x) {
                let j = choose|j: int| 0 <= j < t.len() && t[j] == x;
                assert(s[j] == x);
                assert(s.contains(x));
            }
            if x == e {
                assert(s[s.len() - 1] == x);
                assert(s.contains(x));
            }
        }
        if e.1 == account {
            assert(!spec_followers_set(t, account).contains(e.0)) by {
                if t.contains((e.0, account)) {
                    let j = choose|j: int| 0 <= j < t.len() && t[j] == (e.0, account);
                    assert(s[j] == e);
                    assert(s[s.len() - 1] == e);
                    assert(false);
                }
            }
            assert(spec_followers_set(s, account)
                =~= spec_followers_set(t, account).insert(e.0));
        } else {
            assert(spec_followers_set(s, account) =~= spec_followers_set(t, account));
        }
        if e.0 == account {
            assert(!spec_following_set(t, account).contains(e.1)) by {
                if t.contains((account, e.1)) {
                    let j = choose|j: int| 0 <= j < t.len() && t[j] == (account, e.1);
                    assert(s[j] == e);
                    assert(s[s.len() - 1] == e);
                    assert(false);
                }
            }
            assert(spec_following_set(s, account)
                =~= spec_following_set(t, account).insert(e.1));
        } else {
            assert(spec_following_set(s, account) =~= spec_following_set(t, account));
        }
    }
}

/// The social graph store. One instance owns the edge set, both derived
/// counter maps, and the reputation scores; every mutating operation
/// validates first and writes only after every check has passed.
pub struct Pallet {
    max_following: u32,
    edges: Vec<(u64, u64)>,
    follower_counts: HashMap<u64, u32>,
    following_counts: HashMap<u64, u32>,
    reputation: HashMap<u64, u32>,
    events: Vec<Event>,
}

impl Pallet {
    /// Configured cap on how many accounts one account may follow.
    pub closed spec fn spec_max_following(self) -> u32 {
        self.max_following
    }

    /// The follow edges, as the sequence they were recorded in.
    pub closed spec fn spec_edges(self) -> Seq<(u64, u64)> {
        self.edges@
    }

    /// Whether `follower` currently follows `followee`.
    pub open spec fn spec_follows(self, follower: u64, followee: u64) -> bool {
        self.spec_edges().contains((follower, followee))
    }

    /// The stored follower count of an account (how many follow it).
    pub closed spec fn spec_follower_count(self, account: u64) -> u32 {
        if self.follower_counts@.contains_key(account) {
            self.follower_counts@[account]
        } else {
            0
        }
    }

    /// The stored following count of an account (how many it follows).
    pub closed spec fn spec_following_count(self, account: u64) -> u32 {
        if self.following_counts@.contains_key(account) {
            self.following_counts@[account]
        } else {
            0
        }
    }

    /// The reputation score of an account; unset accounts score zero.
    pub closed spec fn spec_reputation(self, account: u64) -> u32 {
        if self.reputation@.contains_key(account) {
            self.reputation@[account]
        } else {
            0
        }
    }

    /// All events emitted so far, oldest first.
    pub closed spec fn spec_events(self) -> Seq<Event> {
        self.events@
    }

    /// Well-formedness: the edge set holds no duplicate and no self-edge,
    /// each stored counter equals the number of edges it counts, and no
    /// account follows more than the configured cap.
    pub closed spec fn wf(self) -> bool {
        &&& self.edges@.no_duplicates()
        &&& forall|i: int|
            0 <= i < self.edges@.len() ==> (#[trigger] self.edges@[i]).0 != self.edges@[i].1
        &&& forall|b: u64|
            #[trigger] self.spec_follower_count(b) == count_followers_of(self.edges@, b)
        &&& forall|a: u64|
            #[trigger] self.spec_following_count(a) == count_following_of(self.edges@, a)
        &&& forall|a: u64| #[trigger] self.spec_following_count(a) <= self.max_following
    }

    /// A fresh, empty store with the given following cap.
    pub fn new(max_following: u32) -> (r: Pallet)
        ensures
            r.wf(),
            r.spec_max_following() == max_following,
            forall|a: u64, b: u64| !r.spec_follows(a, b),
            forall|a: u64| r.spec_follower_count(a) == 0,
            forall|a: u64| r.spec_following_count(a) == 0,
            forall|a: u64| r.spec_reputation(a) == 0,
            r.spec_events() == Seq::<Event>::empty(),
    {
        let r = Pallet {
            max_following,
            edges: Vec::new(),
            follower_counts: HashMap::new(),
            following_counts: HashMap::new(),
            reputation: HashMap::new(),
            events: Vec::new(),
        };
        r
    }

    /// Create a follow edge from the signing account to `followee`, and raise
    /// both derived counters with it, as one atomic step.
    pub fn follow(&mut self, origin: Origin, followee: u64) -> (r: Result<(), Error>)
        requires
            old(self).wf(),
            // machine limit: the follower counter is a 32-bit cell
            old(self).spec_follower_count(followee) < u32::MAX,
        ensures
            final(self).wf(),
            final(self).spec_max_following() == old(self).spec_max_following(),
            origin is Root ==> r == Err::<(), Error>(Error::BadOrigin),
            (origin matches Origin::Signed(follower) && follower == followee)
                ==> r == Err::<(), Error>(Error::CannotFollowSelf),
            (origin matches Origin::Signed(follower) && follower != followee
                && old(self).spec_follows(follower, followee))
                ==> r == Err::<(), Error>(Error::AlreadyFollowing),
            (origin matches Origin::Signed(follower) && follower != followee
                && !old(self).spec_follows(follower, followee)
                && old(self).spec_following_count(follower) >= old(self).spec_max_following())
                ==> r == Err::<(), Error>(Error::MaxFollowingExceeded),
            r == Ok::<(), Error>(()) <==> (origin matches Origin::Signed(follower)
                && follower != followee
                && !old(self).spec_follows(follower, followee)
                && old(self).spec_following_count(follower) < old(self).spec_max_following()),
            r is Err ==> *final(self) == *old(self),
            r is Ok ==> (origin matches Origin::Signed(follower) && {
                &&& final(self).spec_follows(follower, followee)
                &&& forall|a: u64, b: u64|
                    !(a == follower && b == followee) ==> final(self).spec_follows(a, b)
                        == old(self).spec_follows(a, b)
                &&& final(self).spec_follower_count(followee)
                    == old(self).spec_follower_count(followee) + 1
                &&& forall|b: u64|
                    b != followee ==> final(self).spec_follower_count(b)
                        == old(self).spec_follower_count(b)
                &&& final(self).spec_following_count(follower)
                    == old(self).spec_following_count(follower) + 1
                &&& forall|a: u64|
                    a != follower ==> final(self).spec_following_count(a)
                        == old(self).spec_following_count(a)
                &&& forall|a: u64| final(self).spec_reputation(a) == old(self).spec_reputation(a)
                &&& final(self).spec_events() == old(self).spec_events().push(
                    (Event::Followed { follower, followee }),
                )
            }),
    {
        let follower = match origin {
            Origin::Signed(a) => a,
            Origin::Root => {
                return Err(Error::BadOrigin);
            },
        };

        if follower == followee {
            return Err(Error::CannotFollowSelf);
        }
        if self.is_following(follower, followee) {
            return Err(Error::AlreadyFollowing);
        }
        let current_following = self.get_following_count(follower);
        if current_following >= self.max_following {
            return Err(Error::MaxFollowingExceeded);
        }
        let current_followers = self.get_follower_count(followee);

        self.edges.push((follower, followee));
        self.follower_counts.insert(followee, current_followers + 1);
        self.following_counts.insert(follower, current_following + 1);
        self.events.push(Event::Followed { follower, followee });

        proof {
            lemma_count_push(old(self).edges@, (follower, followee));
            assert(self.edges@[old(self).edges@.len() as int] == (follower, followee));
            assert(self.spec_follows(follower, followee));
            assert forall|b: u64|
                b != followee implies self.spec_follower_count(b) == old(
                self,
            ).spec_follower_count(b) by {
                assert(self.follower_counts@.contains_key(b) == old(
                    self,
                ).follower_counts@.contains_key(b));
            }
            assert forall|a: u64|
                a != follower implies self.spec_following_count(a) == old(
                self,
            ).spec_following_count(a) by {
                assert(self.following_counts@.contains_key(a) == old(
                    self,
                ).following_counts@.contains_key(a));
            }
            assert forall|a: u64| self.spec_reputation(a) == old(self).spec_reputation(a) by {
                assert(self.reputation@ == old(self).reputation@);
            }
            assert forall|a: u64, b: u64|
                !(a == follower && b == followee) implies self.spec_follows(a, b) == old(
                self,
            ).spec_follows(a, b) by {
                let e = (a, b);
                if old(self).edges@.contains(e) {
                    let j = choose|j: int|
                        0 <= j < old(self).edges@.len() && old(self).edges@[j] == e;
                    assert(self.edges@[j] == e);
                }
                if self.edges@.contains(e) {
                    let j = choose|j: int| 0 <= j < self.edges@.len() && self.edges@[j] == e;
                    assert(j < old(self).edges@.len());
                    assert(old(self).edges@[j] == e);
                }
            }
            assert(self.edges@.no_duplicates()) by {
                assert(forall|j: int|
                    0 <= j < old(self).edges@.len() ==> old(self).edges@[j] == self.edges@[j]);
                assert(!old(self).edges@.contains((follower, followee)));
            }
        }
        Ok(())
    }

    /// Remove the follow edge from the signing account to `followee`, and
    /// lower both derived counters with it, as one atomic step.
    pub fn unfollow(&mut self, origin: Origin, followee: u64) -> (r: Result<(), Error>)
        requires
            old(self).wf(),
        ensures
            final(self).wf(),
            final(self).spec_max_following() == old(self).spec_max_following(),
            origin is Root ==> r == Err::<(), Error>(Error::BadOrigin),
            (origin matches Origin::Signed(follower)
                && !old(self).spec_follows(follower, followee))
                ==> r == Err::<(), Error>(Error::NotFollowing),
            r == Ok::<(), Error>(()) <==> (origin matches Origin::Signed(follower)
                && old(self).spec_follows(follower, followee)),
            r is Err ==> *final(self) == *old(self),
            r is Ok ==> (origin matches Origin::Signed(follower) && {
                &&& !final(self).spec_follows(follower, followee)
                &&& forall|a: u64, b: u64|
                    !(a == follower && b == followee) ==> final(self).spec_follows(a, b)
                        == old(self).spec_follows(a, b)
                &&& old(self).spec_follower_count(followee) >= 1
                &&& final(self).spec_follower_count(followee)
                    == old(self).spec_follower_count(followee) - 1
                &&& forall|b: u64|
                    b != followee ==> final(self).spec_follower_count(b)
                        == old(self).spec_follower_count(b)
                &&& old(self).spec_following_count(follower) >= 1
                &&& final(self).spec_following_count(follower)
                    == old(self).spec_following_count(follower) - 1
                &&& forall|a: u64|
                    a != follower ==> final(self).spec_following_count(a)
                        == old(self).spec_following_count(a)
                &&& forall|a: u64| final(self).spec_reputation(a) == old(self).spec_reputation(a)
                &&& final(self).spec_events() == old(self).spec_events().push(
                    (Event::Unfollowed { follower, followee }),
                )
            }),
    {
        let follower = match origin {
            Origin::Signed(a) => a,
            Origin::Root => {
                return Err(Error::BadOrigin);
            },
        };

        let n = self.edges.len();
        let mut k: usize = 0;
        let mut found: Option<usize> = None;
        while k < n
            invariant
                k <= n,
                n == self.edges@.len(),
                match found {
                    Some(i) => i < n && self.edges@[i as int] == (follower, followee),
                    None => forall|j: int| 0 <= j < k ==> self.edges@[j] != (follower, followee),
                },
                found is Some ==> k == n,
            decreases n - k,
        {
            let e = self.edges[k];
            if e.0 == follower && e.1 == followee {
                found = Some(k);
                k = n;
            } else {
                k = k + 1;
            }
        }

        let idx = match found {
            Some(i) => i,
            None => {
                proof {
                    if self.edges@.contains((follower, followee)) {
                        let j = choose|j: int|
                            0 <= j < self.edges@.len() && self.edges@[j] == (follower, followee);
                        assert(self.edges@[j] != (follower, followee));
                    }
                }
                return Err(Error::NotFollowing);
            },
        };

        proof {
            assert(old(self).edges@.contains((follower, followee)));
            lemma_count_member(old(self).edges@, idx as int);
        }

        let current_followers = self.get_follower_count(followee);
        let current_following = self.get_following_count(follower);

        self.edges.remove(idx);
        self.follower_counts.insert(followee, current_followers - 1);
        self.following_counts.insert(follower, current_following - 1);
        self.events.push(Event::Unfollowed { follower, followee });

        proof {
            let s = old(self).edges@;
            let i = idx as int;
            lemma_remove_no_duplicates(s, i);
            lemma_remove_contains(s, i);
            s.remove_ensures(i);
            assert forall|b: u64|
                b != followee implies self.spec_follower_count(b) == old(
                self,
            ).spec_follower_count(b) by {
                assert(self.follower_counts@.contains_key(b) == old(
                    self,
                ).follower_counts@.contains_key(b));
            }
            assert forall|a: u64|
                a != follower implies self.spec_following_count(a) == old(
                self,
            ).spec_following_count(a) by {
                assert(self.following_counts@.contains_key(a) == old(
                    self,
                ).following_counts@.contains_key(a));
            }
            assert forall|a: u64| self.spec_reputation(a) == old(self).spec_reputation(a) by {
                assert(self.reputation@ == old(self).reputation@);
            }
            lemma_count_remove(s, i);
        }
        Ok(())
    }

    /// Overwrite an account's reputation score; only the privileged caller
    /// class may do so, and any value may replace any other.
    pub fn update_reputation(&mut self, origin: Origin, account: u64, score: u32) -> (r: Result<
        (),
        Error,
    >)
        requires
            old(self).wf(),
        ensures
            final(self).wf(),
            final(self).spec_max_following() == old(self).spec_max_following(),
            r == Ok::<(), Error>(()) <==> origin is Root,
            origin is Signed ==> r == Err::<(), Error>(Error::BadOrigin),
            r is Err ==> *final(self) == *old(self),
            r is Ok ==> {
                &&& final(self).spec_reputation(account) == score
                &&& forall|a: u64|
                    a != account ==> final(self).spec_reputation(a) == old(self).spec_reputation(a)
                &&& forall|a: u64, b: u64|
                    final(self).spec_follows(a, b) == old(self).spec_follows(a, b)
                &&& forall|a: u64|
                    final(self).spec_follower_count(a) == old(self).spec_follower_count(a)
                &&& forall|a: u64|
                    final(self).spec_following_count(a) == old(self).spec_following_count(a)
                &&& final(self).spec_events() == old(self).spec_events().push(
                    (Event::ReputationUpdated {
                        account,
                        old_score: old(self).spec_reputation(account),
                        new_score: score,
                    }),
                )
            },
    {
        match origin {
            Origin::Root => {},
            Origin::Signed(_) => {
                return Err(Error::BadOrigin);
            },
        }

        let old_score = self.get_reputation(account);
        self.reputation.insert(account, score);
        self.events.push(Event::ReputationUpdated { account, old_score, new_score: score });

        proof {
            assert forall|a: u64|
                a != account implies self.spec_reputation(a) == old(self).spec_reputation(a) by {
                assert(self.reputation@.contains_key(a) == old(self).reputation@.contains_key(a));
            }
            assert forall|a: u64|
                #[trigger] self.spec_follower_count(a) == old(self).spec_follower_count(a) by {
                assert(self.follower_counts@ == old(self).follower_counts@);
            }
            assert forall|a: u64|
                #[trigger] self.spec_following_count(a) == old(self).spec_following_count(a) by {
                assert(self.following_counts@ == old(self).following_counts@);
            }
        }
        Ok(())
    }

    /// Whether `follower` currently follows `followee`.
    pub fn is_following(&self, follower: u64, followee: u64) -> (r: bool)
        ensures
            r == self.spec_follows(follower, followee),
    {
        let n = self.edges.len();
        let mut k: usize = 0;
        while k < n
            invariant
                k <= n,
                n == self.edges@.len(),
                forall|j: int| 0 <= j < k ==> self.edges@[j] != (follower, followee),
            decreases n - k,
        {
            let e = self.edges[k];
            if e.0 == follower && e.1 == followee {
                return true;
            }
            k = k + 1;
        }
        proof {
            if self.edges@.contains((follower, followee)) {
                let j = choose|j: int|
                    0 <= j < self.edges@.len() && self.edges@[j] == (follower, followee);
                assert(self.edges@[j] != (follower, followee));
            }
        }
        false
    }

    /// How many accounts follow this one; unknown accounts have none.
    pub fn get_follower_count(&self, account: u64) -> (r: u32)
        ensures
            r == self.spec_follower_count(account),
    {
        match self.follower_counts.get(&account) {
            Some(c) => *c,
            None => 0,
        }
    }

    /// How many accounts this one follows; unknown accounts follow none.
    pub fn get_following_count(&self, account: u64) -> (r: u32)
        ensures
            r == self.spec_following_count(account),
    {
        match self.following_counts.get(&account) {
            Some(c) => *c,
            None => 0,
        }
    }

    /// The reputation score of an account; unset accounts score zero.
    pub fn get_reputation(&self, account: u64) -> (r: u32)
        ensures
            r == self.spec_reputation(account),
    {
        match self.reputation.get(&account) {
            Some(c) => *c,
            None => 0,
        }
    }

    /// The most recently emitted event, if any mutation has succeeded yet.
    pub fn last_event(&self) -> (r: Option<&Event>)
        ensures
            match r {
                Some(event) => self.spec_events().len() > 0
                    && *event == self.spec_events().last(),
                None => self.spec_events().len() == 0,
            },
    {
        if self.events.len() == 0 {
            None
        } else {
            Some(&self.events[self.events.len() - 1])
        }
    }

    /// Counter/edge consistency: in every well-formed store, each account's
    /// stored follower count equals the number of accounts whose follow edge
    /// points at it, and its stored following count equals the number of
    /// accounts its own edges point at; both sets are finite.
    pub proof fn lemma_counter_edge_consistency(self, account: u64)
        requires
            self.wf(),
        ensures
            spec_followers_set(self.spec_edges(), account).finite(),
            self.spec_follower_count(account)
                == spec_followers_set(self.spec_edges(), account).len(),
            spec_following_set(self.spec_edges(), account).finite(),
            self.spec_following_count(account)
                == spec_following_set(self.spec_edges(), account).len(),
    {
        lemma_count_matches_set(self.edges@, account);
    }

    /// Bound invariant: in every well-formed store, no account follows more
    /// accounts than the configured cap, and no account follows itself.
    pub proof fn lemma_following_bounded(self)
        requires
            self.wf(),
        ensures
            forall|a: u64| self.spec_following_count(a) <= self.spec_max_following(),
            forall|a: u64| !self.spec_follows(a, a),
    {
        assert forall|a: u64| !self.spec_follows(a, a) by {
            if self.spec_edges().contains((a, a)) {
                let j = choose|j: int|
                    0 <= j < self.spec_edges().len() && self.spec_edges()[j] == (a, a);
                assert(self.edges@[j].0 != self.edges@[j].1);
            }
        }
    }

    /// Whether this event was ever emitted.
    pub fn has_event(&self, event: &Event) -> (r: bool)
        ensures
            r == self.spec_events().contains(*event),
    {
        let n = self.events.len();
        let mut k: usize = 0;
        while k < n
            invariant
                k <= n,
                n == self.events@.len(),
                forall|j: int| 0 <= j < k ==> self.events@[j] != *event,
            decreases n - k,
        {
            if self.events[k] == *event {
                return true;
            }
            k = k + 1;
        }
        proof {
            if self.events@.contains(*event) {
                let j = choose|j: int| 0 <= j < self.events@.len() && self.events@[j] == *event;
                assert(self.events@[j] != *event);
            }
        }
        false
    }
}

} // verus!
