//! The session registry: the process-local mapping from authenticated user
//! to the set of live sessions of that user.
//!
//! A session is registered under exactly one user, and only after its
//! Identify succeeded; it is removed before its resources are released.
//! The registry holds no transport resources, only delivery handles, so a
//! lookup returns a snapshot copy that the caller may use without holding
//! the registry.

use vstd::prelude::*;

verus! {

/// The sessions registered under user `u`, in registration order.
pub open spec fn sess_of(pairs: Seq<(u128, u128)>, u: u128) -> Seq<u128>
    decreases pairs.len(),
{
    if pairs.len() == 0 {
        Seq::empty()
    } else {
        let rest = sess_of(pairs.drop_last(), u);
        if pairs.last().0 == u {
            rest.push(pairs.last().1)
        } else {
            rest
        }
    }
}

/// How often session `s` is registered, under any user.
pub open spec fn count_sess(pairs: Seq<(u128, u128)>, s: u128) -> nat
    decreases pairs.len(),
{
    if pairs.len() == 0 {
        0
    } else {
        count_sess(pairs.drop_last(), s) + if pairs.last().1 == s { 1nat } else { 0nat }
    }
}

/// How often session `s` is registered under user `u`.
pub open spec fn count_pair(pairs: Seq<(u128, u128)>, u: u128, s: u128) -> nat
    decreases pairs.len(),
{
    if pairs.len() == 0 {
        0
    } else {
        count_pair(pairs.drop_last(), u, s) + if pairs.last() == (u, s) { 1nat } else { 0nat }
    }
}

/// How often `x` occurs in a list of identifiers.
pub open spec fn count_val(q: Seq<u128>, x: u128) -> nat
    decreases q.len(),
{
    if q.len() == 0 {
        0
    } else {
        count_val(q.drop_last(), x) + if q.last() == x { 1nat } else { 0nat }
    }
}

/// The entries that survive removing session `s`.
pub open spec fn rem_sess(pairs: Seq<(u128, u128)>, s: u128) -> Seq<(u128, u128)>
    decreases pairs.len(),
{
    if pairs.len() == 0 {
        Seq::empty()
    } else {
        let rest = rem_sess(pairs.drop_last(), s);
        if pairs.last().1 == s {
            rest
        } else {
            rest.push(pairs.last())
        }
    }
}

/// The identifiers that survive removing `x`.
pub open spec fn rem_val(q: Seq<u128>, x: u128) -> Seq<u128>
    decreases q.len(),
{
    if q.len() == 0 {
        Seq::empty()
    } else {
        let rest = rem_val(q.drop_last(), x);
        if q.last() == x {
            rest
        } else {
            rest.push(q.last())
        }
    }
}

/// A user's session list counts `s` exactly as often as the pair list
/// pairs `u` with `s`.
pub proof fn lemma_sess_count_pair(pairs: Seq<(u128, u128)>, u: u128, s: u128)
    ensures
        count_val(sess_of(pairs, u), s) == count_pair(pairs, u, s),
    decreases pairs.len(),
{
    if pairs.len() > 0 {
        lemma_sess_count_pair(pairs.drop_last(), u, s);
        if pairs.last().0 == u {
            assert(sess_of(pairs, u) == sess_of(pairs.drop_last(), u).push(pairs.last().1));
            assert(sess_of(pairs, u).drop_last() =~= sess_of(pairs.drop_last(), u));
        }
    }
}

/// Under one user a session occurs at most as often as it occurs at all.
pub proof fn lemma_count_pair_le(pairs: Seq<(u128, u128)>, u: u128, s: u128)
    ensures
        count_pair(pairs, u, s) <= count_sess(pairs, s),
    decreases pairs.len(),
{
    if pairs.len() > 0 {
        lemma_count_pair_le(pairs.drop_last(), u, s);
    }
}

/// Two different users cannot both account for the one registration of a
/// session.
pub proof fn lemma_two_owners(pairs: Seq<(u128, u128)>, u: u128, v: u128, s: u128)
    requires
        u != v,
    ensures
        count_pair(pairs, u, s) + count_pair(pairs, v, s) <= count_sess(pairs, s),
    decreases pairs.len(),
{
    if pairs.len() > 0 {
        lemma_two_owners(pairs.drop_last(), u, v, s);
    }
}

/// An entry at index `i` makes the session's count positive.
pub proof fn lemma_count_sess_at(pairs: Seq<(u128, u128)>, i: int, s: u128)
    requires
        0 <= i < pairs.len(),
        pairs[i].1 == s,
    ensures
        count_sess(pairs, s) >= 1,
    decreases pairs.len(),
{
    if i < pairs.len() - 1 {
        lemma_count_sess_at(pairs.drop_last(), i, s);
    }
}

/// Removal removes every registration of the session.
pub proof fn lemma_rem_sess_gone(pairs: Seq<(u128, u128)>, s: u128)
    ensures
        count_sess(rem_sess(pairs, s), s) == 0,
    decreases pairs.len(),
{
    if pairs.len() > 0 {
        lemma_rem_sess_gone(pairs.drop_last(), s);
        if pairs.last().1 != s {
            assert(rem_sess(pairs, s) == rem_sess(pairs.drop_last(), s).push(pairs.last()));
            assert(rem_sess(pairs, s).drop_last() =~= rem_sess(pairs.drop_last(), s));
        }
    }
}

/// Removal of one session leaves every other session's count unchanged.
pub proof fn lemma_rem_sess_other(pairs: Seq<(u128, u128)>, s: u128, x: u128)
    requires
        x != s,
    ensures
        count_sess(rem_sess(pairs, s), x) == count_sess(pairs, x),
    decreases pairs.len(),
{
    if pairs.len() > 0 {
        lemma_rem_sess_other(pairs.drop_last(), s, x);
        if pairs.last().1 != s {
            assert(rem_sess(pairs, s) == rem_sess(pairs.drop_last(), s).push(pairs.last()));
            assert(rem_sess(pairs, s).drop_last() =~= rem_sess(pairs.drop_last(), s));
        }
    }
}

/// Removing a session removes exactly its own entries from each user's
/// session list, keeping the order of the rest.
pub proof fn lemma_sess_of_rem(pairs: Seq<(u128, u128)>, s: u128, v: u128)
    ensures
        sess_of(rem_sess(pairs, s), v) == rem_val(sess_of(pairs, v), s),
    decreases pairs.len(),
{
    if pairs.len() > 0 {
        lemma_sess_of_rem(pairs.drop_last(), s, v);
        let last = pairs.last();
        if last.1 == s {
            if last.0 == v {
                assert(sess_of(pairs, v) == sess_of(pairs.drop_last(), v).push(s));
                assert(sess_of(pairs, v).drop_last() =~= sess_of(pairs.drop_last(), v));
            }
        } else {
            assert(rem_sess(pairs, s) == rem_sess(pairs.drop_last(), s).push(last));
            assert(rem_sess(pairs, s).drop_last() =~= rem_sess(pairs.drop_last(), s));
            if last.0 == v {
                assert(sess_of(pairs, v) == sess_of(pairs.drop_last(), v).push(last.1));
                assert(sess_of(pairs, v).drop_last() =~= sess_of(pairs.drop_last(), v));
                assert(rem_val(sess_of(pairs, v), s) == rem_val(sess_of(pairs.drop_last(), v), s)
                    .push(last.1));
            }
        }
    }
}

/// Removing `x` zeroes its own count and keeps every other count.
pub proof fn lemma_rem_val_counts(q: Seq<u128>, s: u128, x: u128)
    ensures
        count_val(rem_val(q, s), s) == 0,
        x != s ==> count_val(rem_val(q, s), x) == count_val(q, x),
    decreases q.len(),
{
    if q.len() > 0 {
        lemma_rem_val_counts(q.drop_last(), s, x);
        if q.last() != s {
            assert(rem_val(q, s) == rem_val(q.drop_last(), s).push(q.last()));
            assert(rem_val(q, s).drop_last() =~= rem_val(q.drop_last(), s));
        }
    }
}

/// Removing a session that is not registered changes nothing.
pub proof fn lemma_rem_sess_absent(pairs: Seq<(u128, u128)>, s: u128)
    requires
        count_sess(pairs, s) == 0,
    ensures
        rem_sess(pairs, s) == pairs,
    decreases pairs.len(),
{
    if pairs.len() > 0 {
        lemma_rem_sess_absent(pairs.drop_last(), s);
        assert(rem_sess(pairs, s) =~= pairs);
    }
}

/// Registering a session under a user fails when the session is already
/// registered anywhere.
#[derive(Debug)]
pub enum RegistryError {
    AlreadyIdentified,
}

/// The registry itself: user/session entries in registration order.
pub struct Registry {
    pub pairs: Vec<(u128, u128)>,
}

impl Registry {
    /// The raw entries.
    pub open spec fn entries(self) -> Seq<(u128, u128)> {
        self.pairs@
    }

    /// The sessions registered under `u`, oldest first.
    pub open spec fn sessions_of(self, u: u128) -> Seq<u128> {
        sess_of(self.entries(), u)
    }

    /// Whether session `s` is registered at all.
    pub open spec fn has_session(self, s: u128) -> bool {
        count_sess(self.entries(), s) >= 1
    }

    /// Well-formed: every session is registered at most once, under at
    /// most one user.
    pub open spec fn wf(self) -> bool {
        forall|s: u128| count_sess(self.entries(), s) <= 1
    }

    /// An empty registry.
    pub fn new() -> (r: Registry)
        ensures
            r.wf(),
            r.entries() == Seq::<(u128, u128)>::empty(),
    {
        Registry { pairs: Vec::new() }
    }

    /// Whether session `s` is registered.
    pub fn contains_session(&self, s: u128) -> (r: bool)
        ensures
            r == self.has_session(s),
    {
        let n = self.pairs.len();
        let mut i: usize = 0;
        while i < n
            invariant
                i <= n,
                n == self.pairs@.len(),
                count_sess(self.pairs@.take(i as int), s) == 0,
            decreases n - i,
        {
            proof {
                assert(self.pairs@.take(i + 1).drop_last() =~= self.pairs@.take(i as int));
            }
            if self.pairs[i].1 == s {
                proof {
                    lemma_count_sess_at(self.pairs@, i as int, s);
                }
                return true;
            }
            i = i + 1;
        }
        proof {
            assert(self.pairs@.take(n as int) =~= self.pairs@);
        }
        false
    }

    /// Inserts `session` under `user`.  Fails, leaving the registry
    /// unchanged, exactly when the session is already registered.
    pub fn register(&mut self, user: u128, session: u128) -> (r: Result<(), RegistryError>)
        requires
            old(self).wf(),
        ensures
            final(self).wf(),
            match r {
                Result::Ok(u) => !old(self).has_session(session)
                    && final(self).entries() == old(self).entries().push((user, session))
                    && final(self).sessions_of(user) == old(self).sessions_of(user).push(session)
                    && (forall|v: u128| v != user ==> #[trigger] final(self).sessions_of(v)
                        == old(self).sessions_of(v))
                    && final(self).has_session(session)
                    && count_val(final(self).sessions_of(user), session) == 1,
                Result::Err(e) => e == RegistryError::AlreadyIdentified
                    && old(self).has_session(session) && *final(self) == *old(self),
            },
    {
        if self.contains_session(session) {
            return Result::Err(RegistryError::AlreadyIdentified);
        }
        let ghost pairs0 = self.pairs@;
        self.pairs.push((user, session));
        proof {
            let pairs1 = self.pairs@;
            assert(pairs1.drop_last() =~= pairs0);
            assert forall|v: u128| v != user implies sess_of(pairs1, v) == sess_of(pairs0, v) by {
                assert(sess_of(pairs1, v) == sess_of(pairs1.drop_last(), v));
            }
            assert forall|x: u128| count_sess(pairs1, x) <= 1 by {
                assert(count_sess(pairs1, x) == count_sess(pairs0, x) + if x == session {
                    1nat
                } else {
                    0nat
                });
            }
            lemma_sess_count_pair(pairs0, user, session);
            lemma_count_pair_le(pairs0, user, session);
            lemma_sess_count_pair(pairs1, user, session);
            lemma_count_pair_le(pairs1, user, session);
            lemma_count_sess_at(pairs1, pairs1.len() - 1, session);
        }
        Result::Ok(())
    }

    /// Removes `session` from whatever entry holds it; does nothing when
    /// it is not registered, so a second call is harmless.  Every other
    /// session keeps its place under its own user.
    pub fn unregister(&mut self, session: u128)
        requires
            old(self).wf(),
        ensures
            final(self).wf(),
            final(self).entries() == rem_sess(old(self).entries(), session),
            !final(self).has_session(session),
            forall|v: u128| #[trigger] final(self).sessions_of(v) == rem_val(
                old(self).sessions_of(v),
                session,
            ),
            forall|v: u128| count_val(#[trigger] final(self).sessions_of(v), session) == 0,
            forall|v: u128, x: u128| x != session ==> #[trigger] count_val(
                final(self).sessions_of(v),
                x,
            ) == count_val(old(self).sessions_of(v), x),
            !old(self).has_session(session) ==> final(self).entries() == old(self).entries(),
    {
        let ghost pairs0 = self.pairs@;
        let n = self.pairs.len();
        let mut out: Vec<(u128, u128)> = Vec::new();
        let mut i: usize = 0;
        while i < n
            invariant
                i <= n,
                n == pairs0.len(),
                self.pairs@ == pairs0,
                out@ == rem_sess(pairs0.take(i as int), session),
            decreases n - i,
        {
            proof {
                assert(pairs0.take(i + 1).drop_last() =~= pairs0.take(i as int));
            }
            let p = self.pairs[i];
            if p.1 != session {
                out.push(p);
            }
            i = i + 1;
        }
        proof {
            assert(pairs0.take(n as int) =~= pairs0);
        }
        self.pairs = out;
        proof {
            lemma_rem_sess_gone(pairs0, session);
            assert forall|v: u128| sess_of(self.pairs@, v) == rem_val(
                sess_of(pairs0, v),
                session,
            ) by {
                lemma_sess_of_rem(pairs0, session, v);
            }
            assert forall|v: u128| count_val(sess_of(self.pairs@, v), session) == 0 by {
                lemma_sess_of_rem(pairs0, session, v);
                lemma_rem_val_counts(sess_of(pairs0, v), session, session);
            }
            assert forall|v: u128, x: u128| x != session implies count_val(
                sess_of(self.pairs@, v),
                x,
            ) == count_val(sess_of(pairs0, v), x) by {
                lemma_sess_of_rem(pairs0, session, v);
                lemma_rem_val_counts(sess_of(pairs0, v), session, x);
            }
            assert forall|x: u128| count_sess(self.pairs@, x) <= 1 by {
                assert(count_sess(old(self).entries(), x) <= 1);
                if x == session {
                    lemma_rem_sess_gone(pairs0, session);
                } else {
                    lemma_rem_sess_other(pairs0, session, x);
                }
            }
            if count_sess(pairs0, session) == 0 {
                lemma_rem_sess_absent(pairs0, session);
            }
        }
    }

    /// A snapshot of the sessions registered under `u`, oldest first.
    pub fn lookup(&self, u: u128) -> (r: Vec<u128>)
        ensures
            r@ == self.sessions_of(u),
    {
        let n = self.pairs.len();
        let mut r: Vec<u128> = Vec::new();
        let mut i: usize = 0;
        while i < n
            invariant
                i <= n,
                n == self.pairs@.len(),
                r@ == sess_of(self.pairs@.take(i as int), u),
            decreases n - i,
        {
            proof {
                assert(self.pairs@.take(i + 1).drop_last() =~= self.pairs@.take(i as int));
            }
            let p = self.pairs[i];
            if p.0 == u {
                r.push(p.1);
            }
            i = i + 1;
        }
        proof {
            assert(self.pairs@.take(n as int) =~= self.pairs@);
        }
        r
    }
}

} // verus!
