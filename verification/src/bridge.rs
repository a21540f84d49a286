//! The fan-out bridge: routing published events to local sessions.
//!
//! Every node publishes one frame per state-changing operation onto a
//! shared channel, fire and forget; every node's subscriber routes each
//! received frame by its addressing metadata against the local session
//! registry only, never against storage.  Sessions of users with no local
//! session are silently skipped; delivery elsewhere is that node's
//! business.  Publication is best effort: a publish failure is reported to
//! the caller and rolls nothing back.

use vstd::prelude::*;
use crate::codec::encode_publish;
use crate::registry::{count_sess, count_val, sess_of, Registry};
use crate::types::Publish;

verus! {

/// A publish failure, reported to the caller as a warning; the mutation
/// that caused the event already committed.
pub enum BridgeError {
    ChannelUnavailable,
}

/// The sessions a frame reaches: for each target user in order, all of
/// that user's locally registered sessions in registration order.
pub open spec fn route_spec(pairs: Seq<(u128, u128)>, targets: Seq<u128>) -> Seq<u128>
    decreases targets.len(),
{
    if targets.len() == 0 {
        Seq::empty()
    } else {
        route_spec(pairs, targets.drop_last()) + sess_of(pairs, targets.last())
    }
}

/// Computes the local recipient sessions of a frame addressed to
/// `targets`: exactly the registered sessions of the targeted users.
pub fn route(registry: &Registry, targets: &Vec<u128>) -> (r: Vec<u128>)
    ensures
        r@ == route_spec(registry.entries(), targets@),
{
    let n = targets.len();
    let mut r: Vec<u128> = Vec::new();
    let mut i: usize = 0;
    while i < n
        invariant
            i <= n,
            n == targets@.len(),
            r@ == route_spec(registry.entries(), targets@.take(i as int)),
        decreases n - i,
    {
        proof {
            assert(targets@.take(i + 1).drop_last() =~= targets@.take(i as int));
        }
        let mut found = registry.lookup(targets[i]);
        r.append(&mut found);
        i = i + 1;
    }
    proof {
        assert(targets@.take(n as int) =~= targets@);
    }
    r
}

/// Builds the frame a publication puts on the shared channel.  Encoding
/// itself cannot fail: publishing to a user with no session anywhere still
/// produces a well-formed frame and no error.
pub fn publish_frame(p: &Publish) -> (s: String)
    ensures
        s@ == crate::codec::render_publish(*p),
{
    encode_publish(p)
}

/// In a well-formed registry a session of a targeted user receives the
/// frame exactly as often as its owner is targeted: once for a target
/// list that names the owner once, and never when the owner is absent.
/// Sessions of users outside the target list receive nothing.
pub proof fn lemma_route_count(pairs: Seq<(u128, u128)>, targets: Seq<u128>, u: u128, s: u128)
    requires
        forall|x: u128| count_sess(pairs, x) <= 1,
        count_val(sess_of(pairs, u), s) >= 1,
    ensures
        count_val(route_spec(pairs, targets), s) == count_val(targets, u),
    decreases targets.len(),
{
    if targets.len() > 0 {
        lemma_route_count(pairs, targets.drop_last(), u, s);
        let t = targets.last();
        let prev = route_spec(pairs, targets.drop_last());
        let add = sess_of(pairs, t);
        lemma_count_val_add(prev, add, s);
        crate::registry::lemma_sess_count_pair(pairs, u, s);
        crate::registry::lemma_count_pair_le(pairs, u, s);
        if t == u {
            assert(count_val(add, s) == 1);
        } else {
            crate::registry::lemma_sess_count_pair(pairs, t, s);
            crate::registry::lemma_two_owners(pairs, u, t, s);
            assert(count_val(add, s) == 0);
        }
    }
}

/// Occurrence counts add over concatenation.
pub proof fn lemma_count_val_add(a: Seq<u128>, b: Seq<u128>, x: u128)
    ensures
        count_val(a + b, x) == count_val(a, x) + count_val(b, x),
    decreases b.len(),
{
    if b.len() == 0 {
        assert(a + b =~= a);
    } else {
        lemma_count_val_add(a, b.drop_last(), x);
        assert((a + b).drop_last() =~= a + b.drop_last());
        assert((a + b).last() == b.last());
    }
}

/// A frame addressed only to users with no local session reaches no local
/// session at all: delivery completes with zero recipients.
pub proof fn lemma_route_empty(pairs: Seq<(u128, u128)>, targets: Seq<u128>)
    requires
        forall|k: int| 0 <= k < targets.len() ==> sess_of(pairs, #[trigger] targets[k])
            == Seq::<u128>::empty(),
    ensures
        route_spec(pairs, targets) == Seq::<u128>::empty(),
    decreases targets.len(),
{
    if targets.len() > 0 {
        lemma_route_empty(pairs, targets.drop_last());
        assert(targets.drop_last().len() == targets.len() - 1);
        assert forall|k: int| 0 <= k < targets.drop_last().len() implies sess_of(
            pairs,
            #[trigger] targets.drop_last()[k],
        ) == Seq::<u128>::empty() by {
            assert(targets.drop_last()[k] == targets[k]);
        }
        assert(targets.last() == targets[targets.len() - 1]);
        assert(route_spec(pairs, targets) =~= Seq::<u128>::empty());
    }
}


/// Whether a session's intents bitmask grants interest in an event whose
/// kind requires `mask`: every required bit must be set.  Which mask each
/// event kind carries belongs to the event catalog; this is only the
/// comparison.
pub fn intents_allow(intents: u64, mask: u64) -> (r: bool)
    ensures
        r == (intents & mask == mask),
{
    intents & mask == mask
}

} // verus!
