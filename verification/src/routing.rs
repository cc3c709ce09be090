//! Partition-key routing.
//!
//! The routing key of an event is the decimal form of its user
//! identifier, and the partition is a deterministic function of that key
//! and the partition count, so all events of one user land in one
//! partition and are observed there in publish order.

use vstd::prelude::*;
use vstd::string::StrSliceExecFns;

use crate::digits::dec_spec;
use crate::digits::decimal_string;
use crate::event::EventModel;

verus! {

/// The routing key of an event with the given user identifier.
pub open spec fn routing_key_spec(user_id: u32) -> Seq<char> {
    dec_spec(user_id as nat)
}

/// A polynomial hash of the key characters, folded into 32 bits.
pub open spec fn key_hash_spec(s: Seq<char>) -> nat
    decreases s.len(),
{
    if s.len() == 0 {
        0
    } else {
        (key_hash_spec(s.drop_last()) * 31 + s.last() as nat) % 0x1_0000_0000
    }
}

/// The partition the key of `user_id` is assigned among `partition_count`
/// partitions.
pub open spec fn partition_spec(user_id: u32, partition_count: u32) -> u32
    recommends
        partition_count >= 1,
{
    (key_hash_spec(routing_key_spec(user_id)) % partition_count as nat) as u32
}

/// The routing key of an event: the decimal string of its user identifier.
pub fn routing_key(user_id: u32) -> (s: String)
    ensures
        s@ == routing_key_spec(user_id),
{
    decimal_string(user_id as u64)
}

/// Computes the partition for an event's key.
pub fn partition_for(user_id: u32, partition_count: u32) -> (p: u32)
    requires
        partition_count >= 1,
    ensures
        p == partition_spec(user_id, partition_count),
        p < partition_count,
{
    let key = routing_key(user_id);
    let len = key.as_str().unicode_len();
    let mut h: u64 = 0;
    let mut i: usize = 0;
    proof {
        assert(key@.subrange(0, 0) =~= Seq::<char>::empty());
    }
    while i < len
        invariant
            i <= len,
            len == key@.len(),
            key@ == routing_key_spec(user_id),
            h as nat == key_hash_spec(key@.subrange(0, i as int)),
            h < 0x1_0000_0000,
        decreases len - i,
    {
        let c = key.as_str().get_char(i);
        h = (h * 31 + c as u64) % 0x1_0000_0000;
        proof {
            let pre = key@.subrange(0, i as int);
            let post = key@.subrange(0, i as int + 1);
            assert(post.drop_last() =~= pre);
            assert(post.last() == key@[i as int]);
        }
        i = i + 1;
    }
    proof {
        assert(key@.subrange(0, len as int) =~= key@);
    }
    let p = (h % partition_count as u64) as u32;
    p
}

/// Routing stability: two events that carry the same user identifier are
/// assigned the same partition, and every assignment lies below the
/// partition count.
pub proof fn lemma_routing_stable(e1: EventModel, e2: EventModel, partition_count: u32)
    requires
        e1.user_id == e2.user_id,
        partition_count >= 1,
    ensures
        partition_spec(e1.user_id, partition_count) == partition_spec(e2.user_id, partition_count),
        partition_spec(e1.user_id, partition_count) < partition_count,
{
}

} // verus!
