//! Wire codec for events.
//!
//! The frame is self-describing: a fixed-width decimal header carries the
//! user identifier and the length of the action token, so a malformed
//! frame is recognised as such (a recoverable decode failure) rather than
//! being confused with a broker failure.  Layout, in characters:
//! ten digits of `user_id`, twenty digits of the action length, the
//! action itself, then the producer identifier to the end of the frame.

use vstd::prelude::*;
use vstd::string::StringExecFns;
use vstd::string::StrSliceExecFns;

use crate::digits::all_digits;
use crate::digits::dec_fixed_spec;
use crate::digits::digits_val;
use crate::digits::lemma_dec_fixed_val;
use crate::digits::lemma_pow10_10;
use crate::digits::lemma_pow10_20;
use crate::digits::parse_digits;
use crate::digits::pow10;
use crate::digits::decimal_fixed;
use crate::event::EventModel;
use crate::event::UserAction;

verus! {

/// The encoded form of an event model.
pub open spec fn encode_spec(m: EventModel) -> Seq<char> {
    dec_fixed_spec(m.user_id as nat, 10) + dec_fixed_spec(m.action.len(), 20) + m.action
        + m.producer_id
}

/// The event model an encoded frame denotes, if any.  A frame shorter
/// than its header, a non-digit in the header, a user identifier out of
/// range, an empty action, or an action length pointing past the end of
/// the frame all make the frame undecodable.
pub open spec fn decode_spec(s: Seq<char>) -> Option<EventModel> {
    let uid_digits = s.subrange(0, 10);
    let len_digits = s.subrange(10, 30);
    if s.len() >= 30 && all_digits(uid_digits) && all_digits(len_digits) && digits_val(uid_digits)
        <= u32::MAX && 1 <= digits_val(len_digits) && 30 + digits_val(len_digits) <= s.len() {
        Some(
            EventModel {
                user_id: digits_val(uid_digits) as u32,
                action: s.subrange(30, 30 + digits_val(len_digits) as int),
                producer_id: s.subrange(30 + digits_val(len_digits) as int, s.len() as int),
            },
        )
    } else {
        None
    }
}

/// Encodes an event into its wire frame.
pub fn encode(e: &UserAction) -> (s: String)
    ensures
        s@ == encode_spec(e@),
{
    let mut s = decimal_fixed(e.user_id as u128, 10);
    let alen = e.action.as_str().unicode_len();
    let len_part = decimal_fixed(alen as u128, 20);
    s.append(len_part.as_str());
    s.append(e.action.as_str());
    s.append(e.producer_id.as_str());
    proof {
        assert(s@ =~= encode_spec(e@));
    }
    s
}

/// Decodes a wire frame back into an event; `None` exactly on the frames
/// that no well-formed event encodes to.
pub fn decode(s: &str) -> (r: Option<UserAction>)
    ensures
        match r {
            Some(e) => decode_spec(s@) == Some(e@) && e@.wf(),
            None => decode_spec(s@) is None,
        },
{
    let n = s.unicode_len();
    if n < 30 {
        return None;
    }
    let uid = match parse_digits(s, 0, 10) {
        Some(v) => v,
        None => {
            return None;
        },
    };
    let alen_raw = match parse_digits(s, 10, 30) {
        Some(v) => v,
        None => {
            return None;
        },
    };
    if uid > u32::MAX as u128 {
        return None;
    }
    if alen_raw < 1 {
        return None;
    }
    if alen_raw > (n - 30) as u128 {
        return None;
    }
    let alen = alen_raw as usize;
    let action = s.substring_char(30, 30 + alen);
    let producer = s.substring_char(30 + alen, n);
    let e = UserAction {
        user_id: uid as u32,
        action: String::from_str(action),
        producer_id: String::from_str(producer),
    };
    proof {
        assert(decode_spec(s@) == Some(e@));
    }
    Some(e)
}

/// Round-trip identity of the codec: decoding the encoding of any
/// well-formed event yields that event back.  The one bound beside
/// well-formedness is the width of the length header, far beyond any
/// string a machine can hold.
pub proof fn lemma_round_trip(m: EventModel)
    requires
        m.wf(),
        m.action.len() < pow10(20),
    ensures
        decode_spec(encode_spec(m)) == Some(m),
{
    let s = encode_spec(m);
    let a = dec_fixed_spec(m.user_id as nat, 10);
    let b = dec_fixed_spec(m.action.len(), 20);
    lemma_dec_fixed_val(m.user_id as nat, 10);
    lemma_dec_fixed_val(m.action.len(), 20);
    lemma_pow10_10();
    lemma_pow10_20();
    vstd::arithmetic::div_mod::lemma_small_mod(m.user_id as nat, pow10(10));
    vstd::arithmetic::div_mod::lemma_small_mod(m.action.len(), pow10(20));
    assert(s.subrange(0, 10) =~= a);
    assert(s.subrange(10, 30) =~= b);
    assert(digits_val(a) == m.user_id);
    assert(digits_val(b) == m.action.len());
    assert(s.subrange(30, 30 + digits_val(b) as int) =~= m.action);
    assert(s.subrange(30 + digits_val(b) as int, s.len() as int) =~= m.producer_id);
}

} // verus!
