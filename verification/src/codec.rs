//! MessageCodec: the byte-exact layout of outbound frames.
//!
//! The layout is fixed by the daemon's parser; any deviation breaks
//! interoperability, so each builder's contract pins the produced bytes to a
//! spec-level description of the frame, field by field.

use crate::error::SpreadError;
use crate::text::{latin1_encodable, latin1_encode, latin1_seq};
use crate::util::spec_int_to_bytes;
use vstd::prelude::*;

verus! {

/// Service-type tag of a Join control frame.
pub const JOIN_MESSAGE: u32 = 0x00010000;

/// Service-type tag of a Leave control frame.
pub const LEAVE_MESSAGE: u32 = 0x00020000;

/// Service-type tag of a Kill control frame.
pub const KILL_MESSAGE: u32 = 0x00040000;

/// Service-type tag of a reliable multicast data frame.
pub const RELIABLE_MESSAGE: u32 = 0x00000002;

/// Width of a name slot on the wire: names are zero-padded or truncated to
/// this many bytes.
pub const MAX_GROUP_NAME_LENGTH: usize = 32;

/// Longest requested private name sent in a connect frame; a longer request
/// is truncated at connect time only.
pub const MAX_PRIVATE_NAME_LENGTH: usize = 10;

/// Major version announced in the connect frame.
pub const SPREAD_MAJOR_VERSION: u8 = 4;

/// Minor version announced in the connect frame.
pub const SPREAD_MINOR_VERSION: u8 = 4;

/// Patch version announced in the connect frame.
pub const SPREAD_PATCH_VERSION: u8 = 0;

/// `b` fitted to the fixed 32-byte name slot: zero-padded, or truncated if
/// it already exceeds the slot.
pub open spec fn pad_slot(b: Seq<u8>) -> Seq<u8> {
    if b.len() >= 32 {
        b.take(32)
    } else {
        b + Seq::new((32 - b.len()) as nat, |_i: int| 0u8)
    }
}

/// The 32-byte wire slots of the group names, in order.
pub open spec fn group_slots(groups: Seq<Seq<char>>) -> Seq<u8>
    decreases groups.len(),
{
    if groups.len() == 0 {
        Seq::empty()
    } else {
        group_slots(groups.drop_last()) + pad_slot(latin1_seq(groups.last()))
    }
}

/// Every name in `groups` is Latin-1 encodable.
pub open spec fn groups_encodable(groups: Seq<Seq<char>>) -> bool {
    forall|i: int| 0 <= i < groups.len() ==> latin1_encodable(#[trigger] groups[i])
}

/// The exact bytes of a service/data frame: service-type word, 32-byte
/// sender slot, group count, reserved zero word, payload length, one
/// 32-byte slot per group in order, then the raw payload.
pub open spec fn spec_frame_bytes(
    service_type: u32,
    sender: Seq<char>,
    groups: Seq<Seq<char>>,
    data: Seq<u8>,
) -> Seq<u8> {
    spec_int_to_bytes(service_type) + pad_slot(latin1_seq(sender)) + spec_int_to_bytes(
        groups.len() as u32,
    ) + spec_int_to_bytes(0) + spec_int_to_bytes(data.len() as u32) + group_slots(groups) + data
}

/// The exact bytes of a connect frame: version triple, membership flag,
/// name length, then the requested private name, truncated to the 10-byte
/// private-name limit when longer.
pub open spec fn spec_connect_frame(name: Seq<char>, receive_membership_messages: bool) -> Seq<
    u8,
> {
    let enc = latin1_seq(name);
    let t = if enc.len() > 10 {
        enc.take(10)
    } else {
        enc
    };
    seq![
        4u8,
        4u8,
        0u8,
        if receive_membership_messages {
            0x10u8
        } else {
            0u8
        },
        t.len() as u8,
    ] + t
}

/// The number of wire bytes taken by the group slots.
pub proof fn lemma_group_slots_len(groups: Seq<Seq<char>>)
    ensures
        group_slots(groups).len() == 32 * groups.len(),
    decreases groups.len(),
{
    if groups.len() > 0 {
        lemma_group_slots_len(groups.drop_last());
    }
}

/// Each group's 32-byte slot sits at its own offset in the group-slot area.
pub proof fn lemma_group_slots_index(groups: Seq<Seq<char>>, i: int)
    requires
        0 <= i < groups.len(),
    ensures
        group_slots(groups).subrange(32 * i, 32 * i + 32) == pad_slot(latin1_seq(groups[i])),
    decreases groups.len(),
{
    lemma_group_slots_len(groups);
    lemma_group_slots_len(groups.drop_last());
    if i == groups.len() - 1 {
        assert(group_slots(groups).subrange(32 * i, 32 * i + 32) =~= pad_slot(
            latin1_seq(groups.last()),
        ));
    } else {
        lemma_group_slots_index(groups.drop_last(), i);
        assert(group_slots(groups).subrange(32 * i, 32 * i + 32) =~= group_slots(
            groups.drop_last(),
        ).subrange(32 * i, 32 * i + 32));
    }
}

/// Fit encoded name bytes to the fixed 32-byte wire slot.
pub(crate) fn pad_to_slot(b: Vec<u8>) -> (r: Vec<u8>)
    ensures
        r@ == pad_slot(b@),
{
    let ghost b0 = b@;
    let mut v = b;
    if v.len() >= MAX_GROUP_NAME_LENGTH {
        v.truncate(MAX_GROUP_NAME_LENGTH);
        proof {
            assert(v@ =~= pad_slot(b0));
        }
    } else {
        while v.len() < MAX_GROUP_NAME_LENGTH
            invariant
                b0.len() < 32,
                b0.len() <= v@.len() <= 32,
                v@ == b0 + Seq::new((v@.len() - b0.len()) as nat, |_i: int| 0u8),
            decreases 32 - v@.len(),
        {
            v.push(0);
            proof {
                assert(v@ =~= b0 + Seq::new((v@.len() - b0.len()) as nat, |_i: int| 0u8));
            }
        }
        proof {
            assert(v@ =~= pad_slot(b0));
        }
    }
    v
}

/// Build the connect frame for a requested private name and membership
/// flag: `[major, minor, patch, flags, len]` followed by the name bytes,
/// with the name truncated to the private-name limit when longer.
///
/// Succeeds exactly when the name is Latin-1 encodable; otherwise the text
/// codec cannot represent it and the result is `EncodingFailed`.
pub fn encode_connect_message(private_name: &str, receive_membership_messages: bool) -> (r: Result<
    Vec<u8>,
    SpreadError,
>)
    ensures
        r is Ok <==> latin1_encodable(private_name@),
        r is Ok ==> r->Ok_0@ == spec_connect_frame(private_name@, receive_membership_messages),
        r is Err ==> r->Err_0 == SpreadError::EncodingFailed,
{
    let mut enc = match latin1_encode(private_name) {
        Some(v) => v,
        None => {
            return Err(SpreadError::EncodingFailed);
        },
    };
    if enc.len() > MAX_PRIVATE_NAME_LENGTH {
        enc.truncate(MAX_PRIVATE_NAME_LENGTH);
    }
    let mut v: Vec<u8> = Vec::new();
    v.push(SPREAD_MAJOR_VERSION);
    v.push(SPREAD_MINOR_VERSION);
    v.push(SPREAD_PATCH_VERSION);
    if receive_membership_messages {
        v.push(0x10);
    } else {
        v.push(0);
    }
    v.push(enc.len() as u8);
    v.append(&mut enc);
    proof {
        assert(v@ =~= spec_connect_frame(private_name@, receive_membership_messages));
    }
    Ok(v)
}

} // verus!
