//! Receiver/Framer: parsing inbound frames.
//!
//! A frame's integer fields share one byte-order decision, derived once
//! from the frame's leading service-type word and applied uniformly to the
//! group count and the payload length. Name slots are decoded through the
//! Latin-1 codec with their trailing zero padding trimmed.

use crate::codec::{
    group_slots, groups_encodable, lemma_group_slots_index, lemma_group_slots_len, pad_slot,
    spec_frame_bytes,
};
use crate::error::SpreadError;
use crate::text::{
    latin1_chars, latin1_decode, latin1_encodable, latin1_seq, lemma_latin1_round_trip,
};
use crate::util::{
    bytes_to_int, flip_endianness, lemma_int_to_bytes_to_int, same_endianness, spec_bytes_to_int,
    spec_flip_endianness, spec_int_to_bytes, spec_same_endianness,
};
use vstd::prelude::*;
use vstd::slice::{slice_subrange, slice_to_vec};

verus! {

/// A message received from a Spread daemon, immutable once constructed.
#[derive(Debug, PartialEq)]
pub struct SpreadMessage {
    /// The service-type tag, normalized to the receiver's byte order.
    pub service_type: u32,
    /// The ordered group list the message was addressed to.
    pub groups: Vec<String>,
    /// The sender's name, with its slot's zero padding trimmed.
    pub sender: String,
    /// The raw payload bytes, unmodified.
    pub data: Vec<u8>,
}

/// `s` with every trailing NUL character removed.
pub open spec fn trim_trailing_nuls(s: Seq<char>) -> Seq<char>
    decreases s.len(),
{
    if s.len() > 0 && s.last() == '\0' {
        trim_trailing_nuls(s.drop_last())
    } else {
        s
    }
}

/// The word `raw` as the frame's swap decision reads it.
pub open spec fn resolve_word(raw: u32, swap: bool) -> u32 {
    if swap {
        spec_flip_endianness(raw)
    } else {
        raw
    }
}

/// The frame's one byte-order decision, derived from its leading word.
pub open spec fn spec_frame_swap(h: Seq<u8>) -> bool
    recommends
        h.len() == 48,
{
    !spec_same_endianness(spec_bytes_to_int(h.subrange(0, 4)))
}

/// The service-type tag a 48-byte header carries, byte order resolved.
pub open spec fn spec_header_service_type(h: Seq<u8>) -> u32
    recommends
        h.len() == 48,
{
    resolve_word(spec_bytes_to_int(h.subrange(0, 4)), spec_frame_swap(h))
}

/// The sender name a 48-byte header carries, zero padding trimmed.
pub open spec fn spec_header_sender(h: Seq<u8>) -> Seq<char>
    recommends
        h.len() == 48,
{
    trim_trailing_nuls(latin1_chars(h.subrange(4, 36)))
}

/// The group count a 48-byte header carries, byte order resolved.
pub open spec fn spec_header_num_groups(h: Seq<u8>) -> u32
    recommends
        h.len() == 48,
{
    resolve_word(spec_bytes_to_int(h.subrange(36, 40)), spec_frame_swap(h))
}

/// The payload length a 48-byte header carries, byte order resolved.
pub open spec fn spec_header_data_len(h: Seq<u8>) -> u32
    recommends
        h.len() == 48,
{
    resolve_word(spec_bytes_to_int(h.subrange(44, 48)), spec_frame_swap(h))
}

/// The ordered group names read from `count` 32-byte wire slots.
pub open spec fn spec_groups_of(b: Seq<u8>, count: int) -> Seq<Seq<char>>
    recommends
        b.len() == 32 * count,
{
    Seq::new(
        count as nat,
        |i: int| trim_trailing_nuls(latin1_chars(b.subrange(32 * i, 32 * i + 32))),
    )
}

/// The fields parsed from one whole frame buffer: service type, sender,
/// groups, and payload; `None` when the buffer is not exactly one frame.
pub open spec fn spec_parse_frame(b: Seq<u8>) -> Option<(u32, Seq<char>, Seq<Seq<char>>, Seq<u8>)> {
    if b.len() < 48 {
        None
    } else {
        let ng = spec_header_num_groups(b.take(48)) as int;
        let dl = spec_header_data_len(b.take(48)) as int;
        if b.len() == 48 + 32 * ng + dl {
            Some(
                (
                    spec_header_service_type(b.take(48)),
                    spec_header_sender(b.take(48)),
                    spec_groups_of(b.subrange(48, 48 + 32 * ng), ng),
                    b.subrange(48 + 32 * ng, 48 + 32 * ng + dl),
                ),
            )
        } else {
            None
        }
    }
}

/// The parsed fields of a fixed 48-byte frame header.
pub struct FrameHeader {
    /// The service-type tag, byte order resolved.
    pub service_type: u32,
    /// The sender's name, zero padding trimmed.
    pub sender: String,
    /// How many 32-byte group slots follow the header.
    pub num_groups: u32,
    /// How many payload bytes follow the group slots.
    pub data_len: u32,
}

/// Byte-level trimming before decoding equals char-level trimming after.
proof fn lemma_trim_bytes(b: Seq<u8>, end: int)
    requires
        0 <= end <= b.len(),
        forall|i: int| end <= i < b.len() ==> b[i] == 0,
        end > 0 ==> b[end - 1] != 0,
    ensures
        latin1_chars(b.subrange(0, end)) == trim_trailing_nuls(latin1_chars(b)),
    decreases b.len(),
{
    let chars = latin1_chars(b);
    if end == b.len() {
        if b.len() > 0 {
            assert(chars.last() == (b.last() as char));
            assert((b.last() as char) as u32 == b.last());
            assert(chars.last() != '\0');
        }
        assert(b.subrange(0, end) =~= b);
    } else {
        assert(chars.last() == (b.last() as char));
        vstd::utf8::char_u32_cast('\0', 0);
        assert((0u8 as char) == '\0');
        assert(chars.last() == '\0');
        assert(chars.drop_last() =~= latin1_chars(b.drop_last()));
        lemma_trim_bytes(b.drop_last(), end);
        assert(b.drop_last().subrange(0, end) =~= b.subrange(0, end));
    }
}

/// Decode one 32-byte name slot: trim the trailing zero padding, then read
/// the remaining bytes through the Latin-1 codec.
pub(crate) fn decode_name_slot(slot: &[u8]) -> (r: String)
    requires
        slot@.len() == 32,
    ensures
        r@ == trim_trailing_nuls(latin1_chars(slot@)),
{
    let mut end: usize = slot.len();
    while end > 0 && slot[end - 1] == 0
        invariant
            end <= slot@.len() == 32,
            forall|i: int| end <= i < 32 ==> slot@[i] == 0,
        decreases end,
    {
        end = end - 1;
    }
    let trimmed = slice_subrange(slot, 0, end);
    let r = latin1_decode(trimmed);
    proof {
        lemma_trim_bytes(slot@, end as int);
    }
    r
}

/// Parse the fixed 48-byte frame header: decode the leading service-type
/// word as big-endian, derive the frame's byte-order decision from it, and
/// apply that one decision to the group count and the payload length.
pub fn decode_header(header: &[u8]) -> (r: FrameHeader)
    requires
        header@.len() == 48,
    ensures
        r.service_type == spec_header_service_type(header@),
        r.sender@ == spec_header_sender(header@),
        r.num_groups == spec_header_num_groups(header@),
        r.data_len == spec_header_data_len(header@),
{
    let word = bytes_to_int(slice_subrange(header, 0, 4));
    let swap = !same_endianness(word);
    let service_type = if swap {
        flip_endianness(word)
    } else {
        word
    };
    let sender = decode_name_slot(slice_subrange(header, 4, 36));
    let groups_word = bytes_to_int(slice_subrange(header, 36, 40));
    let num_groups = if swap {
        flip_endianness(groups_word)
    } else {
        groups_word
    };
    let len_word = bytes_to_int(slice_subrange(header, 44, 48));
    let data_len = if swap {
        flip_endianness(len_word)
    } else {
        len_word
    };
    FrameHeader { service_type, sender, num_groups, data_len }
}

/// Decode the ordered group list from `count` 32-byte wire slots.
pub fn decode_groups(bytes: &[u8], count: u32) -> (r: Vec<String>)
    requires
        bytes@.len() == 32 * count,
    ensures
        r.deep_view() == spec_groups_of(bytes@, count as int),
{
    let mut out: Vec<String> = Vec::new();
    let total = bytes.len();
    let mut i: usize = 0;
    while i < count as usize
        invariant
            total == bytes@.len() == 32 * count,
            i <= count,
            out.deep_view() == spec_groups_of(bytes@, count as int).take(i as int),
        decreases count - i,
    {
        proof {
            assert(32 * (i as int) + 32 <= 32 * (count as int));
        }
        let start = i * 32;
        let slot = slice_subrange(bytes, start, start + 32);
        let name = decode_name_slot(slot);
        let ghost pre = out.deep_view();
        let ghost pre_vec = out@;
        out.push(name);
        proof {
            let all = spec_groups_of(bytes@, count as int);
            assert(slot@ == bytes@.subrange(32 * (i as int), 32 * (i as int) + 32));
            assert(name@ == all[i as int]);
            let post = out.deep_view();
            assert(out@ == pre_vec.push(name));
            assert(pre.len() == i as int);
            assert(post.len() == i as int + 1);
            assert forall|j: int| 0 <= j < i as int + 1 implies post[j] == all[j] by {
                if j < i as int {
                    assert(out@[j] == pre_vec[j]);
                    assert(post[j] == pre[j]);
                    assert(pre[j] == all.take(i as int)[j]);
                    assert(all.take(i as int)[j] == all[j]);
                } else {
                    assert(out@[j] == name);
                    assert(post[j] == name@);
                }
            }
            assert forall|j: int| 0 <= j < i as int + 1 implies post[j] == all.take(
                i as int + 1,
            )[j] by {
                assert(all.take(i as int + 1)[j] == all[j]);
            }
            assert(post =~= all.take(i as int + 1));
        }
        i = i + 1;
    }
    proof {
        assert(spec_groups_of(bytes@, count as int).take(count as int) =~= spec_groups_of(
            bytes@,
            count as int,
        ));
    }
    out
}

/// Trailing NUL characters appended to a sequence do not change its trim.
proof fn lemma_trim_after_nuls(s: Seq<char>, n: nat)
    ensures
        trim_trailing_nuls(s + Seq::new(n, |_i: int| '\0')) == trim_trailing_nuls(s),
    decreases n,
{
    if n == 0 {
        assert(s + Seq::new(0, |_i: int| '\0') =~= s);
    } else {
        let padded = s + Seq::new(n, |_i: int| '\0');
        assert(padded.last() == '\0');
        assert(padded.drop_last() =~= s + Seq::new((n - 1) as nat, |_i: int| '\0'));
        lemma_trim_after_nuls(s, (n - 1) as nat);
    }
}

/// A name fitted to its 32-byte wire slot decodes back to the name, modulo
/// the trim of the name's own trailing NULs.
pub proof fn lemma_slot_round_trip(name: Seq<char>)
    requires
        latin1_encodable(name),
        name.len() <= 32,
    ensures
        trim_trailing_nuls(latin1_chars(pad_slot(latin1_seq(name)))) == trim_trailing_nuls(name),
{
    let enc = latin1_seq(name);
    lemma_latin1_round_trip(name);
    if enc.len() >= 32 {
        assert(pad_slot(enc) =~= enc);
    } else {
        let zeros = Seq::new((32 - enc.len()) as nat, |_i: int| 0u8);
        assert(pad_slot(enc) == enc + zeros);
        vstd::utf8::char_u32_cast('\0', 0);
        assert((0u8 as char) == '\0');
        assert(latin1_chars(enc + zeros) =~= latin1_chars(enc) + Seq::new(
            zeros.len(),
            |_i: int| '\0',
        ));
        lemma_trim_after_nuls(name, zeros.len());
    }
}

/// Round trip of the message codec: a frame built from any encodable
/// sender, group list, and payload parses back to the same service type,
/// the same payload, and the same sender and group names modulo the trim
/// of their zero padding — provided the service-type word does not itself
/// carry the byte-order sentinel pattern, which would make the receiver
/// read the frame as byte-swapped.
pub proof fn lemma_frame_round_trip(
    service_type: u32,
    sender: Seq<char>,
    groups: Seq<Seq<char>>,
    data: Seq<u8>,
)
    requires
        spec_same_endianness(service_type),
        latin1_encodable(sender),
        sender.len() <= 32,
        groups_encodable(groups),
        forall|i: int| 0 <= i < groups.len() ==> (#[trigger] groups[i]).len() <= 32,
        groups.len() <= u32::MAX,
        data.len() <= u32::MAX,
    ensures
        spec_parse_frame(spec_frame_bytes(service_type, sender, groups, data)) == Some(
            (
                service_type,
                trim_trailing_nuls(sender),
                Seq::new(groups.len(), |i: int| trim_trailing_nuls(groups[i])),
                data,
            ),
        ),
{
    let glen = groups.len() as int;
    let dlen = data.len() as int;
    let c0 = spec_int_to_bytes(service_type);
    let sslot = pad_slot(latin1_seq(sender));
    let c2 = spec_int_to_bytes(groups.len() as u32);
    let c4 = spec_int_to_bytes(data.len() as u32);
    let slots = group_slots(groups);
    let b = spec_frame_bytes(service_type, sender, groups, data);
    lemma_group_slots_len(groups);
    assert(sslot.len() == 32);
    assert(b.len() == 48 + 32 * glen + dlen);
    let h = b.take(48);
    assert(h.subrange(0, 4) =~= c0);
    lemma_int_to_bytes_to_int(service_type);
    assert(spec_bytes_to_int(h.subrange(0, 4)) == service_type);
    assert(!spec_frame_swap(h));
    assert(spec_header_service_type(h) == service_type);
    assert(h.subrange(4, 36) =~= sslot);
    lemma_slot_round_trip(sender);
    assert(spec_header_sender(h) == trim_trailing_nuls(sender));
    assert(h.subrange(36, 40) =~= c2);
    lemma_int_to_bytes_to_int(groups.len() as u32);
    assert(spec_header_num_groups(h) == groups.len() as u32);
    assert(spec_header_num_groups(h) as int == glen);
    assert(h.subrange(44, 48) =~= c4);
    lemma_int_to_bytes_to_int(data.len() as u32);
    assert(spec_header_data_len(h) as int == dlen);
    let area = b.subrange(48, 48 + 32 * glen);
    assert(area =~= slots);
    let parsed_groups = spec_groups_of(area, glen);
    assert forall|i: int| 0 <= i < glen implies parsed_groups[i] == trim_trailing_nuls(
        groups[i],
    ) by {
        lemma_group_slots_index(groups, i);
        assert(area.subrange(32 * i, 32 * i + 32) == pad_slot(latin1_seq(groups[i])));
        lemma_slot_round_trip(groups[i]);
    }
    assert(parsed_groups =~= Seq::new(groups.len(), |i: int| trim_trailing_nuls(groups[i])));
    assert(b.subrange(48 + 32 * glen, 48 + 32 * glen + dlen) =~= data);
    assert(spec_parse_frame(b) is Some);
}

/// Parse one whole frame from a buffer holding exactly one frame: the
/// 48-byte header, the group slots its count announces, and the payload its
/// length announces. Any other buffer shape is structurally invalid server
/// data and yields `MalformedServerResponse`.
pub fn decode_frame(bytes: &[u8]) -> (r: Result<SpreadMessage, SpreadError>)
    ensures
        r is Ok <==> spec_parse_frame(bytes@) is Some,
        r is Ok ==> {
            let p = spec_parse_frame(bytes@)->0;
            &&& r->Ok_0.service_type == p.0
            &&& r->Ok_0.sender@ == p.1
            &&& r->Ok_0.groups.deep_view() == p.2
            &&& r->Ok_0.data@ == p.3
        },
        r is Err ==> r->Err_0 == SpreadError::MalformedServerResponse,
{
    if bytes.len() < 48 {
        return Err(SpreadError::MalformedServerResponse);
    }
    let header = slice_subrange(bytes, 0, 48);
    proof {
        assert(header@ =~= bytes@.take(48));
    }
    let h = decode_header(header);
    let expected: u64 = 48u64 + 32u64 * (h.num_groups as u64) + (h.data_len as u64);
    if bytes.len() as u64 != expected {
        return Err(SpreadError::MalformedServerResponse);
    }
    let groups_end: usize = 48 + 32 * (h.num_groups as usize);
    let groups_bytes = slice_subrange(bytes, 48, groups_end);
    proof {
        assert(groups_bytes@ =~= bytes@.subrange(48, 48 + 32 * (h.num_groups as int)));
    }
    let groups = decode_groups(groups_bytes, h.num_groups);
    let data = slice_to_vec(slice_subrange(bytes, groups_end, bytes.len()));
    Ok(SpreadMessage { service_type: h.service_type, groups, sender: h.sender, data })
}

} // verus!
