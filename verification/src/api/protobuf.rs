//! A minimal protobuf encoder, enough for the continuation tokens that select
//! the sort order of a channel's video listing.
use vstd::prelude::*;
use base64::Engine as _;
use crate::cli::ChannelSort;

verus! {

// ---------------------------------------------------------------------------
// Varints
// ---------------------------------------------------------------------------

/// The protobuf varint encoding of `v`: seven bits per byte, least significant
/// group first, the high bit set on every byte but the last.
pub open spec fn varint(v: nat) -> Seq<u8>
    decreases v,
{
    if v < 128 {
        seq![v as u8]
    } else {
        seq![((v % 128) + 128) as u8] + varint(v / 128)
    }
}

/// The value a varint encodes.
pub open spec fn varint_value(bytes: Seq<u8>) -> nat
    decreases bytes.len(),
{
    if bytes.len() == 0 {
        0
    } else {
        (bytes[0] % 128) as nat + 128 * varint_value(bytes.drop_first())
    }
}

/// Decoding a varint gives back the value; every byte but the last carries the
/// continuation bit, the last does not.
pub proof fn lemma_varint_roundtrip(v: nat)
    ensures
        varint_value(varint(v)) == v,
        varint(v).len() >= 1,
        varint(v).last() < 128,
        forall|i: int| 0 <= i < varint(v).len() - 1 ==> varint(v)[i] >= 128,
    decreases v,
{
    if v >= 128 {
        lemma_varint_roundtrip(v / 128);
        let s = varint(v);
        assert(s.drop_first() =~= varint(v / 128));
        assert(s[0] == ((v % 128) + 128) as u8);
        assert(s[0] % 128 == v % 128);
        assert(varint_value(s) == (s[0] % 128) as nat + 128 * varint_value(s.drop_first()));
        assert forall|i: int| 0 <= i < varint(v).len() - 1 implies varint(v)[i] >= 128 by {
            if i > 0 {
                assert(varint(v)[i] == varint(v / 128)[i - 1]);
            }
        }
    } else {
        assert(varint(v).drop_first() =~= Seq::<u8>::empty());
        assert(varint_value(Seq::<u8>::empty()) == 0);
        assert(varint(v)[0] == v as u8);
    }
}

/// Encodes `value` as a protobuf varint.
pub fn pb_varint(value: u64) -> (r: Vec<u8>)
    ensures
        r@ == varint(value as nat),
{
    let mut buf: Vec<u8> = Vec::new();
    let mut v = value;
    proof {
        assert(buf@ + varint(v as nat) =~= varint(value as nat));
    }
    loop
        invariant
            buf@ + varint(v as nat) == varint(value as nat),
        decreases v,
    {
        let ghost v0 = v;
        let low = v & 0x7F;
        let rest = v >> 7;
        proof {
            assert(low == v % 128 && rest == v / 128) by (bit_vector)
                requires
                    low == v & 0x7F,
                    rest == v >> 7,
            ;
        }
        let mut byte = low as u8;
        if rest != 0 {
            byte = byte | 0x80;
            proof {
                let lb = low as u8;
                assert((lb | 0x80u8) == lb + 128) by (bit_vector)
                    requires
                        lb < 128,
                ;
            }
        }
        let ghost pre = buf@;
        buf.push(byte);
        v = rest;
        if v == 0 {
            proof {
                assert(buf@ =~= pre + seq![byte]);
                assert(varint(v0 as nat) =~= seq![byte]);
            }
            return buf;
        }
        proof {
            assert(varint(v0 as nat) =~= seq![byte] + varint(rest as nat));
            assert(buf@ + varint(v as nat) =~= pre + varint(v0 as nat));
        }
    }
}

// ---------------------------------------------------------------------------
// Fields
// ---------------------------------------------------------------------------

/// A field key: the field number and the wire type.
pub open spec fn field_key(field: u32, wire: nat) -> Seq<u8> {
    varint(field as nat * 8 + wire)
}

/// A varint field (wire type 0).
pub open spec fn field_varint(field: u32, value: nat) -> Seq<u8> {
    field_key(field, 0) + varint(value)
}

/// A length-delimited field (wire type 2).
pub open spec fn field_bytes(field: u32, data: Seq<u8>) -> Seq<u8> {
    field_key(field, 2) + varint(data.len()) + data
}

/// A string field: its UTF-8 bytes, length-delimited.
pub open spec fn field_string(field: u32, s: Seq<char>) -> Seq<u8> {
    field_bytes(field, vstd::utf8::encode_utf8(s))
}

/// Encodes a varint field.
pub fn pb_field_varint(field: u32, value: u64) -> (r: Vec<u8>)
    ensures
        r@ == field_varint(field, value as nat),
{
    let tag = ((field as u64) << 3) | 0;
    proof {
        let f = field as u64;
        assert(((f << 3u64) | 0u64) == f * 8) by (bit_vector)
            requires
                f < 0x1_0000_0000u64,
        ;
    }
    let mut buf = pb_varint(tag);
    let mut v = pb_varint(value);
    buf.append(&mut v);
    buf
}

/// Encodes a length-delimited field.
pub fn pb_field_bytes(field: u32, data: &[u8]) -> (r: Vec<u8>)
    ensures
        r@ == field_bytes(field, data@),
{
    let tag = ((field as u64) << 3) | 2;
    proof {
        let f = field as u64;
        assert(((f << 3u64) | 2u64) == f * 8 + 2) by (bit_vector)
            requires
                f < 0x1_0000_0000u64,
        ;
    }
    let mut buf = pb_varint(tag);
    let mut len = pb_varint(data.len() as u64);
    buf.append(&mut len);
    buf.extend_from_slice(data);
    buf
}

/// Encodes a string field.
pub fn pb_field_string(field: u32, s: &str) -> (r: Vec<u8>)
    ensures
        r@ == field_string(field, s@),
{
    pb_field_bytes(field, s.as_bytes())
}

/// Encodes an embedded message field.
pub fn pb_field_message(field: u32, msg: &[u8]) -> (r: Vec<u8>)
    ensures
        r@ == field_bytes(field, msg@),
{
    pb_field_bytes(field, msg)
}

// ---------------------------------------------------------------------------
// Base64
// ---------------------------------------------------------------------------

/// The standard base64 alphabet.
pub open spec fn base64_char(i: u8) -> char {
    if i < 26 {
        (('A' as u8) + i) as char
    } else if i < 52 {
        (('a' as u8) + (i - 26)) as char
    } else if i < 62 {
        (('0' as u8) + (i - 52)) as char
    } else if i == 62 {
        '+'
    } else {
        '/'
    }
}

/// Standard base64 with padding (RFC 4648, section 4).
pub open spec fn base64_standard(data: Seq<u8>) -> Seq<char>
    decreases data.len(),
{
    if data.len() == 0 {
        Seq::empty()
    } else if data.len() == 1 {
        seq![base64_char(data[0] / 4), base64_char(((data[0] % 4) * 16) as u8), '=', '=']
    } else if data.len() == 2 {
        seq![
            base64_char(data[0] / 4),
            base64_char(((data[0] % 4) * 16 + data[1] / 16) as u8),
            base64_char(((data[1] % 16) * 4) as u8),
            '=',
        ]
    } else {
        seq![
            base64_char(data[0] / 4),
            base64_char(((data[0] % 4) * 16 + data[1] / 16) as u8),
            base64_char(((data[1] % 16) * 4 + data[2] / 64) as u8),
            base64_char(data[2] % 64),
        ] + base64_standard(data.skip(3))
    }
}

/// `base64::engine::general_purpose::STANDARD.encode`: standard alphabet with
/// padding.
#[verifier::external_body]
fn base64_encode(data: &[u8]) -> (r: String)
    ensures
        r@ == base64_standard(data@),
{
    base64::engine::general_purpose::STANDARD.encode(data)
}

// ---------------------------------------------------------------------------
// Channel listing continuation tokens
// ---------------------------------------------------------------------------

pub open spec fn sort_value(sort: ChannelSort) -> nat {
    match sort {
        ChannelSort::Newest => 4,
        ChannelSort::Popular => 2,
        ChannelSort::Oldest => 5,
    }
}

pub open spec fn zero_uuid() -> Seq<char> {
    "00000000-0000-0000-0000-000000000000"@
}

/// The inner message that selects the videos tab and its sort order.
pub open spec fn sort_message(sort: ChannelSort) -> Seq<u8> {
    let sv = sort_value(sort);
    let field8 = field_string(1, zero_uuid()) + field_varint(3, sv);
    let field15 = field_bytes(2, field_string(1, zero_uuid())) + field_varint(4, sv) + field_bytes(8, field8);
    field_bytes(110, field_bytes(3, field_bytes(15, field15)))
}

/// The continuation token that lists a channel's videos in a sort order.
pub open spec fn channel_videos_ctoken(channel_id: Seq<char>, sort: ChannelSort) -> Seq<char> {
    let outer = field_string(2, channel_id) + field_string(3, base64_standard(sort_message(sort)));
    base64_standard(field_bytes(80226972, outer))
}

/// Builds the continuation token for a channel's videos in the given order:
/// a message (field 80226972) holding the channel ID (field 2) and the
/// base64 of the sort selection (field 3), itself base64-encoded.
pub fn build_channel_videos_ctoken(channel_id: &str, sort: ChannelSort) -> (r: String)
    ensures
        r@ == channel_videos_ctoken(channel_id@, sort),
{
    let sort_value: u64 = match sort {
        ChannelSort::Newest => 4,
        ChannelSort::Popular => 2,
        ChannelSort::Oldest => 5,
    };
    let zero = "00000000-0000-0000-0000-000000000000";
    let field2_content = pb_field_string(1, zero);
    let mut field8_content = pb_field_string(1, zero);
    let mut f8v = pb_field_varint(3, sort_value);
    field8_content.append(&mut f8v);
    let mut field15_content = pb_field_message(2, field2_content.as_slice());
    let mut f15v = pb_field_varint(4, sort_value);
    field15_content.append(&mut f15v);
    let mut f15m = pb_field_message(8, field8_content.as_slice());
    field15_content.append(&mut f15m);
    let field3_content = pb_field_message(15, field15_content.as_slice());
    let field110_content = pb_field_message(3, field3_content.as_slice());
    let inner_msg = pb_field_message(110, field110_content.as_slice());
    let inner_b64 = base64_encode(inner_msg.as_slice());
    let mut outer_content = pb_field_string(2, channel_id);
    let mut f3 = pb_field_string(3, inner_b64.as_str());
    outer_content.append(&mut f3);
    let outer_msg = pb_field_message(80226972, outer_content.as_slice());
    base64_encode(outer_msg.as_slice())
}

} // verus!
