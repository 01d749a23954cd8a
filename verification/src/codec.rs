use vstd::prelude::*;
use crate::message::{
    GeneratingMessage, MpcMessage, PresignatureMessage, ResharingMessage, SignatureMessage,
    TripleMessage,
};
use crate::state::PersistentNodeData;
use crate::types::Participant;

verus! {

/// The wire form of an MpcMessage and of PersistentNodeData: a tag byte for
/// the variant, little-endian fixed-width integers, and length-prefixed byte
/// strings.  The format is self-describing and round-trips exactly.

/// A 64-bit integer as eight little-endian bytes.
pub open spec fn spec_u64_le(x: u64) -> Seq<u8> {
    seq![
        (x & 0xff) as u8,
        ((x >> 8) & 0xff) as u8,
        ((x >> 16) & 0xff) as u8,
        ((x >> 24) & 0xff) as u8,
        ((x >> 32) & 0xff) as u8,
        ((x >> 40) & 0xff) as u8,
        ((x >> 48) & 0xff) as u8,
        ((x >> 56) & 0xff) as u8,
    ]
}

/// A 32-bit integer as four little-endian bytes.
pub open spec fn spec_u32_le(x: u32) -> Seq<u8> {
    seq![(x & 0xff) as u8, ((x >> 8) & 0xff) as u8, ((x >> 16) & 0xff) as u8, ((x >> 24)
        & 0xff) as u8]
}

/// Eight little-endian bytes as a 64-bit integer.
pub open spec fn spec_read_u64(b: Seq<u8>, pos: int) -> u64 {
    ((b[pos] as u64) | ((b[pos + 1] as u64) << 8) | ((b[pos + 2] as u64) << 16) | ((b[pos
        + 3] as u64) << 24) | ((b[pos + 4] as u64) << 32) | ((b[pos + 5] as u64) << 40) | ((b[pos
        + 6] as u64) << 48) | ((b[pos + 7] as u64) << 56)) as u64
}

/// Four little-endian bytes as a 32-bit integer.
pub open spec fn spec_read_u32(b: Seq<u8>, pos: int) -> u32 {
    ((b[pos] as u32) | ((b[pos + 1] as u32) << 8) | ((b[pos + 2] as u32) << 16) | ((b[pos
        + 3] as u32) << 24)) as u32
}

/// Reading the eight bytes an integer was written as gives the integer back.
pub proof fn lemma_u64_le_round_trip(x: u64)
    ensures
        spec_read_u64(spec_u64_le(x), 0) == x,
{
    let b = spec_u64_le(x);
    assert(spec_read_u64(b, 0) == (((x & 0xff) as u8 as u64) | (((x >> 8) & 0xff) as u8 as u64)
        << 8 | (((x >> 16) & 0xff) as u8 as u64) << 16 | (((x >> 24) & 0xff) as u8 as u64) << 24 | (
    ((x >> 32) & 0xff) as u8 as u64) << 32 | (((x >> 40) & 0xff) as u8 as u64) << 40 | (((x >> 48)
        & 0xff) as u8 as u64) << 48 | (((x >> 56) & 0xff) as u8 as u64) << 56) as u64);
    assert((((x & 0xff) as u8 as u64) | (((x >> 8) & 0xff) as u8 as u64) << 8 | (((x >> 16)
        & 0xff) as u8 as u64) << 16 | (((x >> 24) & 0xff) as u8 as u64) << 24 | (((x >> 32)
        & 0xff) as u8 as u64) << 32 | (((x >> 40) & 0xff) as u8 as u64) << 40 | (((x >> 48)
        & 0xff) as u8 as u64) << 48 | (((x >> 56) & 0xff) as u8 as u64) << 56) as u64 == x)
        by (bit_vector);
}

/// Reading the four bytes an integer was written as gives the integer back.
pub proof fn lemma_u32_le_round_trip(x: u32)
    ensures
        spec_read_u32(spec_u32_le(x), 0) == x,
{
    let b = spec_u32_le(x);
    assert(spec_read_u32(b, 0) == (((x & 0xff) as u8 as u32) | (((x >> 8) & 0xff) as u8 as u32)
        << 8 | (((x >> 16) & 0xff) as u8 as u32) << 16 | (((x >> 24) & 0xff) as u8 as u32)
        << 24) as u32);
    assert((((x & 0xff) as u8 as u32) | (((x >> 8) & 0xff) as u8 as u32) << 8 | (((x >> 16)
        & 0xff) as u8 as u32) << 16 | (((x >> 24) & 0xff) as u8 as u32) << 24) as u32 == x)
        by (bit_vector);
}

/// A byte string, length-prefixed.
pub open spec fn spec_lp_bytes(data: Seq<u8>) -> Seq<u8> {
    spec_u64_le(data.len() as u64) + data
}

/// The wire form of a message.
pub open spec fn spec_encode_message(m: MpcMessage) -> Seq<u8> {
    match m {
        MpcMessage::Generating(g) => seq![1u8] + spec_u32_le(g.from.id) + spec_lp_bytes(g.data@),
        MpcMessage::Resharing(g) => seq![2u8] + spec_u64_le(g.epoch) + spec_u32_le(g.from.id)
            + spec_lp_bytes(g.data@),
        MpcMessage::Triple(g) => seq![3u8] + spec_u64_le(g.id) + spec_u64_le(g.epoch) + spec_u32_le(
            g.from.id,
        ) + spec_lp_bytes(g.data@),
        MpcMessage::Presignature(g) => seq![4u8] + spec_u64_le(g.id) + spec_u64_le(g.epoch)
            + spec_u32_le(g.from.id) + spec_lp_bytes(g.data@),
        MpcMessage::Signature(g) => seq![5u8] + spec_u64_le(g.id) + spec_u64_le(g.epoch)
            + spec_u32_le(g.from.id) + spec_lp_bytes(g.data@),
    }
}

/// The wire form of the durable key material.
pub open spec fn spec_encode_node_data(d: PersistentNodeData) -> Seq<u8> {
    spec_u64_le(d.epoch) + spec_lp_bytes(d.private_share@) + spec_lp_bytes(d.public_key@)
}

/// The mathematical shape of a message: its fields, with byte strings as
/// sequences.  Decoding is specified against this shape.
pub enum MpcMessageView {
    Generating { from: u32, data: Seq<u8> },
    Resharing { epoch: u64, from: u32, data: Seq<u8> },
    Triple { id: u64, epoch: u64, from: u32, data: Seq<u8> },
    Presignature { id: u64, epoch: u64, from: u32, data: Seq<u8> },
    Signature { id: u64, epoch: u64, from: u32, data: Seq<u8> },
}

/// How many payload bytes a message carries.
pub open spec fn spec_msg_data_len(m: MpcMessage) -> nat {
    match m {
        MpcMessage::Generating(g) => g.data@.len(),
        MpcMessage::Resharing(g) => g.data@.len(),
        MpcMessage::Triple(g) => g.data@.len(),
        MpcMessage::Presignature(g) => g.data@.len(),
        MpcMessage::Signature(g) => g.data@.len(),
    }
}

/// The shape of a message value.
pub open spec fn view_msg(m: MpcMessage) -> MpcMessageView {
    match m {
        MpcMessage::Generating(g) => MpcMessageView::Generating { from: g.from.id, data: g.data@ },
        MpcMessage::Resharing(g) => MpcMessageView::Resharing { epoch: g.epoch, from: g.from.id, data: g.data@ },
        MpcMessage::Triple(g) => MpcMessageView::Triple { id: g.id, epoch: g.epoch, from: g.from.id, data: g.data@ },
        MpcMessage::Presignature(g) => MpcMessageView::Presignature { id: g.id, epoch: g.epoch, from: g.from.id, data: g.data@ },
        MpcMessage::Signature(g) => MpcMessageView::Signature { id: g.id, epoch: g.epoch, from: g.from.id, data: g.data@ },
    }
}

/// The mathematical shape of the durable key material.
pub struct NodeDataView {
    pub epoch: u64,
    pub private_share: Seq<u8>,
    pub public_key: Seq<u8>,
}

/// The shape of a durable record.
pub open spec fn view_node_data(d: PersistentNodeData) -> NodeDataView {
    NodeDataView { epoch: d.epoch, private_share: d.private_share@, public_key: d.public_key@ }
}

/// Append a 64-bit integer, little endian.
fn push_u64(out: &mut Vec<u8>, x: u64)
    ensures
        final(out)@ == old(out)@ + spec_u64_le(x),
{
    out.push((x & 0xff) as u8);
    out.push(((x >> 8) & 0xff) as u8);
    out.push(((x >> 16) & 0xff) as u8);
    out.push(((x >> 24) & 0xff) as u8);
    out.push(((x >> 32) & 0xff) as u8);
    out.push(((x >> 40) & 0xff) as u8);
    out.push(((x >> 48) & 0xff) as u8);
    out.push(((x >> 56) & 0xff) as u8);
    proof {
        assert(out@ =~= old(out)@ + spec_u64_le(x));
    }
}

/// Append a 32-bit integer, little endian.
fn push_u32(out: &mut Vec<u8>, x: u32)
    ensures
        final(out)@ == old(out)@ + spec_u32_le(x),
{
    out.push((x & 0xff) as u8);
    out.push(((x >> 8) & 0xff) as u8);
    out.push(((x >> 16) & 0xff) as u8);
    out.push(((x >> 24) & 0xff) as u8);
    proof {
        assert(out@ =~= old(out)@ + spec_u32_le(x));
    }
}

/// Append a byte string, length-prefixed.
fn push_lp_bytes(out: &mut Vec<u8>, data: &Vec<u8>)
    ensures
        final(out)@ == old(out)@ + spec_lp_bytes(data@),
{
    push_u64(out, data.len() as u64);
    let n = data.len();
    let ghost mid = out@;
    let mut i: usize = 0;
    while i < n
        invariant
            0 <= i <= n,
            n == data@.len(),
            out@ == mid + data@.take(i as int),
        decreases n - i,
    {
        out.push(data[i]);
        proof {
            assert(out@ =~= mid + data@.take(i + 1));
        }
        i = i + 1;
    }
    proof {
        assert(data@.take(n as int) =~= data@);
        assert(out@ =~= old(out)@ + spec_lp_bytes(data@));
    }
}

/// Serialize a message to its wire form.
pub fn encode_message(m: &MpcMessage) -> (r: Vec<u8>)
    ensures
        r@ == spec_encode_message(*m),
{
    let mut out: Vec<u8> = Vec::new();
    match m {
        MpcMessage::Generating(g) => {
            out.push(1u8);
            push_u32(&mut out, g.from.id);
            push_lp_bytes(&mut out, &g.data);
        },
        MpcMessage::Resharing(g) => {
            out.push(2u8);
            push_u64(&mut out, g.epoch);
            push_u32(&mut out, g.from.id);
            push_lp_bytes(&mut out, &g.data);
        },
        MpcMessage::Triple(g) => {
            out.push(3u8);
            push_u64(&mut out, g.id);
            push_u64(&mut out, g.epoch);
            push_u32(&mut out, g.from.id);
            push_lp_bytes(&mut out, &g.data);
        },
        MpcMessage::Presignature(g) => {
            out.push(4u8);
            push_u64(&mut out, g.id);
            push_u64(&mut out, g.epoch);
            push_u32(&mut out, g.from.id);
            push_lp_bytes(&mut out, &g.data);
        },
        MpcMessage::Signature(g) => {
            out.push(5u8);
            push_u64(&mut out, g.id);
            push_u64(&mut out, g.epoch);
            push_u32(&mut out, g.from.id);
            push_lp_bytes(&mut out, &g.data);
        },
    }
    proof {
        assert(out@ =~= spec_encode_message(*m));
    }
    out
}

/// Serialize the durable key material to its wire form.
pub fn encode_node_data(d: &PersistentNodeData) -> (r: Vec<u8>)
    ensures
        r@ == spec_encode_node_data(*d),
{
    let mut out: Vec<u8> = Vec::new();
    push_u64(&mut out, d.epoch);
    push_lp_bytes(&mut out, &d.private_share);
    push_lp_bytes(&mut out, &d.public_key);
    proof {
        assert(out@ =~= spec_encode_node_data(*d));
    }
    out
}

/// What a byte string parses to: the fields read back in the order the
/// encoder wrote them, provided the tag is known, every length is present,
/// and nothing is left over.
pub open spec fn spec_decode_message(b: Seq<u8>) -> Option<MpcMessageView> {
    if b.len() < 1 {
        None
    } else if b[0] == 1u8 {
        spec_decode_generating(b.skip(1))
    } else if b[0] == 2u8 {
        spec_decode_resharing(b.skip(1))
    } else if b[0] == 3u8 || b[0] == 4u8 || b[0] == 5u8 {
        spec_decode_tagged(b[0], b.skip(1))
    } else {
        None
    }
}

pub open spec fn spec_decode_generating(b: Seq<u8>) -> Option<MpcMessageView> {
    if b.len() < 12 {
        None
    } else {
        let from = spec_read_u32(b, 0);
        let dlen = spec_read_u64(b, 4);
        if b.len() - 12 == dlen {
            Some(MpcMessageView::Generating { from, data: b.skip(12) })
        } else {
            None
        }
    }
}

pub open spec fn spec_decode_resharing(b: Seq<u8>) -> Option<MpcMessageView> {
    if b.len() < 20 {
        None
    } else {
        let epoch = spec_read_u64(b, 0);
        let from = spec_read_u32(b, 8);
        let dlen = spec_read_u64(b, 12);
        if b.len() - 20 == dlen {
            Some(MpcMessageView::Resharing { epoch, from, data: b.skip(20) })
        } else {
            None
        }
    }
}

pub open spec fn spec_decode_tagged(tag: u8, b: Seq<u8>) -> Option<MpcMessageView> {
    if b.len() < 28 {
        None
    } else {
        let id = spec_read_u64(b, 0);
        let epoch = spec_read_u64(b, 8);
        let from = spec_read_u32(b, 16);
        let dlen = spec_read_u64(b, 20);
        if b.len() - 28 == dlen {
            let data = b.skip(28);
            if tag == 3u8 {
                Some(MpcMessageView::Triple { id, epoch, from, data })
            } else if tag == 4u8 {
                Some(MpcMessageView::Presignature { id, epoch, from, data })
            } else {
                Some(MpcMessageView::Signature { id, epoch, from, data })
            }
        } else {
            None
        }
    }
}

pub open spec fn spec_decode_node_data(b: Seq<u8>) -> Option<NodeDataView> {
    if b.len() < 16 {
        None
    } else {
        let epoch = spec_read_u64(b, 0);
        let slen = spec_read_u64(b, 8);
        if b.len() - 16 >= slen {
            let share = b.subrange(16, 16 + slen as int);
            let rest = b.skip(16 + slen as int);
            if rest.len() < 8 {
                None
            } else {
                let klen = spec_read_u64(rest, 0);
                if rest.len() - 8 == klen {
                    Some(NodeDataView { epoch, private_share: share, public_key: rest.skip(8) })
                } else {
                    None
                }
            }
        } else {
            None
        }
    }
}

/// Deserializing a serialized message gives the original back, whatever the
/// variant.
#[verifier::rlimit(100)]
pub proof fn lemma_message_round_trip(m: MpcMessage)
    requires
        spec_msg_data_len(m) <= u64::MAX,
    ensures
        spec_decode_message(spec_encode_message(m)) == Some(view_msg(m)),
{
    let b = spec_encode_message(m);
    match m {
        MpcMessage::Generating(g) => {
            let body = b.skip(1);
            assert(body =~= spec_u32_le(g.from.id) + spec_lp_bytes(g.data@));
            assert(body.subrange(0, 4) =~= spec_u32_le(g.from.id));
            assert(body.subrange(4, 12) =~= spec_u64_le(g.data@.len() as u64));
            lemma_read_u32_prefix(body, g.from.id);
            lemma_read_u64_at(body, 4, g.data@.len() as u64);
            assert(body.skip(12) =~= g.data@);
        },
        MpcMessage::Resharing(g) => {
            let body = b.skip(1);
            assert(body =~= spec_u64_le(g.epoch) + spec_u32_le(g.from.id) + spec_lp_bytes(
                g.data@,
            ));
            assert(body.subrange(0, 8) =~= spec_u64_le(g.epoch));
            assert(body.subrange(8, 12) =~= spec_u32_le(g.from.id));
            assert(body.subrange(12, 20) =~= spec_u64_le(g.data@.len() as u64));
            lemma_read_u64_at(body, 0, g.epoch);
            lemma_read_u32_at(body, 8, g.from.id);
            lemma_read_u64_at(body, 12, g.data@.len() as u64);
            assert(body.skip(20) =~= g.data@);
        },
        MpcMessage::Triple(g) => {
            let body = b.skip(1);
            assert(body =~= spec_u64_le(g.id) + spec_u64_le(g.epoch) + spec_u32_le(g.from.id)
                + spec_lp_bytes(g.data@));
            assert(body.subrange(0, 8) =~= spec_u64_le(g.id));
            assert(body.subrange(8, 16) =~= spec_u64_le(g.epoch));
            assert(body.subrange(16, 20) =~= spec_u32_le(g.from.id));
            assert(body.subrange(20, 28) =~= spec_u64_le(g.data@.len() as u64));
            lemma_read_u64_at(body, 0, g.id);
            lemma_read_u64_at(body, 8, g.epoch);
            lemma_read_u32_at(body, 16, g.from.id);
            lemma_read_u64_at(body, 20, g.data@.len() as u64);
            assert(body.skip(28) =~= g.data@);
        },
        MpcMessage::Presignature(g) => {
            let body = b.skip(1);
            assert(body =~= spec_u64_le(g.id) + spec_u64_le(g.epoch) + spec_u32_le(g.from.id)
                + spec_lp_bytes(g.data@));
            assert(body.subrange(0, 8) =~= spec_u64_le(g.id));
            assert(body.subrange(8, 16) =~= spec_u64_le(g.epoch));
            assert(body.subrange(16, 20) =~= spec_u32_le(g.from.id));
            assert(body.subrange(20, 28) =~= spec_u64_le(g.data@.len() as u64));
            lemma_read_u64_at(body, 0, g.id);
            lemma_read_u64_at(body, 8, g.epoch);
            lemma_read_u32_at(body, 16, g.from.id);
            lemma_read_u64_at(body, 20, g.data@.len() as u64);
            assert(body.skip(28) =~= g.data@);
        },
        MpcMessage::Signature(g) => {
            let body = b.skip(1);
            assert(body =~= spec_u64_le(g.id) + spec_u64_le(g.epoch) + spec_u32_le(g.from.id)
                + spec_lp_bytes(g.data@));
            assert(body.subrange(0, 8) =~= spec_u64_le(g.id));
            assert(body.subrange(8, 16) =~= spec_u64_le(g.epoch));
            assert(body.subrange(16, 20) =~= spec_u32_le(g.from.id));
            assert(body.subrange(20, 28) =~= spec_u64_le(g.data@.len() as u64));
            lemma_read_u64_at(body, 0, g.id);
            lemma_read_u64_at(body, 8, g.epoch);
            lemma_read_u32_at(body, 16, g.from.id);
            lemma_read_u64_at(body, 20, g.data@.len() as u64);
            assert(body.skip(28) =~= g.data@);
        },
    }
}

/// Deserializing serialized durable key material gives the original back.
pub proof fn lemma_node_data_round_trip(d: PersistentNodeData)
    requires
        d.private_share@.len() <= u64::MAX,
        d.public_key@.len() <= u64::MAX,
    ensures
        spec_decode_node_data(spec_encode_node_data(d)) == Some(view_node_data(d)),
{
    let b = spec_encode_node_data(d);
    assert(b.subrange(0, 8) =~= spec_u64_le(d.epoch));
    assert(b.subrange(8, 16) =~= spec_u64_le(d.private_share@.len() as u64));
    lemma_read_u64_at(b, 0, d.epoch);
    lemma_read_u64_at(b, 8, d.private_share@.len() as u64);
    let slen = d.private_share@.len() as int;
    assert(b.subrange(16, 16 + slen) =~= d.private_share@);
    let rest = b.skip(16 + slen);
    assert(rest =~= spec_lp_bytes(d.public_key@));
    assert(rest.subrange(0, 8) =~= spec_u64_le(d.public_key@.len() as u64));
    lemma_read_u64_at(rest, 0, d.public_key@.len() as u64);
    assert(rest.skip(8) =~= d.public_key@);
}

/// Reading an integer where one was written, whatever stands around it.
proof fn lemma_read_u64_at(b: Seq<u8>, pos: int, x: u64)
    requires
        0 <= pos,
        pos + 8 <= b.len(),
        b.subrange(pos, pos + 8) == spec_u64_le(x),
    ensures
        spec_read_u64(b, pos) == x,
{
    let w = b.subrange(pos, pos + 8);
    lemma_u64_le_round_trip(x);
    assert(spec_read_u64(b, pos) == spec_read_u64(w, 0)) by {
        assert(w[0] == b[pos]);
        assert(w[1] == b[pos + 1]);
        assert(w[2] == b[pos + 2]);
        assert(w[3] == b[pos + 3]);
        assert(w[4] == b[pos + 4]);
        assert(w[5] == b[pos + 5]);
        assert(w[6] == b[pos + 6]);
        assert(w[7] == b[pos + 7]);
    }
}

/// Reading a 32-bit integer where one was written.
proof fn lemma_read_u32_at(b: Seq<u8>, pos: int, x: u32)
    requires
        0 <= pos,
        pos + 4 <= b.len(),
        b.subrange(pos, pos + 4) == spec_u32_le(x),
    ensures
        spec_read_u32(b, pos) == x,
{
    let w = b.subrange(pos, pos + 4);
    lemma_u32_le_round_trip(x);
    assert(spec_read_u32(b, pos) == spec_read_u32(w, 0)) by {
        assert(w[0] == b[pos]);
        assert(w[1] == b[pos + 1]);
        assert(w[2] == b[pos + 2]);
        assert(w[3] == b[pos + 3]);
    }
}

/// Reading a 32-bit integer at the front.
proof fn lemma_read_u32_prefix(b: Seq<u8>, x: u32)
    requires
        b.len() >= 4,
        b.subrange(0, 4) == spec_u32_le(x),
    ensures
        spec_read_u32(b, 0) == x,
{
    lemma_read_u32_at(b, 0, x);
}


/// Read a 64-bit little-endian integer.
fn read_u64(b: &Vec<u8>, pos: usize) -> (r: u64)
    requires
        pos + 8 <= b@.len(),
        b@.len() <= usize::MAX,
    ensures
        r == spec_read_u64(b@, pos as int),
{
    (b[pos] as u64) | ((b[pos + 1] as u64) << 8u64) | ((b[pos + 2] as u64) << 16u64) | ((b[pos
        + 3] as u64) << 24u64) | ((b[pos + 4] as u64) << 32u64) | ((b[pos + 5] as u64) << 40u64)
        | ((b[pos + 6] as u64) << 48u64) | ((b[pos + 7] as u64) << 56u64)
}

/// Read a 32-bit little-endian integer.
fn read_u32(b: &Vec<u8>, pos: usize) -> (r: u32)
    requires
        pos + 4 <= b@.len(),
        b@.len() <= usize::MAX,
    ensures
        r == spec_read_u32(b@, pos as int),
{
    (b[pos] as u32) | ((b[pos + 1] as u32) << 8u32) | ((b[pos + 2] as u32) << 16u32) | ((b[pos
        + 3] as u32) << 24u32)
}

/// Copy the bytes from `from` to the end.
fn copy_tail(b: &Vec<u8>, from: usize) -> (r: Vec<u8>)
    requires
        from <= b@.len(),
    ensures
        r@ == b@.skip(from as int),
{
    let mut out: Vec<u8> = Vec::new();
    let n = b.len();
    let mut i: usize = from;
    while i < n
        invariant
            from <= i <= n,
            n == b@.len(),
            out@ == b@.subrange(from as int, i as int),
        decreases n - i,
    {
        out.push(b[i]);
        proof {
            assert(out@ =~= b@.subrange(from as int, i + 1));
        }
        i = i + 1;
    }
    proof {
        assert(out@ =~= b@.skip(from as int));
    }
    out
}

/// Whether a byte count read off the wire matches what is left of the buffer
/// past the header.
fn tail_len_matches(total: usize, header: usize, dlen: u64) -> (r: bool)
    requires
        header <= total,
    ensures
        r == ((total - header) as int == dlen as int),
{
    if dlen > (usize::MAX as u64) {
        return false;
    }
    total - header == dlen as usize
}

/// Deserialize a message from its wire form; `None` for an unknown tag, a
/// missing field, or leftover bytes.
pub fn decode_message(b: &Vec<u8>) -> (r: Option<MpcMessage>)
    ensures
        match r {
            Some(m) => spec_decode_message(b@) == Some(view_msg(m)),
            None => spec_decode_message(b@) is None,
        },
{
    if b.len() < 1 {
        return None;
    }
    let tag = b[0];
    if tag == 1u8 {
        proof {
            assert(b@.skip(1).len() == b@.len() - 1);
        }
        if b.len() < 13 {
            return None;
        }
        let from = read_u32(b, 1);
        let dlen = read_u64(b, 5);
        proof {
            lemma_skip_read(b@, 1);
        }
        if !tail_len_matches(b.len(), 13, dlen) {
            return None;
        }
        let data = copy_tail(b, 13);
        proof {
            assert(data@ =~= b@.skip(1).skip(12));
        }
        Some(MpcMessage::Generating(GeneratingMessage { from: Participant { id: from }, data }))
    } else if tag == 2u8 {
        if b.len() < 21 {
            return None;
        }
        let epoch = read_u64(b, 1);
        let from = read_u32(b, 9);
        let dlen = read_u64(b, 13);
        proof {
            lemma_skip_read(b@, 1);
        }
        if !tail_len_matches(b.len(), 21, dlen) {
            return None;
        }
        let data = copy_tail(b, 21);
        proof {
            assert(data@ =~= b@.skip(1).skip(20));
        }
        Some(
            MpcMessage::Resharing(
                ResharingMessage { epoch, from: Participant { id: from }, data },
            ),
        )
    } else if tag == 3u8 || tag == 4u8 || tag == 5u8 {
        if b.len() < 29 {
            return None;
        }
        let id = read_u64(b, 1);
        let epoch = read_u64(b, 9);
        let from = read_u32(b, 17);
        let dlen = read_u64(b, 21);
        proof {
            lemma_skip_read(b@, 1);
        }
        if !tail_len_matches(b.len(), 29, dlen) {
            return None;
        }
        let data = copy_tail(b, 29);
        proof {
            assert(data@ =~= b@.skip(1).skip(28));
        }
        if tag == 3u8 {
            Some(
                MpcMessage::Triple(TripleMessage { id, epoch, from: Participant { id: from }, data }),
            )
        } else if tag == 4u8 {
            Some(
                MpcMessage::Presignature(
                    PresignatureMessage { id, epoch, from: Participant { id: from }, data },
                ),
            )
        } else {
            Some(
                MpcMessage::Signature(
                    SignatureMessage { id, epoch, from: Participant { id: from }, data },
                ),
            )
        }
    } else {
        None
    }
}

/// Deserialize durable key material from its wire form.
pub fn decode_node_data(b: &Vec<u8>) -> (r: Option<PersistentNodeData>)
    ensures
        match r {
            Some(d) => spec_decode_node_data(b@) == Some(view_node_data(d)),
            None => spec_decode_node_data(b@) is None,
        },
{
    if b.len() < 16 {
        return None;
    }
    let epoch = read_u64(b, 0);
    let slen = read_u64(b, 8);
    if slen > (usize::MAX as u64) || (b.len() - 16) < slen as usize {
        proof {
            assert(!(b@.len() - 16 >= slen as int));
        }
        return None;
    }
    let slen = slen as usize;
    let share = copy_range(b, 16, 16 + slen);
    let rest = copy_tail(b, 16 + slen);
    proof {
        assert(share@ =~= b@.subrange(16, 16 + slen as int));
        assert(rest@ =~= b@.skip(16 + slen as int));
    }
    if rest.len() < 8 {
        return None;
    }
    let klen = read_u64(&rest, 0);
    if !tail_len_matches(rest.len(), 8, klen) {
        return None;
    }
    let public_key = copy_tail(&rest, 8);
    Some(PersistentNodeData { epoch, private_share: share, public_key })
}

/// Copy the bytes in `[from, to)`.
fn copy_range(b: &Vec<u8>, from: usize, to: usize) -> (r: Vec<u8>)
    requires
        from <= to <= b@.len(),
    ensures
        r@ == b@.subrange(from as int, to as int),
{
    let mut out: Vec<u8> = Vec::new();
    let mut i: usize = from;
    while i < to
        invariant
            from <= i <= to,
            to <= b@.len(),
            out@ == b@.subrange(from as int, i as int),
        decreases to - i,
    {
        out.push(b[i]);
        proof {
            assert(out@ =~= b@.subrange(from as int, i + 1));
        }
        i = i + 1;
    }
    out
}

/// Reading an integer past a skipped prefix is reading it at the offset.
proof fn lemma_skip_read(b: Seq<u8>, n: int)
    requires
        0 <= n <= b.len(),
    ensures
        forall|pos: int|
            0 <= pos && pos + 8 <= b.skip(n).len() ==> #[trigger] spec_read_u64(b.skip(n), pos)
                == spec_read_u64(b, n + pos),
        forall|pos: int|
            0 <= pos && pos + 4 <= b.skip(n).len() ==> #[trigger] spec_read_u32(b.skip(n), pos)
                == spec_read_u32(b, n + pos),
{
    assert forall|pos: int| 0 <= pos && pos + 8 <= b.skip(n).len() implies #[trigger] spec_read_u64(
        b.skip(n),
        pos,
    ) == spec_read_u64(b, n + pos) by {
        assert(b.skip(n)[pos] == b[n + pos]);
        assert(b.skip(n)[pos + 1] == b[n + pos + 1]);
        assert(b.skip(n)[pos + 2] == b[n + pos + 2]);
        assert(b.skip(n)[pos + 3] == b[n + pos + 3]);
        assert(b.skip(n)[pos + 4] == b[n + pos + 4]);
        assert(b.skip(n)[pos + 5] == b[n + pos + 5]);
        assert(b.skip(n)[pos + 6] == b[n + pos + 6]);
        assert(b.skip(n)[pos + 7] == b[n + pos + 7]);
    }
    assert forall|pos: int| 0 <= pos && pos + 4 <= b.skip(n).len() implies #[trigger] spec_read_u32(
        b.skip(n),
        pos,
    ) == spec_read_u32(b, n + pos) by {
        assert(b.skip(n)[pos] == b[n + pos]);
        assert(b.skip(n)[pos + 1] == b[n + pos + 1]);
        assert(b.skip(n)[pos + 2] == b[n + pos + 2]);
        assert(b.skip(n)[pos + 3] == b[n + pos + 3]);
    }
}


} // verus!
