use vstd::prelude::*;

verus! {

/// The leader/recovery service's request and response bodies, and the hex
/// wire form of a threshold signature share.  A signature and a signature
/// share are carried as their 96-byte encodings.

pub struct NewAccountRequest {
    pub account_id: String,
    pub id_token: String,
}

pub enum NewAccountResponse {
    Accepted,
    Rejected { msg: String },
}

pub struct AddKeyRequest {
    pub account_id: String,
    pub public_key: String,
    pub id_token: String,
}

pub enum AddKeyResponse {
    Accepted,
    Rejected { msg: String },
}

pub struct LeaderRequest {
    pub payload: String,
}

pub enum LeaderResponse {
    Signed { signature: Vec<u8> },
    Rejected,
}

pub struct SigShareRequest {
    pub payload: String,
}

pub enum SigShareResponse {
    Share { node_id: u64, sig_share: Vec<u8> },
    Rejected,
}

/// A threshold signature is 96 bytes long on the wire.
pub const SIGNATURE_LENGTH: usize = 96;

/// The lowercase hex digit for a value below sixteen.
pub open spec fn spec_hex_digit(n: u8) -> u8 {
    if n < 10 {
        (0x30 + n) as u8
    } else {
        (0x57 + n) as u8
    }
}

/// A byte string as lowercase hex text, two digits per byte.
pub open spec fn spec_hex_encode(b: Seq<u8>) -> Seq<u8>
    decreases b.len(),
{
    if b.len() == 0 {
        Seq::empty()
    } else {
        seq![spec_hex_digit(b[0] / 16), spec_hex_digit(b[0] % 16)] + spec_hex_encode(b.skip(1))
    }
}

/// The value of one hex digit, upper or lower case.
pub open spec fn spec_hex_val(c: u8) -> Option<u8> {
    if 0x30 <= c <= 0x39 {
        Some((c - 0x30) as u8)
    } else if 0x61 <= c <= 0x66 {
        Some((c - 0x57) as u8)
    } else if 0x41 <= c <= 0x46 {
        Some((c - 0x37) as u8)
    } else {
        None
    }
}

/// What hex text decodes to: the bytes, or nothing when the length is odd or
/// any character is no hex digit.
pub open spec fn spec_hex_decode(s: Seq<u8>) -> Option<Seq<u8>>
    decreases s.len(),
{
    if s.len() % 2 != 0 {
        None
    } else if s.len() == 0 {
        Some(Seq::empty())
    } else {
        match (spec_hex_val(s[0]), spec_hex_val(s[1])) {
            (Some(hi), Some(lo)) => match spec_hex_decode(s.skip(2)) {
                Some(v) => Some(seq![(hi * 16 + lo) as u8] + v),
                None => None,
            },
            _ => None,
        }
    }
}

/// Hex text is twice as long as the bytes it spells.
pub proof fn lemma_hex_encode_len(b: Seq<u8>)
    ensures
        spec_hex_encode(b).len() == 2 * b.len(),
    decreases b.len(),
{
    if b.len() > 0 {
        lemma_hex_encode_len(b.skip(1));
    }
}

/// A digit spells its own value back.
proof fn lemma_hex_digit_val(n: u8)
    requires
        n < 16,
    ensures
        spec_hex_val(spec_hex_digit(n)) == Some(n),
{
}

/// Decoding encoded hex gives the original bytes back, whatever they are.
pub proof fn lemma_hex_round_trip(b: Seq<u8>)
    ensures
        spec_hex_decode(spec_hex_encode(b)) == Some(b),
    decreases b.len(),
{
    lemma_hex_encode_len(b);
    if b.len() == 0 {
        assert(spec_hex_encode(b).len() == 0);
        assert(spec_hex_decode(spec_hex_encode(b)) == Some(Seq::<u8>::empty()));
        assert(b =~= Seq::<u8>::empty());
    } else {
        let s = spec_hex_encode(b);
        lemma_hex_digit_val(b[0] / 16);
        lemma_hex_digit_val(b[0] % 16);
        assert(s[0] == spec_hex_digit(b[0] / 16));
        assert(s[1] == spec_hex_digit(b[0] % 16));
        assert((b[0] / 16) * 16 + b[0] % 16 == b[0]) by {
            assert(b[0] / 16 * 16 + b[0] % 16 == b[0]) by (nonlinear_arith);
        }
        lemma_hex_round_trip(b.skip(1));
        assert(s.skip(2) =~= spec_hex_encode(b.skip(1)));
        assert(seq![b[0]] + b.skip(1) =~= b);
    }
}

/// The lowercase digit for a value below sixteen.
fn hex_digit(n: u8) -> (r: u8)
    requires
        n < 16,
    ensures
        r == spec_hex_digit(n),
{
    if n < 10 {
        0x30 + n
    } else {
        0x57 + n
    }
}

/// The value of one hex character, upper or lower case.
fn hex_val(c: u8) -> (r: Option<u8>)
    ensures
        r == spec_hex_val(c),
{
    if 0x30 <= c && c <= 0x39 {
        Some(c - 0x30)
    } else if 0x61 <= c && c <= 0x66 {
        Some(c - 0x57)
    } else if 0x41 <= c && c <= 0x46 {
        Some(c - 0x37)
    } else {
        None
    }
}

/// Spell a byte string as lowercase hex text.
pub fn encode_hex(bytes: &Vec<u8>) -> (r: Vec<u8>)
    ensures
        r@ == spec_hex_encode(bytes@),
{
    let mut out: Vec<u8> = Vec::new();
    let n = bytes.len();
    let mut i: usize = 0;
    proof {
        assert(bytes@.skip(0) =~= bytes@);
        assert(out@ + spec_hex_encode(bytes@) =~= spec_hex_encode(bytes@));
    }
    while i < n
        invariant
            0 <= i <= n,
            n == bytes@.len(),
            spec_hex_encode(bytes@) == out@ + spec_hex_encode(bytes@.skip(i as int)),
        decreases n - i,
    {
        let ghost prev = out@;
        let b = bytes[i];
        out.push(hex_digit(b / 16));
        out.push(hex_digit(b % 16));
        proof {
            assert(bytes@.skip(i as int)[0] == bytes@[i as int]);
            assert(bytes@.skip(i as int).skip(1) =~= bytes@.skip(i + 1));
            assert(out@ =~= prev + seq![
                spec_hex_digit(bytes@[i as int] / 16),
                spec_hex_digit(bytes@[i as int] % 16),
            ]);
            assert(spec_hex_encode(bytes@) =~= out@ + spec_hex_encode(bytes@.skip(i + 1)));
        }
        i = i + 1;
    }
    proof {
        assert(bytes@.skip(n as int) =~= Seq::<u8>::empty());
        assert(spec_hex_encode(bytes@) =~= out@);
    }
    out
}

/// Read lowercase or uppercase hex text back into bytes; `None` for an odd
/// length or a character that is no hex digit.
pub fn decode_hex(s: &Vec<u8>) -> (r: Option<Vec<u8>>)
    ensures
        match r {
            Some(v) => spec_hex_decode(s@) == Some(v@),
            None => spec_hex_decode(s@) is None,
        },
{
    let n = s.len();
    if n % 2 != 0 {
        return None;
    }
    let mut out: Vec<u8> = Vec::new();
    let mut i: usize = 0;
    proof {
        assert(s@.skip(0) =~= s@);
        if spec_hex_decode(s@) is Some {
            assert(out@ + spec_hex_decode(s@)->0 =~= spec_hex_decode(s@)->0);
        }
    }
    while i < n
        invariant
            0 <= i <= n,
            i % 2 == 0,
            n % 2 == 0,
            n == s@.len(),
            spec_hex_decode(s@) == (match spec_hex_decode(s@.skip(i as int)) {
                Some(v) => Some(out@ + v),
                None => None::<Seq<u8>>,
            }),
        decreases n - i,
    {
        let ghost prev = out@;
        let hi = match hex_val(s[i]) {
            Some(v) => v,
            None => {
                proof {
                    assert(s@.skip(i as int)[0] == s@[i as int]);
                    assert(s@.skip(i as int).len() % 2 == 0);
                    assert(spec_hex_decode(s@.skip(i as int)) is None);
                }
                return None;
            },
        };
        let lo = match hex_val(s[i + 1]) {
            Some(v) => v,
            None => {
                proof {
                    assert(s@.skip(i as int)[0] == s@[i as int]);
                    assert(s@.skip(i as int)[1] == s@[i + 1]);
                    assert(s@.skip(i as int).len() % 2 == 0);
                    assert(spec_hex_decode(s@.skip(i as int)) is None);
                }
                return None;
            },
        };
        out.push(hi * 16 + lo);
        proof {
            assert(s@.skip(i as int)[0] == s@[i as int]);
            assert(s@.skip(i as int)[1] == s@[i + 1]);
            assert(s@.skip(i as int).len() % 2 == 0);
            assert(s@.skip(i as int).skip(2) =~= s@.skip(i + 2));
            assert(out@ =~= prev + seq![(spec_hex_val(s@[i as int])->0 * 16 + spec_hex_val(
                s@[i + 1],
            )->0) as u8]);
        }
        i = i + 2;
    }
    proof {
        assert(s@.skip(n as int) =~= Seq::<u8>::empty());
    }
    Some(out)
}

/// Whether 96 bytes spell a well-formed threshold signature — the outcome of
/// threshold_crypto's Signature::from_bytes, a function of the bytes alone.
pub uninterp spec fn spec_signature_bytes_valid(b: Seq<u8>) -> bool;

/// Relies on threshold_crypto's Signature::from_bytes: whether 96 bytes spell
/// a well-formed signature (a valid curve point).
#[verifier::external_body]
fn signature_bytes_well_formed(bytes: &Vec<u8>) -> (r: bool)
    requires
        bytes@.len() == 96,
    ensures
        r == spec_signature_bytes_valid(bytes@),
{
    let arr: [u8; 96] = match bytes.as_slice().try_into() {
        Ok(a) => a,
        Err(_) => return false,
    };
    threshold_crypto::Signature::from_bytes(&arr).is_ok()
}

/// The wire form of a signature: its 96 bytes as 192 characters of lowercase
/// hex text.
pub fn serialize(sig_share: &Vec<u8>) -> (r: Vec<u8>)
    ensures
        r@ == spec_hex_encode(sig_share@),
{
    encode_hex(sig_share)
}

/// Read a signature off the wire: hex text in, 96 well-formed bytes out.
/// Succeeds if and only if the text is hex spelling exactly 96 bytes that
/// form a valid signature; in particular, deserializing what `serialize`
/// produced for a well-formed signature gives the original bytes back.
pub fn deserialize(s: &Vec<u8>) -> (r: Result<Vec<u8>, String>)
    ensures
        r matches Ok(v) ==> spec_hex_decode(s@) == Some(v@) && v@.len() == 96
            && spec_signature_bytes_valid(v@),
        (spec_hex_decode(s@) is Some && spec_hex_decode(s@)->0.len() == 96
            && spec_signature_bytes_valid(spec_hex_decode(s@)->0)) ==> (r is Ok && r->Ok_0@
            == spec_hex_decode(s@)->0),
        spec_hex_decode(s@) is None ==> r is Err,
        spec_hex_decode(s@) matches Some(v) && v.len() != 96 ==> r is Err,
        spec_hex_decode(s@) matches Some(v) && v.len() == 96 && !spec_signature_bytes_valid(v)
            ==> r is Err,
{
    let decoded = match decode_hex(s) {
        Some(v) => v,
        None => {
            let mut out = String::new();
            out.push_str("signature is not valid hex");
            return Err(out);
        },
    };
    if decoded.len() != SIGNATURE_LENGTH {
        let mut out = String::new();
        out.push_str("signature has incorrect length: expected 96 bytes");
        return Err(out);
    }
    if !signature_bytes_well_formed(&decoded) {
        let mut out = String::new();
        out.push_str("signature bytes do not form a valid signature");
        return Err(out);
    }
    Ok(decoded)
}

} // verus!
