use vstd::prelude::*;
use vstd::string::StringExecFns;
use vstd::string::StrSliceExecFns;

use crate::protocol::IdType;
use crate::protocol::SerId;

verus! {

/// The eight big-endian bytes of an id.
pub open spec fn be_bytes_of(x: IdType) -> Seq<u8> {
    seq![
        (x >> 56) as u8,
        (x >> 48) as u8,
        (x >> 40) as u8,
        (x >> 32) as u8,
        (x >> 24) as u8,
        (x >> 16) as u8,
        (x >> 8) as u8,
        x as u8,
    ]
}

/// The id whose big-endian bytes are the eight bytes of `s`.
pub open spec fn be_val_of(s: Seq<u8>) -> IdType
    recommends
        s.len() == 8,
{
    ((s[0] as u64) << 56) | ((s[1] as u64) << 48) | ((s[2] as u64) << 40) | ((s[3] as u64) << 32)
        | ((s[4] as u64) << 24) | ((s[5] as u64) << 16) | ((s[6] as u64) << 8) | (s[7] as u64)
}

/// Reading back the big-endian bytes of an id yields the id.
pub proof fn lemma_be_round_trip(x: IdType)
    ensures
        be_val_of(be_bytes_of(x)) == x,
{
    assert((((x >> 56) as u8 as u64) << 56) | (((x >> 48) as u8 as u64) << 48) | (((x >> 40) as u8
        as u64) << 40) | (((x >> 32) as u8 as u64) << 32) | (((x >> 24) as u8 as u64) << 24) | (((x
        >> 16) as u8 as u64) << 16) | (((x >> 8) as u8 as u64) << 8) | (x as u8 as u64) == x)
        by (bit_vector);
}

/// The eight big-endian bytes of an id, as a vector.
pub fn id_to_be_bytes(x: IdType) -> (r: Vec<u8>)
    ensures
        r@ == be_bytes_of(x),
{
    let mut r: Vec<u8> = Vec::new();
    r.push(#[verifier::truncate] ((x >> 56) as u8));
    r.push(#[verifier::truncate] ((x >> 48) as u8));
    r.push(#[verifier::truncate] ((x >> 40) as u8));
    r.push(#[verifier::truncate] ((x >> 32) as u8));
    r.push(#[verifier::truncate] ((x >> 24) as u8));
    r.push(#[verifier::truncate] ((x >> 16) as u8));
    r.push(#[verifier::truncate] ((x >> 8) as u8));
    r.push(#[verifier::truncate] (x as u8));
    proof {
        assert(r@ =~= be_bytes_of(x));
    }
    r
}

/// The id whose big-endian bytes are the eight bytes of `b`.
pub fn id_from_be_bytes(b: &Vec<u8>) -> (r: IdType)
    requires
        b@.len() == 8,
    ensures
        r == be_val_of(b@),
{
    ((b[0] as u64) << 56) | ((b[1] as u64) << 48) | ((b[2] as u64) << 40) | ((b[3] as u64) << 32)
        | ((b[4] as u64) << 24) | ((b[5] as u64) << 16) | ((b[6] as u64) << 8) | (b[7] as u64)
}

/// Characters that standard base64 encoding with padding produces for the
/// given bytes.
pub uninterp spec fn b64_of(bytes: Seq<u8>) -> Seq<char>;

/// Relies on base64::encode: standard alphabet with padding, so the output is
/// a function of the input bytes alone and has four characters for every
/// three bytes, rounded up.
#[verifier::external_body]
fn base64_encode(bytes: &Vec<u8>) -> (r: String)
    ensures
        r@ == b64_of(bytes@),
        r@.len() == 4 * ((bytes@.len() + 2) / 3),
{
    base64::encode(bytes.as_slice())
}

/// Relies on base64::decode: a string produced by the standard padded
/// encoding of some byte sequence decodes back to exactly that sequence.
#[verifier::external_body]
fn base64_decode(s: &str) -> (r: Result<Vec<u8>, ()>)
    ensures
        r matches Ok(d) ==> forall|b: Seq<u8>| s@ == b64_of(b) ==> d@ == b,
        r is Err ==> forall|b: Seq<u8>| s@ != b64_of(b),
{
    match base64::decode(s) {
        Ok(d) => Ok(d),
        Err(_) => Err(()),
    }
}

/// The wire characters of an id: base64 of its big-endian bytes.
pub open spec fn ser_id_chars(x: IdType) -> Seq<char> {
    b64_of(be_bytes_of(x))
}

/// Encode an id for the wire: base64 of its eight big-endian bytes,
/// full width, with padding.
pub fn encode_id(x: IdType) -> (r: String)
    ensures
        r@ == ser_id_chars(x),
        r@.len() == 12,
{
    let bytes = id_to_be_bytes(x);
    base64_encode(&bytes)
}

/// Decode a wire id. Every string that `encode_id` produces maps back to
/// its id, and any input whose decoded length is not eight bytes is
/// rejected.
pub fn decode_id(s: &str) -> (r: Option<IdType>)
    ensures
        forall|x: IdType| s@ == ser_id_chars(x) ==> r == Some(x),
        forall|b: Seq<u8>| s@ == b64_of(b) && b.len() != 8 ==> r is None,
{
    match base64_decode(s) {
        Err(_) => {
            proof {
                assert forall|x: IdType| s@ == ser_id_chars(x) implies false by {
                    assert(s@ == b64_of(be_bytes_of(x)));
                }
            }
            None
        },
        Ok(d) => {
            if d.len() != 8 {
                proof {
                    assert forall|x: IdType| s@ == ser_id_chars(x) implies false by {
                        assert(s@ == b64_of(be_bytes_of(x)));
                    }
                }
                None
            } else {
                let v = id_from_be_bytes(&d);
                proof {
                    assert forall|x: IdType| s@ == ser_id_chars(x) implies v == x by {
                        assert(s@ == b64_of(be_bytes_of(x)));
                        assert(d@ == be_bytes_of(x));
                        lemma_be_round_trip(x);
                    }
                }
                Some(v)
            }
        },
    }
}

/// Wire form of a [`SerId`].
pub fn encode_ser_id(x: SerId) -> (r: String)
    ensures
        r@ == ser_id_chars(x.0),
        r@.len() == 12,
{
    encode_id(x.0)
}

/// Parse a wire [`SerId`]; everything that `encode_ser_id` produces maps
/// back to its value.
pub fn decode_ser_id(s: &str) -> (r: Option<SerId>)
    ensures
        forall|x: IdType| s@ == ser_id_chars(x) ==> r == Some(SerId(x)),
        forall|b: Seq<u8>| s@ == b64_of(b) && b.len() != 8 ==> r is None,
{
    match decode_id(s) {
        Some(v) => Some(SerId(v)),
        None => None,
    }
}

/// Decimal character of a single digit.
pub open spec fn dec_digit_char(d: nat) -> char
    recommends
        d < 10,
{
    if d == 0 {
        '0'
    } else if d == 1 {
        '1'
    } else if d == 2 {
        '2'
    } else if d == 3 {
        '3'
    } else if d == 4 {
        '4'
    } else if d == 5 {
        '5'
    } else if d == 6 {
        '6'
    } else if d == 7 {
        '7'
    } else if d == 8 {
        '8'
    } else {
        '9'
    }
}

/// Decimal representation of a number, most significant digit first,
/// without leading zeros (a lone zero for zero).
pub open spec fn dec_chars_of(n: nat) -> Seq<char>
    decreases n,
{
    if n < 10 {
        seq![dec_digit_char(n)]
    } else {
        dec_chars_of(n / 10).push(dec_digit_char(n % 10))
    }
}

/// One-character string for a single decimal digit.
fn dec_digit_str(d: u64) -> (r: &'static str)
    requires
        d < 10,
    ensures
        r@ =~= seq![dec_digit_char(d as nat)],
{
    proof {
        reveal_strlit("0");
        reveal_strlit("1");
        reveal_strlit("2");
        reveal_strlit("3");
        reveal_strlit("4");
        reveal_strlit("5");
        reveal_strlit("6");
        reveal_strlit("7");
        reveal_strlit("8");
        reveal_strlit("9");
    }
    if d == 0 {
        "0"
    } else if d == 1 {
        "1"
    } else if d == 2 {
        "2"
    } else if d == 3 {
        "3"
    } else if d == 4 {
        "4"
    } else if d == 5 {
        "5"
    } else if d == 6 {
        "6"
    } else if d == 7 {
        "7"
    } else if d == 8 {
        "8"
    } else {
        "9"
    }
}

/// Decimal string of a number, as a room's broadcast id is written.
pub fn u64_to_dec(n: u64) -> (r: String)
    ensures
        r@ == dec_chars_of(n as nat),
    decreases n,
{
    if n < 10 {
        String::from_str(dec_digit_str(n))
    } else {
        let mut s = u64_to_dec(n / 10);
        s.append(dec_digit_str(n % 10));
        proof {
            assert(s@ =~= dec_chars_of((n / 10) as nat).push(dec_digit_char((n % 10) as nat)));
        }
        s
    }
}

/// Characters of a relay payload after the coordinator's rewrite: the
/// object's leading brace is replaced by a sender field carrying the wire
/// form of the sender's id.
pub open spec fn relay_chars(sender: IdType, data: Seq<char>) -> Seq<char> {
    "{\"sender\":\""@ + ser_id_chars(sender) + "\","@ + data.skip(1)
}

/// Rewrite a relay payload to name its sender. Payloads that are empty or do
/// not open with a brace are refused, as the relay contract demands.
pub fn build_relay_payload(sender: IdType, data: &str) -> (r: Option<String>)
    ensures
        r matches Some(raw) ==> data@.len() > 0 && data@[0] == '{' && raw@ == relay_chars(
            sender,
            data@,
        ),
        data@.len() > 0 && data@[0] == '{' ==> r is Some,
{
    let n = data.unicode_len();
    if n == 0 {
        return None;
    }
    if data.get_char(0) != '{' {
        return None;
    }
    let mut out = String::from_str("{\"sender\":\"");
    let sid = encode_id(sender);
    out.append(sid.as_str());
    out.append("\",");
    out.append(data.substring_char(1, n));
    proof {
        assert(data@.subrange(1, data@.len() as int) =~= data@.skip(1));
        assert(out@ =~= relay_chars(sender, data@));
    }
    Some(out)
}

} // verus!
