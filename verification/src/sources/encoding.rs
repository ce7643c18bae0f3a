//! The byte encoding of the values of custom options.

use crate::value::{Data, Node, Num};
use vstd::prelude::*;
use vstd::string::StrSliceExecFns;
use vstd::utf8::encode_utf8;

verus! {

/// The value of a signed number read as an unsigned one of the same width
/// (two's complement).
pub open spec fn twos_complement(i: i64) -> int {
    if i >= 0 {
        i as int
    } else {
        i + 0x1_0000_0000_0000_0000
    }
}

/// Byte `k` of the big-endian form of a value of 64 bits; byte 0 is the
/// most significant.
pub open spec fn be_byte(value: int, k: int) -> u8 {
    if k == 0 {
        (value / 0x100_0000_0000_0000 % 256) as u8
    } else if k == 1 {
        (value / 0x1_0000_0000_0000 % 256) as u8
    } else if k == 2 {
        (value / 0x100_0000_0000 % 256) as u8
    } else if k == 3 {
        (value / 0x1_0000_0000 % 256) as u8
    } else if k == 4 {
        (value / 0x100_0000 % 256) as u8
    } else if k == 5 {
        (value / 0x1_0000 % 256) as u8
    } else if k == 6 {
        (value / 0x100 % 256) as u8
    } else {
        (value % 256) as u8
    }
}

/// The eight bytes of a value of 64 bits, most significant byte first.
pub open spec fn be_bytes(value: int) -> Seq<u8> {
    Seq::new(8, |k: int| be_byte(value, k))
}

/// The value that eight big-endian bytes stand for.
pub open spec fn be_value(bytes: Seq<u8>) -> int {
    bytes[0] * 0x100_0000_0000_0000 + bytes[1] * 0x1_0000_0000_0000 + bytes[2] * 0x100_0000_0000
        + bytes[3] * 0x1_0000_0000 + bytes[4] * 0x100_0000 + bytes[5] * 0x1_0000 + bytes[6] * 0x100
        + bytes[7]
}

/// The bytes of a custom option that carries the given value: nothing for
/// null, one byte for a boolean, eight big-endian bytes for a number (an
/// integer in two's complement, a binary64 number by its bits), the UTF-8
/// bytes of a text. Sequences and mappings have no encoding.
pub open spec fn custom_bytes(data: Data) -> Option<Seq<u8>> {
    match data {
        Data::Null => Some(Seq::empty()),
        Data::Bool(b) => Some(
            if b {
                seq![1u8]
            } else {
                seq![0u8]
            },
        ),
        Data::Number(Num::Int(i)) => Some(be_bytes(twos_complement(i))),
        Data::Number(Num::UInt(u)) => Some(be_bytes(u as int)),
        Data::Number(Num::Float(bits)) => Some(be_bytes(bits as int)),
        Data::Text(s) => Some(encode_utf8(s)),
        _ => None,
    }
}

/// The eight bytes of a value of 64 bits, most significant byte first.
pub fn big_endian(value: u64) -> (r: Vec<u8>)
    ensures
        r@ == be_bytes(value as int),
{
    let mut out: Vec<u8> = Vec::new();
    out.push((value / 0x100_0000_0000_0000 % 256) as u8);
    out.push((value / 0x1_0000_0000_0000 % 256) as u8);
    out.push((value / 0x100_0000_0000 % 256) as u8);
    out.push((value / 0x1_0000_0000 % 256) as u8);
    out.push((value / 0x100_0000 % 256) as u8);
    out.push((value / 0x1_0000 % 256) as u8);
    out.push((value / 0x100 % 256) as u8);
    out.push((value % 256) as u8);
    assert(out@ =~= be_bytes(value as int));
    out
}

fn unsigned(i: i64) -> (r: u64)
    ensures
        r == twos_complement(i),
{
    if i >= 0 {
        i as u64
    } else {
        u64::MAX - ((-(i + 1)) as u64)
    }
}

/// Encodes the value of a custom option; `None` for a sequence or a mapping.
pub fn encode_custom(data: &Node) -> (r: Option<Vec<u8>>)
    ensures
        match r {
            Some(bytes) => custom_bytes(data@) == Some(bytes@),
            None => custom_bytes(data@) is None,
        },
{
    match data {
        Node::Null => Some(Vec::new()),
        Node::Bool(b) => {
            let mut out: Vec<u8> = Vec::new();
            out.push(
                if *b {
                    1
                } else {
                    0
                },
            );
            assert(out@ =~= custom_bytes(data@)->0);
            Some(out)
        },
        Node::Number(Num::Int(i)) => Some(big_endian(unsigned(*i))),
        Node::Number(Num::UInt(u)) => Some(big_endian(*u)),
        Node::Number(Num::Float(bits)) => Some(big_endian(*bits)),
        Node::String(s) => Some(s.as_str().as_bytes_vec()),
        _ => None,
    }
}

/// The encoding of a number is eight bytes long and holds the number: the
/// bytes read back as a big-endian value give it again. Equal values have
/// equal encodings, and different numbers of 64 bits different ones.
pub proof fn lemma_big_endian_round_trip(value: u64)
    ensures
        be_bytes(value as int).len() == 8,
        be_value(be_bytes(value as int)) == value,
{
    let v = value as int;
    let q1 = v / 0x100;
    let q2 = v / 0x1_0000;
    let q3 = v / 0x100_0000;
    let q4 = v / 0x1_0000_0000;
    let q5 = v / 0x100_0000_0000;
    let q6 = v / 0x1_0000_0000_0000;
    let q7 = v / 0x100_0000_0000_0000;
    assert(q2 == q1 / 256);
    assert(q3 == q2 / 256);
    assert(q4 == q3 / 256);
    assert(q5 == q4 / 256);
    assert(q6 == q5 / 256);
    assert(q7 == q6 / 256);
    assert(q7 < 256);
    assert(v == q1 * 256 + v % 256);
    assert(q1 == q2 * 256 + q1 % 256);
    assert(q2 == q3 * 256 + q2 % 256);
    assert(q3 == q4 * 256 + q3 % 256);
    assert(q4 == q5 * 256 + q4 % 256);
    assert(q5 == q6 * 256 + q5 % 256);
    assert(q6 == q7 * 256 + q6 % 256);
    let b = be_bytes(v);
    assert(b[0] == q7);
    assert(b[1] == q6 % 256);
    assert(b[2] == q5 % 256);
    assert(b[3] == q4 % 256);
    assert(b[4] == q3 % 256);
    assert(b[5] == q2 % 256);
    assert(b[6] == q1 % 256);
    assert(b[7] == v % 256);
}

/// The same value always has the same encoding.
pub proof fn lemma_encoding_deterministic(a: Data, b: Data)
    requires
        a == b,
    ensures
        custom_bytes(a) == custom_bytes(b),
{
}

} // verus!
