//! Values as a YAML parser hands them out: like structured values, but a
//! number comes with each of its readings, and which of them counts is
//! decided here.

use crate::value::{Data, Node, Num};
use vstd::prelude::*;

verus! {

broadcast use vstd::std_specs::vec::group_vec_axioms;

/// The readings of a parsed number: as a signed integer, as an unsigned
/// integer and as a binary64 number by its bits, each where the number
/// has it.
#[derive(Clone, Copy, Debug, PartialEq, Eq, Structural)]
pub struct Readings {
    pub signed: Option<i64>,
    pub unsigned: Option<u64>,
    pub float_bits: Option<u64>,
}

/// A parsed value.
#[derive(Debug, PartialEq)]
pub enum Parsed {
    Null,
    Bool(bool),
    Number(Readings),
    String(String),
    Sequence(Vec<Parsed>),
    Mapping(Vec<(Parsed, Parsed)>),
}

/// The mathematical content of a [`Parsed`].
pub enum ParsedData {
    Null,
    Bool(bool),
    Number(Readings),
    Text(Seq<char>),
    List(Seq<ParsedData>),
    Dict(Seq<(ParsedData, ParsedData)>),
}

/// The content of a parsed value, node by node.
pub open spec fn parsed_content(parsed: Parsed) -> ParsedData
    decreases parsed,
{
    match parsed {
        Parsed::Null => ParsedData::Null,
        Parsed::Bool(b) => ParsedData::Bool(b),
        Parsed::Number(n) => ParsedData::Number(n),
        Parsed::String(s) => ParsedData::Text(s@),
        Parsed::Sequence(items) => ParsedData::List(
            Seq::new(
                items.len() as nat,
                |i: int|
                    if 0 <= i < items.len() {
                        parsed_content(items[i])
                    } else {
                        ParsedData::Null
                    },
            ),
        ),
        Parsed::Mapping(entries) => ParsedData::Dict(
            Seq::new(
                entries.len() as nat,
                |i: int|
                    if 0 <= i < entries.len() {
                        (parsed_content(entries[i].0), parsed_content(entries[i].1))
                    } else {
                        (ParsedData::Null, ParsedData::Null)
                    },
            ),
        ),
    }
}

impl View for Parsed {
    type V = ParsedData;

    open spec fn view(&self) -> ParsedData {
        parsed_content(*self)
    }
}

/// The number that readings stand for: the signed integer where there is
/// one, else the unsigned integer, else the binary64 number. So an integer
/// within the range of `i64` is signed, a larger one is unsigned, and only
/// a number that is no integer is a float. Readings that hold nothing
/// stand for zero.
pub open spec fn number_of(readings: Readings) -> Num {
    match readings.signed {
        Some(i) => Num::Int(i),
        None => match readings.unsigned {
            Some(u) => Num::UInt(u),
            None => match readings.float_bits {
                Some(bits) => Num::Float(bits),
                None => Num::Int(0),
            },
        },
    }
}

/// The structured value that a parsed value stands for: the same value,
/// each number settled by `number_of`.
pub open spec fn settled(parsed: ParsedData) -> Data
    decreases parsed,
{
    match parsed {
        ParsedData::Null => Data::Null,
        ParsedData::Bool(b) => Data::Bool(b),
        ParsedData::Number(n) => Data::Number(number_of(n)),
        ParsedData::Text(s) => Data::Text(s),
        ParsedData::List(xs) => Data::List(
            Seq::new(
                xs.len(),
                |i: int|
                    if 0 <= i < xs.len() {
                        settled(xs[i])
                    } else {
                        Data::Null
                    },
            ),
        ),
        ParsedData::Dict(es) => Data::Dict(
            Seq::new(
                es.len(),
                |i: int|
                    if 0 <= i < es.len() {
                        (settled(es[i].0), settled(es[i].1))
                    } else {
                        (Data::Null, Data::Null)
                    },
            ),
        ),
    }
}

impl Readings {
    /// The number that the readings stand for.
    pub fn number(&self) -> (r: Num)
        ensures
            r == number_of(*self),
    {
        match self.signed {
            Some(i) => Num::Int(i),
            None => match self.unsigned {
                Some(u) => Num::UInt(u),
                None => match self.float_bits {
                    Some(bits) => Num::Float(bits),
                    None => Num::Int(0),
                },
            },
        }
    }
}

impl Parsed {
    /// The structured value that the parsed value stands for.
    pub fn settle(&self) -> (r: Node)
        ensures
            r@ == settled(self@),
        decreases self,
    {
        match self {
            Parsed::Null => Node::Null,
            Parsed::Bool(b) => Node::Bool(*b),
            Parsed::Number(n) => Node::Number(n.number()),
            Parsed::String(s) => Node::String(s.clone()),
            Parsed::Sequence(items) => {
                let mut out: Vec<Node> = Vec::new();
                let mut i: usize = 0;
                while i < items.len()
                    invariant
                        i <= items.len(),
                        out.len() == i,
                        self is Sequence,
                        self->Sequence_0 == *items,
                        forall|j: int| 0 <= j < i ==> out[j]@ == settled(items[j]@),
                    decreases items.len() - i,
                {
                    out.push(items[i].settle());
                    i += 1;
                }
                let r = Node::Sequence(out);
                assert(r@->List_0 =~= settled(self@)->List_0);
                r
            },
            Parsed::Mapping(entries) => {
                let mut out: Vec<(Node, Node)> = Vec::new();
                let mut i: usize = 0;
                while i < entries.len()
                    invariant
                        i <= entries.len(),
                        out.len() == i,
                        self is Mapping,
                        self->Mapping_0 == *entries,
                        forall|j: int|
                            0 <= j < i ==> out[j].0@ == settled(entries[j].0@) && out[j].1@
                                == settled(entries[j].1@),
                    decreases entries.len() - i,
                {
                    out.push((entries[i].0.settle(), entries[i].1.settle()));
                    i += 1;
                }
                let r = Node::Mapping(out);
                assert(r@->Dict_0 =~= settled(self@)->Dict_0);
                r
            },
        }
    }
}

} // verus!
