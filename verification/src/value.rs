//! Structured values: what a configuration tree and an expanded template hold.

use crate::text::text_eq;
use vstd::prelude::*;

verus! {

broadcast use vstd::std_specs::vec::group_vec_axioms;

/// A number of a structured value.
#[derive(Clone, Copy, Debug, PartialEq, Eq, Structural)]
pub enum Num {
    /// An integer within the range of `i64`.
    Int(i64),
    /// An integer above the range of `i64`.
    UInt(u64),
    /// A binary64 number, held as its IEEE-754 bit pattern.
    Float(u64),
}

/// A structured value: null, a boolean, a number, a text, a sequence or a
/// mapping whose entries keep their order.
#[derive(Debug, PartialEq)]
pub enum Node {
    Null,
    Bool(bool),
    Number(Num),
    String(String),
    Sequence(Vec<Node>),
    Mapping(Vec<(Node, Node)>),
}

/// The mathematical content of a [`Node`].
pub enum Data {
    Null,
    Bool(bool),
    Number(Num),
    Text(Seq<char>),
    List(Seq<Data>),
    Dict(Seq<(Data, Data)>),
}

/// The content of a value: texts as character sequences, sequences and
/// mappings as the sequences of their items' contents.
pub open spec fn content(node: Node) -> Data
    decreases node,
{
    match node {
        Node::Null => Data::Null,
        Node::Bool(b) => Data::Bool(b),
        Node::Number(n) => Data::Number(n),
        Node::String(s) => Data::Text(s@),
        Node::Sequence(items) => Data::List(
            Seq::new(
                items.len() as nat,
                |i: int|
                    if 0 <= i < items.len() {
                        content(items[i])
                    } else {
                        Data::Null
                    },
            ),
        ),
        Node::Mapping(entries) => Data::Dict(
            Seq::new(
                entries.len() as nat,
                |i: int|
                    if 0 <= i < entries.len() {
                        (content(entries[i].0), content(entries[i].1))
                    } else {
                        (Data::Null, Data::Null)
                    },
            ),
        ),
    }
}

impl View for Node {
    type V = Data;

    open spec fn view(&self) -> Data {
        content(*self)
    }
}

/// The value of the first entry at or after `from` whose key is the text `key`.
pub open spec fn entry_from(entries: Seq<(Data, Data)>, key: Seq<char>, from: int) -> Option<Data>
    decreases entries.len() - from,
{
    if from < 0 || from >= entries.len() {
        None
    } else if entries[from].0 == Data::Text(key) {
        Some(entries[from].1)
    } else {
        entry_from(entries, key, from + 1)
    }
}

impl Data {
    /// The value under the text key `key`, where `self` is a mapping that has one.
    pub open spec fn field(self, key: Seq<char>) -> Option<Data> {
        match self {
            Data::Dict(entries) => entry_from(entries, key, 0),
            _ => None,
        }
    }
}

impl Node {
    /// The content of a sequence, item by item.
    pub proof fn view_of_sequence(&self)
        requires
            self is Sequence,
        ensures
            self@ is List,
            self@->List_0 == Seq::new(
                self->Sequence_0.len() as nat,
                |j: int| self->Sequence_0[j]@,
            ),
    {
        let items = self->Sequence_0;
        assert(self@->List_0 =~= Seq::new(items.len() as nat, |j: int| items[j]@));
    }

    /// The content of a mapping, entry by entry.
    pub proof fn view_of_mapping(&self)
        requires
            self is Mapping,
        ensures
            self@ is Dict,
            self@->Dict_0 == Seq::new(
                self->Mapping_0.len() as nat,
                |j: int| (self->Mapping_0[j].0@, self->Mapping_0[j].1@),
            ),
    {
        let entries = self->Mapping_0;
        assert(self@->Dict_0 =~= Seq::new(
            entries.len() as nat,
            |j: int| (entries[j].0@, entries[j].1@),
        ));
    }

    /// A copy of the value.
    pub fn duplicate(&self) -> (r: Node)
        ensures
            r@ == self@,
        decreases self,
    {
        match self {
            Node::Null => Node::Null,
            Node::Bool(b) => Node::Bool(*b),
            Node::Number(n) => Node::Number(*n),
            Node::String(s) => Node::String(s.clone()),
            Node::Sequence(items) => {
                let mut out: Vec<Node> = Vec::new();
                let mut i: usize = 0;
                while i < items.len()
                    invariant
                        i <= items.len(),
                        out.len() == i,
                        self is Sequence,
                        self->Sequence_0 == *items,
                        forall|j: int| 0 <= j < i ==> out[j]@ == items[j]@,
                    decreases items.len() - i,
                {
                    out.push(items[i].duplicate());
                    i += 1;
                }
                let r = Node::Sequence(out);
                assert(r@->List_0 =~= self@->List_0);
                r
            },
            Node::Mapping(entries) => {
                let mut out: Vec<(Node, Node)> = Vec::new();
                let mut i: usize = 0;
                while i < entries.len()
                    invariant
                        i <= entries.len(),
                        out.len() == i,
                        self is Mapping,
                        self->Mapping_0 == *entries,
                        forall|j: int|
                            0 <= j < i ==> out[j].0@ == entries[j].0@ && out[j].1@ == entries[j].1@,
                    decreases entries.len() - i,
                {
                    out.push((entries[i].0.duplicate(), entries[i].1.duplicate()));
                    i += 1;
                }
                let r = Node::Mapping(out);
                assert(r@->Dict_0 =~= self@->Dict_0);
                r
            },
        }
    }

    /// The value under the text key `key` of a mapping: that of the first
    /// entry with this key. `None` for a value that is no mapping or has no
    /// such entry.
    pub fn get(&self, key: &str) -> (r: Option<&Node>)
        ensures
            match r {
                Some(v) => self@.field(key@) == Some(v@),
                None => self@.field(key@) is None,
            },
    {
        match self {
            Node::Mapping(entries) => {
                proof {
                    self.view_of_mapping();
                }
                let mut i: usize = 0;
                while i < entries.len()
                    invariant
                        i <= entries.len(),
                        self@ is Dict,
                        self@->Dict_0 == Seq::new(
                            entries.len() as nat,
                            |j: int| (entries[j].0@, entries[j].1@),
                        ),
                        self@.field(key@) == entry_from(self@->Dict_0, key@, i as int),
                    decreases entries.len() - i,
                {
                    let found = match &entries[i].0 {
                        Node::String(s) => text_eq(s.as_str(), key),
                        _ => false,
                    };
                    if found {
                        return Some(&entries[i].1);
                    }
                    i += 1;
                }
                None
            },
            _ => None,
        }
    }
}

} // verus!
