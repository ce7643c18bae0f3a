//! The option mapper: from the templated mapping of a phase to a client
//! address and a set of typed options.

use crate::address::{ipv4_of, Ipv4Address};
use crate::error::{DhcpError, DhcpResult};
use crate::option::{
    lookup_named_option, named_option, upserted, DhcpOption, DhcpOptions, OptionData, OptionValue,
    Shape, ValueData,
};
use crate::sources::encoding::{custom_bytes, encode_custom};
use crate::sources::rest::{
    DhcpRestMappingItem, DhcpRestMappingItemCustom, DhcpRestMappingItemCustomKind,
    DhcpRestSourceConfigSchema,
};
use crate::sources::DhcpSourceResult;
use crate::sources::query::context_bindings;
use crate::template::{expansion, expansion_ended, fault_ending, template_values};
use crate::text::text_eq;
use crate::value::{Data, Node, Num};
use vstd::prelude::*;
use vstd::string::StringExecFnsIsAscii;
use vstd::utf8::is_ascii_chars;

verus! {

broadcast use vstd::std_specs::vec::group_vec_axioms;

/// Whether a mapping value marks its entry as required: it is a mapping
/// that holds `required: true`.
pub open spec fn required_of(data: Data) -> bool {
    data.field("required"@) == Some(Data::Bool(true))
}

impl DhcpRestSourceConfigSchema {
    /// Whether a mapping value marks its entry as required.
    pub fn is_required(value: &Node) -> (r: bool)
        ensures
            r == required_of(value@),
    {
        match value.get("required") {
            Some(Node::Bool(b)) => *b,
            _ => false,
        }
    }
}

/// The `required` flag that a mapping states: `false` where it states none,
/// nothing where it states something that is no boolean.
pub open spec fn flag_of(data: Data) -> Option<bool> {
    match data.field("required"@) {
        None => Some(false),
        Some(Data::Bool(b)) => Some(b),
        Some(_) => None,
    }
}

/// A value read as a mapping item. A mapping is an item where it holds
/// `data` and, if it holds `required`, a boolean there; any other value is
/// itself the data of an item that is not required.
pub open spec fn item_of(data: Data) -> Option<(Data, bool)> {
    match data {
        Data::Dict(_) => match (data.field("data"@), flag_of(data)) {
            (Some(d), Some(required)) => Some((d, required)),
            _ => None,
        },
        _ => Some((data, false)),
    }
}

/// The kind that a mapping names.
pub open spec fn kind_of(name: Seq<char>) -> Option<DhcpRestMappingItemCustomKind> {
    if name == "string"@ || name == "str"@ {
        Some(DhcpRestMappingItemCustomKind::String)
    } else if name == "bool"@ {
        Some(DhcpRestMappingItemCustomKind::Bool)
    } else if name == "integer"@ {
        Some(DhcpRestMappingItemCustomKind::Integer)
    } else if name == "none"@ {
        Some(DhcpRestMappingItemCustomKind::Untyped)
    } else {
        None
    }
}

/// The tag that a custom mapping states: an integer from 0 to 255 under `tag`.
pub open spec fn tag_of(data: Data) -> Option<u8> {
    match data.field("tag"@) {
        Some(Data::Number(Num::Int(t))) => if 0 <= t <= 255 {
            Some(t as u8)
        } else {
            None
        },
        _ => None,
    }
}

/// The kind that a custom mapping states under `kind`, where it states one.
pub open spec fn stated_kind(data: Data) -> Option<DhcpRestMappingItemCustomKind> {
    match data.field("kind"@) {
        None => Some(DhcpRestMappingItemCustomKind::Untyped),
        Some(Data::Text(name)) => kind_of(name),
        Some(_) => None,
    }
}

/// A value read as the mapping item of a custom option: a mapping with a
/// tag, at most a kind, `data` and at most a `required` flag.
pub open spec fn custom_item_of(data: Data) -> Option<
    (u8, DhcpRestMappingItemCustomKind, Data, bool),
> {
    match (tag_of(data), stated_kind(data), data.field("data"@), flag_of(data)) {
        (Some(tag), Some(kind), Some(d), Some(required)) => Some((tag, kind, d, required)),
        _ => None,
    }
}

fn read_flag(value: &Node) -> (r: Option<bool>)
    ensures
        r == flag_of(value@),
{
    match value.get("required") {
        None => Some(false),
        Some(Node::Bool(b)) => Some(*b),
        Some(_) => None,
    }
}

fn undecodable(what: &str) -> (r: DhcpError)
    ensures
        r matches DhcpError::SerdeErrorString(message) && message@ == what@,
{
    DhcpError::SerdeErrorString(what.to_string())
}

impl DhcpRestMappingItem {
    /// Reads a value as a mapping item.
    pub fn try_from(value: &Node) -> (r: DhcpResult<Self>)
        ensures
            match item_of(value@) {
                Some((data, required)) => r matches Ok(item) && item.data@ == data && item.required
                    == required,
                None => r matches Err(e) && e is SerdeErrorString,
            },
    {
        match value {
            Node::Mapping(_) => match (value.get("data"), read_flag(value)) {
                (Some(data), Some(required)) => Ok(Self { data: data.duplicate(), required }),
                _ => Err(undecodable("invalid mapping item")),
            },
            _ => Ok(Self { data: value.duplicate(), required: false }),
        }
    }
}

fn read_kind(value: &Node) -> (r: Option<DhcpRestMappingItemCustomKind>)
    ensures
        r == stated_kind(value@),
{
    match value.get("kind") {
        None => Some(DhcpRestMappingItemCustomKind::Untyped),
        Some(Node::String(name)) => {
            let name = name.as_str();
            if text_eq(name, "string") || text_eq(name, "str") {
                Some(DhcpRestMappingItemCustomKind::String)
            } else if text_eq(name, "bool") {
                Some(DhcpRestMappingItemCustomKind::Bool)
            } else if text_eq(name, "integer") {
                Some(DhcpRestMappingItemCustomKind::Integer)
            } else if text_eq(name, "none") {
                Some(DhcpRestMappingItemCustomKind::Untyped)
            } else {
                None
            }
        },
        Some(_) => None,
    }
}

fn read_tag(value: &Node) -> (r: Option<u8>)
    ensures
        r == tag_of(value@),
{
    match value.get("tag") {
        Some(Node::Number(Num::Int(t))) => if 0 <= *t && *t <= 255 {
            Some(*t as u8)
        } else {
            None
        },
        _ => None,
    }
}

impl DhcpRestMappingItemCustom {
    /// Reads a value as the mapping item of a custom option.
    pub fn try_from(value: &Node) -> (r: DhcpResult<Self>)
        ensures
            match custom_item_of(value@) {
                Some((tag, kind, data, required)) => r matches Ok(custom) && custom.tag == tag
                    && custom.kind == kind && custom.item.data@ == data && custom.item.required
                    == required,
                None => r matches Err(e) && e is SerdeErrorString,
            },
    {
        match (read_tag(value), read_kind(value), value.get("data"), read_flag(value)) {
            (Some(tag), Some(kind), Some(data), Some(required)) => Ok(
                Self { tag, kind, item: DhcpRestMappingItem { data: data.duplicate(), required } },
            ),
            _ => Err(undecodable("invalid custom mapping item")),
        }
    }

    /// The option that the item stands for: its tag with the encoding of its
    /// value. A sequence or a mapping has no encoding.
    pub fn try_into(self) -> (r: DhcpResult<DhcpOption>)
        ensures
            match custom_bytes(self.item.data@) {
                Some(bytes) => r matches Ok(option) && option@ == OptionData::Unknown(
                    self.tag,
                    bytes,
                ),
                None => r matches Err(e) && e is CustomRestTypeError,
            },
    {
        match encode_custom(&self.item.data) {
            Some(bytes) => Ok(DhcpOption::Unknown(self.tag, bytes)),
            None => Err(DhcpError::CustomRestTypeError),
        }
    }
}

/// Whether every item is a text that denotes an address.
pub open spec fn all_addresses(items: Seq<Data>) -> bool {
    forall|i: int|
        0 <= i < items.len() ==> (#[trigger] items[i]) is Text && ipv4_of(items[i]->Text_0) is Some
}

/// Whether every item is an integer from 0 to 255.
pub open spec fn all_bytes(items: Seq<Data>) -> bool {
    forall|i: int| 0 <= i < items.len() ==> integer_of(#[trigger] items[i], 0xff) is Some
}

/// An integer of a value, where it is one from 0 to `max`.
pub open spec fn integer_of(data: Data, max: int) -> Option<int> {
    match data {
        Data::Number(Num::Int(i)) => if 0 <= i <= max {
            Some(i as int)
        } else {
            None
        },
        _ => None,
    }
}

/// A value read as the value of a named option of the given shape: an
/// address from a dotted quad, a list of addresses from a sequence of
/// them, a number from an integer in range, ASCII text from a text that is
/// ASCII, bytes from a sequence of integers from 0 to 255.
pub open spec fn decoded(shape: Shape, data: Data) -> Option<ValueData> {
    match shape {
        Shape::Ipv4 => match data {
            Data::Text(s) => match ipv4_of(s) {
                Some(ip) => Some(ValueData::Ipv4(ip)),
                None => None,
            },
            _ => None,
        },
        Shape::Ipv4List => match data {
            Data::List(items) => if all_addresses(items) {
                Some(
                    ValueData::Ipv4List(
                        Seq::new(items.len(), |i: int| ipv4_of(items[i]->Text_0)->0),
                    ),
                )
            } else {
                None
            },
            _ => None,
        },
        Shape::U8 => match integer_of(data, 0xff) {
            Some(n) => Some(ValueData::U8(n as u8)),
            None => None,
        },
        Shape::U16 => match integer_of(data, 0xffff) {
            Some(n) => Some(ValueData::U16(n as u16)),
            None => None,
        },
        Shape::U32 => match integer_of(data, 0xffff_ffff) {
            Some(n) => Some(ValueData::U32(n as u32)),
            None => None,
        },
        Shape::Ascii => match data {
            Data::Text(s) => if is_ascii_chars(s) {
                Some(ValueData::Ascii(s))
            } else {
                None
            },
            _ => None,
        },
        Shape::Bytes => match data {
            Data::List(items) => if all_bytes(items) {
                Some(
                    ValueData::Bytes(
                        Seq::new(items.len(), |i: int| integer_of(items[i], 0xff)->0 as u8),
                    ),
                )
            } else {
                None
            },
            _ => None,
        },
    }
}

fn read_integer(data: &Node, max: i64) -> (r: Option<i64>)
    requires
        0 <= max,
    ensures
        match r {
            Some(n) => integer_of(data@, max as int) == Some(n as int),
            None => integer_of(data@, max as int) is None,
        },
{
    match data {
        Node::Number(Num::Int(i)) => if 0 <= *i && *i <= max {
            Some(*i)
        } else {
            None
        },
        _ => None,
    }
}

fn read_addresses(items: &Vec<Node>) -> (r: Option<Vec<Ipv4Address>>)
    ensures
        match r {
            Some(ips) => all_addresses(crate::template::contents(items@)) && ips@ == Seq::new(
                items.len() as nat,
                |i: int| ipv4_of(items[i]@->Text_0)->0,
            ),
            None => !all_addresses(crate::template::contents(items@)),
        },
{
    let mut out: Vec<Ipv4Address> = Vec::new();
    let mut i: usize = 0;
    let ghost all = crate::template::contents(items@);
    while i < items.len()
        invariant
            i <= items.len(),
            out.len() == i,
            all == crate::template::contents(items@),
            forall|j: int| 0 <= j < i ==> (#[trigger] all[j]) is Text && ipv4_of(all[j]->Text_0)
                == Some(out[j]),
        decreases items.len() - i,
    {
        let ip = match &items[i] {
            Node::String(s) => Ipv4Address::parse(s.as_str()),
            _ => None,
        };
        match ip {
            Some(ip) => {
                out.push(ip);
            },
            None => {
                assert(!((all[i as int]) is Text && ipv4_of(all[i as int]->Text_0) is Some));
                return None;
            },
        }
        i += 1;
    }
    assert forall|j: int| 0 <= j < items.len() implies out@[j] == ipv4_of(
        items[j]@->Text_0,
    )->0 by {
        assert(all[j] == items[j]@);
    }
    assert(out@ =~= Seq::new(items.len() as nat, |i: int| ipv4_of(items[i]@->Text_0)->0));
    Some(out)
}

fn read_bytes(items: &Vec<Node>) -> (r: Option<Vec<u8>>)
    ensures
        match r {
            Some(bytes) => all_bytes(crate::template::contents(items@)) && bytes@ == Seq::new(
                items.len() as nat,
                |i: int| integer_of(items[i]@, 0xff)->0 as u8,
            ),
            None => !all_bytes(crate::template::contents(items@)),
        },
{
    let mut out: Vec<u8> = Vec::new();
    let mut i: usize = 0;
    let ghost all = crate::template::contents(items@);
    while i < items.len()
        invariant
            i <= items.len(),
            out.len() == i,
            all == crate::template::contents(items@),
            forall|j: int|
                0 <= j < i ==> integer_of(#[trigger] all[j], 0xff) == Some(out[j] as int),
        decreases items.len() - i,
    {
        match read_integer(&items[i], 255) {
            Some(b) => {
                out.push(b as u8);
            },
            None => {
                assert(integer_of(all[i as int], 0xff) is None);
                return None;
            },
        }
        i += 1;
    }
    assert forall|j: int| 0 <= j < items.len() implies out@[j] == integer_of(
        items[j]@,
        0xff,
    )->0 as u8 by {
        assert(all[j] == items[j]@);
    }
    assert(out@ =~= Seq::new(
        items.len() as nat,
        |i: int| integer_of(items[i]@, 0xff)->0 as u8,
    ));
    Some(out)
}

/// Reads a value as the value of a named option of the given shape.
pub fn decode(shape: Shape, data: &Node) -> (r: Option<OptionValue>)
    ensures
        match r {
            Some(value) => decoded(shape, data@) == Some(value@),
            None => decoded(shape, data@) is None,
        },
{
    match shape {
        Shape::Ipv4 => match data {
            Node::String(s) => match Ipv4Address::parse(s.as_str()) {
                Some(ip) => Some(OptionValue::Ipv4(ip)),
                None => None,
            },
            _ => None,
        },
        Shape::Ipv4List => match data {
            Node::Sequence(items) => {
                proof {
                    data.view_of_sequence();
                    assert(data@->List_0 =~= crate::template::contents(items@));
                }
                match read_addresses(items) {
                    Some(ips) => {
                        assert(ips@ =~= Seq::new(
                            data@->List_0.len(),
                            |i: int| ipv4_of(data@->List_0[i]->Text_0)->0,
                        ));
                        Some(OptionValue::Ipv4List(ips))
                    },
                    None => None,
                }
            },
            _ => None,
        },
        Shape::U8 => match read_integer(data, 0xff) {
            Some(n) => Some(OptionValue::U8(n as u8)),
            None => None,
        },
        Shape::U16 => match read_integer(data, 0xffff) {
            Some(n) => Some(OptionValue::U16(n as u16)),
            None => None,
        },
        Shape::U32 => match read_integer(data, 0xffff_ffff) {
            Some(n) => Some(OptionValue::U32(n as u32)),
            None => None,
        },
        Shape::Ascii => match data {
            Node::String(s) => if s.is_ascii() {
                Some(OptionValue::Ascii(s.clone()))
            } else {
                None
            },
            _ => None,
        },
        Shape::Bytes => match data {
            Node::Sequence(items) => {
                proof {
                    data.view_of_sequence();
                    assert(data@->List_0 =~= crate::template::contents(items@));
                }
                match read_bytes(items) {
                    Some(bytes) => {
                        assert(bytes@ =~= Seq::new(
                            data@->List_0.len(),
                            |i: int| integer_of(data@->List_0[i], 0xff)->0 as u8,
                        ));
                        Some(OptionValue::Bytes(bytes))
                    },
                    None => None,
                }
            },
            _ => None,
        },
    }
}


/// What a mapping entry contributes to the result of a phase.
#[derive(Debug)]
pub enum Mapped {
    /// The address that the client is given.
    Address(Ipv4Address),
    /// An option of the response.
    Setting(DhcpOption),
}

/// The mathematical content of a [`Mapped`].
pub enum MappedData {
    Address(Ipv4Address),
    Setting(OptionData),
}

impl View for Mapped {
    type V = MappedData;

    open spec fn view(&self) -> MappedData {
        match self {
            Mapped::Address(ip) => MappedData::Address(*ip),
            Mapped::Setting(option) => MappedData::Setting(option@),
        }
    }
}

/// Why an expanded value gives no address and no option.
pub enum MappingFailure {
    /// The value has not the form that the name asks for.
    Undecodable,
    /// The value of a custom option is a sequence or a mapping.
    CustomType,
}

/// Whether a name is that of the entry for the client's address.
pub open spec fn is_client_ip(name: Seq<char>) -> bool {
    name == "client_ip_address"@
}

/// What the expanded value of the entry `name` contributes: the client's
/// address under `client_ip_address`, the typed option under the name of a
/// named option, and under any other name the custom option that the value
/// describes.
pub open spec fn mapped(name: Seq<char>, data: Data) -> Result<MappedData, MappingFailure> {
    if is_client_ip(name) {
        match data {
            Data::Text(s) => match ipv4_of(s) {
                Some(ip) => Ok(MappedData::Address(ip)),
                None => Err(MappingFailure::Undecodable),
            },
            _ => Err(MappingFailure::Undecodable),
        }
    } else {
        match named_option(name) {
            Some((tag, shape)) => match item_of(data) {
                Some((d, _)) => match decoded(shape, d) {
                    Some(value) => Ok(MappedData::Setting(OptionData::Named(tag, value))),
                    None => Err(MappingFailure::Undecodable),
                },
                None => Err(MappingFailure::Undecodable),
            },
            None => match custom_item_of(data) {
                Some((tag, _, d, _)) => match custom_bytes(d) {
                    Some(bytes) => Ok(MappedData::Setting(OptionData::Unknown(tag, bytes))),
                    None => Err(MappingFailure::CustomType),
                },
                None => Err(MappingFailure::Undecodable),
            },
        }
    }
}

/// Maps the expanded value of one entry to what it contributes.
pub fn map_entry(name: &str, value: &Node) -> (r: DhcpResult<Mapped>)
    ensures
        match mapped(name@, value@) {
            Ok(m) => r matches Ok(x) && x@ == m,
            Err(MappingFailure::Undecodable) => r matches Err(e) && e is SerdeErrorString,
            Err(MappingFailure::CustomType) => r matches Err(e) && e is CustomRestTypeError,
        },
{
    if text_eq(name, "client_ip_address") {
        let ip = match value {
            Node::String(s) => Ipv4Address::parse(s.as_str()),
            _ => None,
        };
        return match ip {
            Some(ip) => Ok(Mapped::Address(ip)),
            None => Err(undecodable("invalid client address")),
        };
    }
    match lookup_named_option(name) {
        Some((tag, shape)) => {
            let item = DhcpRestMappingItem::try_from(value)?;
            match decode(shape, &item.data) {
                Some(v) => Ok(Mapped::Setting(DhcpOption::Named(tag, v))),
                None => Err(undecodable("invalid option value")),
            }
        },
        None => {
            let custom = DhcpRestMappingItemCustom::try_from(value)?;
            let option = custom.try_into()?;
            Ok(Mapped::Setting(option))
        },
    }
}

/// Why a phase fails at an entry.
pub enum MappingFault {
    /// The templates of the entry did not expand.
    Template,
    /// The expanded value of the entry gives no address and no option.
    Value(MappingFailure),
}

/// What the entries passed so far have given: the client's address, if
/// one was named, and the options.
pub struct MappingState {
    pub client_ip: Option<Ipv4Address>,
    pub options: Seq<OptionData>,
}

/// What one entry does to the state, or why it fails the phase. An
/// entry whose templates failed or whose value has the wrong form is passed
/// over unless it is required; a wrong form of the client's address always
/// fails the phase.
pub open spec fn entry_step(
    state: MappingState,
    name: Seq<char>,
    required: bool,
    expanded: bool,
    value: Data,
) -> Result<MappingState, MappingFault> {
    if !expanded {
        if required {
            Err(MappingFault::Template)
        } else {
            Ok(state)
        }
    } else {
        match mapped(name, value) {
            Ok(MappedData::Address(ip)) => Ok(
                MappingState { client_ip: Some(ip), options: state.options },
            ),
            Ok(MappedData::Setting(option)) => Ok(
                MappingState {
                    client_ip: state.client_ip,
                    options: upserted(state.options, option),
                },
            ),
            Err(failure) => if required || is_client_ip(name) {
                Err(MappingFault::Value(failure))
            } else {
                Ok(state)
            },
        }
    }
}

/// The state after the first `upto` entries, or why one of them has
/// failed the phase. `before` holds the mapping as it was, which decides
/// what is required; `after` the values as expansion left them, and
/// `expanded` whether the expansion of each succeeded.
pub open spec fn mapping_run(
    before: Seq<(Seq<char>, Data)>,
    after: Seq<(Seq<char>, Data)>,
    expanded: Seq<bool>,
    upto: int,
) -> Result<MappingState, MappingFault>
    decreases upto,
{
    if upto <= 0 {
        Ok(MappingState { client_ip: None, options: Seq::empty() })
    } else {
        match mapping_run(before, after, expanded, upto - 1) {
            Err(fault) => Err(fault),
            Ok(state) => entry_step(
                state,
                before[upto - 1].0,
                required_of(before[upto - 1].1),
                expanded[upto - 1],
                after[upto - 1].1,
            ),
        }
    }
}

/// How mapping a phase can end. The entries are taken in their order up to
/// the first that fails the phase; `expanded` says of each entry taken
/// whether its templates expanded. Each of them holds what expansion left,
/// the others are as they were, and `out` is the state after the last entry
/// taken, or why that entry failed the phase.
pub open spec fn mapping_outcome(
    before: Seq<(Seq<char>, Data)>,
    after: Seq<(Seq<char>, Data)>,
    expanded: Seq<bool>,
    out: Result<MappingState, MappingFault>,
    strict: bool,
    bindings: Map<Seq<char>, serde_json::Value>,
) -> bool {
    let taken = expanded.len() as int;
    &&& after.len() == before.len()
    &&& taken <= before.len()
    &&& forall|j: int| 0 <= j < before.len() ==> (#[trigger] after[j]).0 == before[j].0
    &&& forall|j: int|
        0 <= j < taken ==> expansion_ended(
            before[j].1,
            (#[trigger] after[j]).1,
            !expanded[j],
            bindings,
            strict,
        )
    &&& forall|j: int| taken <= j < before.len() ==> #[trigger] after[j] == before[j]
    &&& out == mapping_run(before, after, expanded, taken)
    &&& taken < before.len() ==> out is Err
    &&& taken > 0 ==> mapping_run(before, after, expanded, taken - 1) is Ok
}

/// Whether the error of a phase tells how its templates have failed. An
/// error of the templates comes from the entry taken last: a template
/// error where a text of it renders nothing, a YAML error where what a
/// text of it renders to is no YAML document.
pub open spec fn ending_told(
    before: Seq<(Seq<char>, Data)>,
    after: Seq<(Seq<char>, Data)>,
    expanded: Seq<bool>,
    e: DhcpError,
    strict: bool,
    bindings: Map<Seq<char>, serde_json::Value>,
) -> bool {
    fault_of(e) is Template ==> {
        &&& e is TeraError || e is SerdeYamlError
        &&& 0 < expanded.len() <= before.len()
        &&& expanded.len() <= after.len()
        &&& expansion(
            before[expanded.len() - 1].1,
            after[expanded.len() - 1].1,
            fault_ending(e),
            bindings,
            strict,
        )
    }
}

/// How mapping a phase has ended, told by its result: the outcome, and for
/// an error of the templates how they have failed.
pub open spec fn mapping_told(
    before: Seq<(Seq<char>, Data)>,
    after: Seq<(Seq<char>, Data)>,
    expanded: Seq<bool>,
    r: DhcpResult<DhcpSourceResult>,
    strict: bool,
    bindings: Map<Seq<char>, serde_json::Value>,
) -> bool {
    &&& mapping_outcome(before, after, expanded, outcome_of(r), strict, bindings)
    &&& r matches Err(e) ==> ending_told(before, after, expanded, e, strict, bindings)
}

/// No entry can fail the phase: none is required, and none names the
/// client's address.
pub open spec fn never_fatal(mapping: Seq<(Seq<char>, Data)>) -> bool {
    forall|j: int|
        0 <= j < mapping.len() ==> !required_of((#[trigger] mapping[j]).1) && !is_client_ip(
            mapping[j].0,
        )
}

/// The contents of a mapping: the name and the value of each entry.
pub open spec fn mapping_contents(mapping: Seq<(String, Node)>) -> Seq<(Seq<char>, Data)> {
    Seq::new(mapping.len(), |j: int| (mapping[j].0@, mapping[j].1@))
}

/// The state that a result stands for.
pub open spec fn state_of(result: DhcpSourceResult) -> MappingState {
    MappingState { client_ip: result.client_ip_address(), options: result.spec_options()@ }
}

/// The fault that an error of the mapper tells of.
pub open spec fn fault_of(e: DhcpError) -> MappingFault {
    if e is CustomRestTypeError {
        MappingFault::Value(MappingFailure::CustomType)
    } else if e is SerdeErrorString {
        MappingFault::Value(MappingFailure::Undecodable)
    } else {
        MappingFault::Template
    }
}

/// What the result of a phase stands for: the state that it holds, or the
/// fault that its error tells of.
pub open spec fn outcome_of(r: DhcpResult<DhcpSourceResult>) -> Result<
    MappingState,
    MappingFault,
> {
    match r {
        Ok(result) => Ok(state_of(result)),
        Err(e) => Err(fault_of(e)),
    }
}

/// The state after the first `upto` entries depends on these entries alone.
pub proof fn lemma_run_of_prefix(
    before: Seq<(Seq<char>, Data)>,
    first: Seq<(Seq<char>, Data)>,
    first_expanded: Seq<bool>,
    second: Seq<(Seq<char>, Data)>,
    second_expanded: Seq<bool>,
    upto: int,
)
    requires
        upto <= first.len(),
        upto <= second.len(),
        upto <= first_expanded.len(),
        upto <= second_expanded.len(),
        forall|j: int| 0 <= j < upto ==> first[j] == second[j],
        forall|j: int| 0 <= j < upto ==> first_expanded[j] == second_expanded[j],
    ensures
        mapping_run(before, first, first_expanded, upto) == mapping_run(
            before,
            second,
            second_expanded,
            upto,
        ),
    decreases upto,
{
    if upto > 0 {
        lemma_run_of_prefix(before, first, first_expanded, second, second_expanded, upto - 1);
    }
}

/// Where no entry can fail the phase, none does.
pub proof fn lemma_never_fatal_run(
    before: Seq<(Seq<char>, Data)>,
    after: Seq<(Seq<char>, Data)>,
    expanded: Seq<bool>,
    upto: int,
)
    requires
        never_fatal(before),
        upto <= before.len(),
    ensures
        mapping_run(before, after, expanded, upto) is Ok,
    decreases upto,
{
    if upto > 0 {
        lemma_never_fatal_run(before, after, expanded, upto - 1);
        assert(!required_of(before[upto - 1].1) && !is_client_ip(before[upto - 1].0));
    }
}

/// An entry that is not required and does not name the client's address
/// never fails the phase, and where its templates or its value fail, the
/// state stays as it was: the result lacks just this entry.
pub proof fn lemma_failure_omits_entry(
    state: MappingState,
    name: Seq<char>,
    expanded: bool,
    value: Data,
)
    requires
        !is_client_ip(name),
    ensures
        entry_step(state, name, false, expanded, value) is Ok,
        !expanded || mapped(name, value) is Err ==> entry_step(state, name, false, expanded, value)
            == Ok::<MappingState, MappingFault>(state),
{
}


impl DhcpRestSourceConfigSchema {
    /// Maps the phase's mapping to a result. Each entry in turn has its
    /// templates expanded in place against the context and its expanded
    /// value read as the client's address, a named option or a custom
    /// option; options enter the result by upsert. An entry that fails is
    /// passed over, unless it is required or its value is a wrong form of
    /// the client's address: then the phase fails, and the entries after it
    /// stay as they were.
    #[verifier::rlimit(40)]
    pub fn context_to_result(&mut self, context: &tera::Context) -> (r: DhcpResult<
        DhcpSourceResult,
    >)
        ensures
            final(self).scripts == old(self).scripts,
            final(self).queries == old(self).queries,
            final(self).strict == old(self).strict,
            exists|expanded: Seq<bool>| #[trigger]
                mapping_told(
                    mapping_contents(old(self).mapping@),
                    mapping_contents(final(self).mapping@),
                    expanded,
                    r,
                    old(self).strict,
                    context_bindings(*context),
                ),
            never_fatal(mapping_contents(old(self).mapping@)) ==> r is Ok,
            r matches Err(e) ==> e is TeraError || e is SerdeYamlError || e is SerdeErrorString
                || e is CustomRestTypeError,
    {
        let mut client_ip_address: Option<Ipv4Address> = None;
        let mut options = DhcpOptions::new();
        let ghost before = mapping_contents(old(self).mapping@);
        let ghost mut expanded: Seq<bool> = Seq::empty();
        let n = self.mapping.len();
        let mut i: usize = 0;
        while i < n
            invariant
                i <= n,
                n == self.mapping.len(),
                n == old(self).mapping.len(),
                self.scripts == old(self).scripts,
                self.queries == old(self).queries,
                self.strict == old(self).strict,
                before == mapping_contents(old(self).mapping@),
                expanded.len() == i,
                forall|j: int|
                    0 <= j < n ==> (#[trigger] self.mapping[j]).0 == old(self).mapping[j].0,
                forall|j: int|
                    0 <= j < i ==> expansion_ended(
                        old(self).mapping[j].1@,
                        (#[trigger] self.mapping[j]).1@,
                        !expanded[j],
                        context_bindings(*context),
                        self.strict,
                    ),
                forall|j: int| i <= j < n ==> #[trigger] self.mapping[j] == old(self).mapping[j],
                mapping_run(before, mapping_contents(self.mapping@), expanded, i as int) == Ok::<
                    MappingState,
                    MappingFault,
                >(MappingState { client_ip: client_ip_address, options: options@ }),
            decreases n - i,
        {
            let ghost entries = mapping_contents(self.mapping@);
            let ghost run = expanded;
            let required = Self::is_required(&self.mapping[i].1);
            let strict = self.strict;
            let templated = template_values(&mut self.mapping[i].1, context, strict);
            let ghost after = mapping_contents(self.mapping@);
            proof {
                expanded = expanded.push(templated is Ok);
                lemma_run_of_prefix(before, entries, run, after, expanded, i as int);
                assert(after[i as int].1 == self.mapping[i as int].1@);
                assert(before[i as int].1 == old(self).mapping[i as int].1@);
            }
            let step: Option<Mapped> = match templated {
                Err(e) => {
                    if required {
                        proof {
                            self.lemma_outcome(
                                old(self),
                                expanded,
                                Err(MappingFault::Template),
                                context_bindings(*context),
                            );
                            if never_fatal(before) {
                                assert(!required_of(before[i as int].1));
                            }
                            let r: DhcpResult<DhcpSourceResult> = Err(e);
                            assert(ending_told(
                                before,
                                after,
                                expanded,
                                e,
                                old(self).strict,
                                context_bindings(*context),
                            ));
                            assert(mapping_told(
                                before,
                                after,
                                expanded,
                                r,
                                old(self).strict,
                                context_bindings(*context),
                            ));
                        }
                        return Err(e);
                    }
                    None
                },
                Ok(()) => {
                    let is_address = text_eq(self.mapping[i].0.as_str(), "client_ip_address");
                    match map_entry(self.mapping[i].0.as_str(), &self.mapping[i].1) {
                        Ok(m) => Some(m),
                        Err(e) => {
                            if required || is_address {
                                proof {
                                    self.lemma_outcome(
                                        old(self),
                                        expanded,
                                        Err(fault_of(e)),
                                        context_bindings(*context),
                                    );
                                    if never_fatal(before) {
                                        assert(!required_of(before[i as int].1) && !is_client_ip(
                                            before[i as int].0,
                                        ));
                                    }
                                    let r: DhcpResult<DhcpSourceResult> = Err(e);
                                    assert(mapping_told(
                                        before,
                                        after,
                                        expanded,
                                        r,
                                        old(self).strict,
                                        context_bindings(*context),
                                    ));
                                }
                                return Err(e);
                            }
                            None
                        },
                    }
                },
            };
            match step {
                Some(Mapped::Address(ip)) => {
                    client_ip_address = Some(ip);
                },
                Some(Mapped::Setting(option)) => {
                    options.upsert(option);
                },
                None => {},
            }
            i += 1;
        }
        let result = DhcpSourceResult::new(client_ip_address, options);
        proof {
            self.lemma_outcome(
                old(self),
                expanded,
                Ok(state_of(result)),
                context_bindings(*context),
            );
            let r: DhcpResult<DhcpSourceResult> = Ok(result);
            assert(mapping_told(
                before,
                mapping_contents(self.mapping@),
                expanded,
                r,
                old(self).strict,
                context_bindings(*context),
            ));
        }
        Ok(result)
    }

    /// Puts together the outcome of a run from what is known entry by entry.
    proof fn lemma_outcome(
        &self,
        old: &Self,
        expanded: Seq<bool>,
        out: Result<MappingState, MappingFault>,
        bindings: Map<Seq<char>, serde_json::Value>,
    )
        requires
            self.mapping.len() == old.mapping.len(),
            expanded.len() <= self.mapping.len(),
            forall|j: int|
                0 <= j < self.mapping.len() ==> (#[trigger] self.mapping[j]).0 == old.mapping[j].0,
            forall|j: int|
                0 <= j < expanded.len() ==> expansion_ended(
                    old.mapping[j].1@,
                    (#[trigger] self.mapping[j]).1@,
                    !expanded[j],
                    bindings,
                    old.strict,
                ),
            forall|j: int|
                expanded.len() <= j < self.mapping.len() ==> #[trigger] self.mapping[j]
                    == old.mapping[j],
            out == mapping_run(
                mapping_contents(old.mapping@),
                mapping_contents(self.mapping@),
                expanded,
                expanded.len() as int,
            ),
            expanded.len() < self.mapping.len() ==> out is Err,
            expanded.len() > 0 ==> mapping_run(
                mapping_contents(old.mapping@),
                mapping_contents(self.mapping@),
                expanded,
                expanded.len() - 1,
            ) is Ok,
        ensures
            mapping_outcome(
                mapping_contents(old.mapping@),
                mapping_contents(self.mapping@),
                expanded,
                out,
                old.strict,
                bindings,
            ),
    {
        let before = mapping_contents(old.mapping@);
        let after = mapping_contents(self.mapping@);
        assert forall|j: int| 0 <= j < before.len() implies (#[trigger] after[j]).0
            == before[j].0 by {
            assert(self.mapping[j].0 == old.mapping[j].0);
        }
        assert forall|j: int| 0 <= j < expanded.len() implies expansion_ended(
            before[j].1,
            (#[trigger] after[j]).1,
            !expanded[j],
            bindings,
            old.strict,
        ) by {
            assert(expansion_ended(
                old.mapping[j].1@,
                self.mapping[j].1@,
                !expanded[j],
                bindings,
                old.strict,
            ));
        }
        assert forall|j: int| expanded.len() <= j < before.len() implies #[trigger] after[j]
            == before[j] by {
            assert(self.mapping[j] == old.mapping[j]);
        }
    }
}

} // verus!
