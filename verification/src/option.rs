//! DHCP options: typed values, the catalogue of named options and the
//! option set of a packet.

use crate::address::Ipv4Address;
use crate::error::OptionError;
use crate::text::{chars_eq, chars_of};
use vstd::prelude::*;

verus! {

pub const SUBNET_MASK: u8 = 1;

pub const ROUTER: u8 = 3;

pub const HOST_NAME: u8 = 12;

pub const DOMAIN_NAME: u8 = 15;

pub const IP_ADDRESS_LEASE_TIME: u8 = 51;

pub const MESSAGE_TYPE: u8 = 53;

pub const SERVER_IDENTIFIER: u8 = 54;

pub const MESSAGE: u8 = 56;

pub const VENDOR_CLASS_IDENTIFIER: u8 = 60;

pub const BOOT_FILE_NAME: u8 = 67;

/// The shape of the value that a named option carries.
#[derive(Clone, Copy, Debug, PartialEq, Eq, Structural)]
pub enum Shape {
    Ipv4,
    Ipv4List,
    U8,
    U16,
    U32,
    Ascii,
    Bytes,
}

/// The value of a named option.
#[derive(Debug, PartialEq, Eq)]
pub enum OptionValue {
    Ipv4(Ipv4Address),
    Ipv4List(Vec<Ipv4Address>),
    U8(u8),
    U16(u16),
    U32(u32),
    Ascii(String),
    Bytes(Vec<u8>),
}

/// The mathematical content of an [`OptionValue`].
pub enum ValueData {
    Ipv4(Ipv4Address),
    Ipv4List(Seq<Ipv4Address>),
    U8(u8),
    U16(u16),
    U32(u32),
    Ascii(Seq<char>),
    Bytes(Seq<u8>),
}

impl View for OptionValue {
    type V = ValueData;

    open spec fn view(&self) -> ValueData {
        match self {
            OptionValue::Ipv4(ip) => ValueData::Ipv4(*ip),
            OptionValue::Ipv4List(ips) => ValueData::Ipv4List(ips@),
            OptionValue::U8(n) => ValueData::U8(*n),
            OptionValue::U16(n) => ValueData::U16(*n),
            OptionValue::U32(n) => ValueData::U32(*n),
            OptionValue::Ascii(s) => ValueData::Ascii(s@),
            OptionValue::Bytes(b) => ValueData::Bytes(b@),
        }
    }
}

impl ValueData {
    /// The shape of the value.
    pub open spec fn shape(self) -> Shape {
        match self {
            ValueData::Ipv4(_) => Shape::Ipv4,
            ValueData::Ipv4List(_) => Shape::Ipv4List,
            ValueData::U8(_) => Shape::U8,
            ValueData::U16(_) => Shape::U16,
            ValueData::U32(_) => Shape::U32,
            ValueData::Ascii(_) => Shape::Ascii,
            ValueData::Bytes(_) => Shape::Bytes,
        }
    }
}

/// One option of a packet: a named option with its typed value, or an
/// option with a custom tag and raw bytes.
#[derive(Debug, PartialEq, Eq)]
pub enum DhcpOption {
    Named(u8, OptionValue),
    Unknown(u8, Vec<u8>),
}

/// The mathematical content of a [`DhcpOption`].
pub enum OptionData {
    Named(u8, ValueData),
    Unknown(u8, Seq<u8>),
}

impl OptionData {
    /// The tag under which the option travels.
    pub open spec fn tag(self) -> u8 {
        match self {
            OptionData::Named(tag, _) => tag,
            OptionData::Unknown(tag, _) => tag,
        }
    }
}

impl View for DhcpOption {
    type V = OptionData;

    open spec fn view(&self) -> OptionData {
        match self {
            DhcpOption::Named(tag, value) => OptionData::Named(*tag, value@),
            DhcpOption::Unknown(tag, bytes) => OptionData::Unknown(*tag, bytes@),
        }
    }
}

impl DhcpOption {
    /// The tag under which the option travels.
    pub fn tag(&self) -> (r: u8)
        ensures
            r == self@.tag(),
    {
        match self {
            DhcpOption::Named(tag, _) => *tag,
            DhcpOption::Unknown(tag, _) => *tag,
        }
    }
}

/// The catalogue of named options: the tag and the shape of the value of
/// each name that a mapping may use. The tags are those of RFC 2132. A
/// list of numbers of sixteen bits travels as bytes, and the server
/// identifier is the text that a response names its server by.
pub open spec fn named_option(name: Seq<char>) -> Option<(u8, Shape)> {
    if name == "subnet_mask"@ {
        Some((1u8, Shape::Ipv4))
    } else if name == "time_offset"@ {
        Some((2u8, Shape::U32))
    } else if name == "router"@ {
        Some((3u8, Shape::Ipv4List))
    } else if name == "time_server"@ {
        Some((4u8, Shape::Ipv4List))
    } else if name == "name_server"@ {
        Some((5u8, Shape::Ipv4List))
    } else if name == "domain_name_server"@ {
        Some((6u8, Shape::Ipv4List))
    } else if name == "log_server"@ {
        Some((7u8, Shape::Ipv4List))
    } else if name == "cookie_server"@ {
        Some((8u8, Shape::Ipv4List))
    } else if name == "lpr_server"@ {
        Some((9u8, Shape::Ipv4List))
    } else if name == "impress_server"@ {
        Some((10u8, Shape::Ipv4List))
    } else if name == "resource_location_server"@ {
        Some((11u8, Shape::Ipv4List))
    } else if name == "host_name"@ {
        Some((12u8, Shape::Ascii))
    } else if name == "boot_file_size"@ {
        Some((13u8, Shape::U16))
    } else if name == "merit_dump_file"@ {
        Some((14u8, Shape::Ascii))
    } else if name == "domain_name"@ {
        Some((15u8, Shape::Ascii))
    } else if name == "swap_server"@ {
        Some((16u8, Shape::Ipv4))
    } else if name == "root_path"@ {
        Some((17u8, Shape::Ascii))
    } else if name == "extension_path"@ {
        Some((18u8, Shape::Ascii))
    } else if name == "ip_forwarding"@ {
        Some((19u8, Shape::U8))
    } else if name == "non_local_source_routing"@ {
        Some((20u8, Shape::U8))
    } else if name == "policy_filter"@ {
        Some((21u8, Shape::Ipv4List))
    } else if name == "maximum_datagram_reassembly_size"@ {
        Some((22u8, Shape::U16))
    } else if name == "default_ip_ttl"@ {
        Some((23u8, Shape::U8))
    } else if name == "path_mtu_aging_timeout"@ {
        Some((24u8, Shape::U32))
    } else if name == "path_mtu_plateau_table"@ {
        Some((25u8, Shape::Bytes))
    } else if name == "interface_mtu"@ {
        Some((26u8, Shape::U16))
    } else if name == "all_subnets_local"@ {
        Some((27u8, Shape::U8))
    } else if name == "broadcast_address"@ {
        Some((28u8, Shape::Ipv4))
    } else if name == "mask_supplier"@ {
        Some((30u8, Shape::U8))
    } else if name == "perform_router_discovery"@ {
        Some((31u8, Shape::U8))
    } else if name == "router_solicitation_address"@ {
        Some((32u8, Shape::Ipv4))
    } else if name == "static_route"@ {
        Some((33u8, Shape::Ipv4List))
    } else if name == "trailer_encapsulation"@ {
        Some((34u8, Shape::U8))
    } else if name == "arp_cache_timeout"@ {
        Some((35u8, Shape::U32))
    } else if name == "ethernet_encapsulation"@ {
        Some((36u8, Shape::U8))
    } else if name == "tcp_default_ttl"@ {
        Some((37u8, Shape::U8))
    } else if name == "tcp_keep_alive_interval"@ {
        Some((38u8, Shape::U32))
    } else if name == "tcp_keep_alive_garbage"@ {
        Some((39u8, Shape::U8))
    } else if name == "network_information_service_domain"@ {
        Some((40u8, Shape::Ascii))
    } else if name == "network_information_servers"@ {
        Some((41u8, Shape::Ipv4List))
    } else if name == "network_time_protocol_servers"@ {
        Some((42u8, Shape::Ipv4List))
    } else if name == "vendor_specific"@ {
        Some((43u8, Shape::Bytes))
    } else if name == "net_bios_over_tcp_ip_name_server"@ {
        Some((44u8, Shape::Ipv4List))
    } else if name == "net_bios_over_tcp_ip_datagram_distribution_server"@ {
        Some((45u8, Shape::Ipv4List))
    } else if name == "net_bios_over_tcp_ip_node_type"@ {
        Some((46u8, Shape::U8))
    } else if name == "net_bios_over_tcp_ip_scope"@ {
        Some((47u8, Shape::Ascii))
    } else if name == "x_window_system_font_server"@ {
        Some((48u8, Shape::Ipv4List))
    } else if name == "x_window_system_display_manager"@ {
        Some((49u8, Shape::Ipv4List))
    } else if name == "requested_ip_address"@ {
        Some((50u8, Shape::Ipv4))
    } else if name == "ip_address_lease_time"@ {
        Some((51u8, Shape::U32))
    } else if name == "option_overload"@ {
        Some((52u8, Shape::U8))
    } else if name == "message_type"@ {
        Some((53u8, Shape::U8))
    } else if name == "server_identifier"@ {
        Some((54u8, Shape::Ascii))
    } else if name == "parameter_request_list"@ {
        Some((55u8, Shape::Bytes))
    } else if name == "message"@ {
        Some((56u8, Shape::Ascii))
    } else if name == "maximum_dhcp_message_size"@ {
        Some((57u8, Shape::U16))
    } else if name == "renewal_time_value"@ {
        Some((58u8, Shape::U32))
    } else if name == "rebinding_time_value"@ {
        Some((59u8, Shape::U32))
    } else if name == "vendor_class_identifier"@ {
        Some((60u8, Shape::Bytes))
    } else if name == "client_identifier"@ {
        Some((61u8, Shape::Bytes))
    } else if name == "network_information_service_plus_domain"@ {
        Some((64u8, Shape::Ascii))
    } else if name == "network_information_service_plus_server"@ {
        Some((65u8, Shape::Ipv4List))
    } else if name == "tftp_server"@ {
        Some((66u8, Shape::Ascii))
    } else if name == "boot_file_name"@ {
        Some((67u8, Shape::Ascii))
    } else if name == "mobile_ip_home_agent"@ {
        Some((68u8, Shape::Ipv4List))
    } else if name == "smtp_server"@ {
        Some((69u8, Shape::Ipv4List))
    } else if name == "pop3_server"@ {
        Some((70u8, Shape::Ipv4List))
    } else if name == "nntp_server"@ {
        Some((71u8, Shape::Ipv4List))
    } else if name == "www_server"@ {
        Some((72u8, Shape::Ipv4List))
    } else if name == "finger_server"@ {
        Some((73u8, Shape::Ipv4List))
    } else if name == "irc_server"@ {
        Some((74u8, Shape::Ipv4List))
    } else if name == "street_talk_server"@ {
        Some((75u8, Shape::Ipv4List))
    } else if name == "street_talk_directory_assistance_server"@ {
        Some((76u8, Shape::Ipv4List))
    } else {
        None
    }
}

/// Looks a name up in the catalogue of named options.
pub fn lookup_named_option(name: &str) -> (r: Option<(u8, Shape)>)
    ensures
        r == named_option(name@),
{
    let chars = chars_of(name);
    if chars_eq(&chars, "subnet_mask") {
        Some((1, Shape::Ipv4))
    } else if chars_eq(&chars, "time_offset") {
        Some((2, Shape::U32))
    } else if chars_eq(&chars, "router") {
        Some((3, Shape::Ipv4List))
    } else if chars_eq(&chars, "time_server") {
        Some((4, Shape::Ipv4List))
    } else if chars_eq(&chars, "name_server") {
        Some((5, Shape::Ipv4List))
    } else if chars_eq(&chars, "domain_name_server") {
        Some((6, Shape::Ipv4List))
    } else if chars_eq(&chars, "log_server") {
        Some((7, Shape::Ipv4List))
    } else if chars_eq(&chars, "cookie_server") {
        Some((8, Shape::Ipv4List))
    } else if chars_eq(&chars, "lpr_server") {
        Some((9, Shape::Ipv4List))
    } else if chars_eq(&chars, "impress_server") {
        Some((10, Shape::Ipv4List))
    } else if chars_eq(&chars, "resource_location_server") {
        Some((11, Shape::Ipv4List))
    } else if chars_eq(&chars, "host_name") {
        Some((12, Shape::Ascii))
    } else if chars_eq(&chars, "boot_file_size") {
        Some((13, Shape::U16))
    } else if chars_eq(&chars, "merit_dump_file") {
        Some((14, Shape::Ascii))
    } else if chars_eq(&chars, "domain_name") {
        Some((15, Shape::Ascii))
    } else if chars_eq(&chars, "swap_server") {
        Some((16, Shape::Ipv4))
    } else if chars_eq(&chars, "root_path") {
        Some((17, Shape::Ascii))
    } else if chars_eq(&chars, "extension_path") {
        Some((18, Shape::Ascii))
    } else if chars_eq(&chars, "ip_forwarding") {
        Some((19, Shape::U8))
    } else if chars_eq(&chars, "non_local_source_routing") {
        Some((20, Shape::U8))
    } else if chars_eq(&chars, "policy_filter") {
        Some((21, Shape::Ipv4List))
    } else if chars_eq(&chars, "maximum_datagram_reassembly_size") {
        Some((22, Shape::U16))
    } else if chars_eq(&chars, "default_ip_ttl") {
        Some((23, Shape::U8))
    } else if chars_eq(&chars, "path_mtu_aging_timeout") {
        Some((24, Shape::U32))
    } else if chars_eq(&chars, "path_mtu_plateau_table") {
        Some((25, Shape::Bytes))
    } else if chars_eq(&chars, "interface_mtu") {
        Some((26, Shape::U16))
    } else if chars_eq(&chars, "all_subnets_local") {
        Some((27, Shape::U8))
    } else if chars_eq(&chars, "broadcast_address") {
        Some((28, Shape::Ipv4))
    } else if chars_eq(&chars, "mask_supplier") {
        Some((30, Shape::U8))
    } else if chars_eq(&chars, "perform_router_discovery") {
        Some((31, Shape::U8))
    } else if chars_eq(&chars, "router_solicitation_address") {
        Some((32, Shape::Ipv4))
    } else if chars_eq(&chars, "static_route") {
        Some((33, Shape::Ipv4List))
    } else if chars_eq(&chars, "trailer_encapsulation") {
        Some((34, Shape::U8))
    } else if chars_eq(&chars, "arp_cache_timeout") {
        Some((35, Shape::U32))
    } else if chars_eq(&chars, "ethernet_encapsulation") {
        Some((36, Shape::U8))
    } else if chars_eq(&chars, "tcp_default_ttl") {
        Some((37, Shape::U8))
    } else if chars_eq(&chars, "tcp_keep_alive_interval") {
        Some((38, Shape::U32))
    } else if chars_eq(&chars, "tcp_keep_alive_garbage") {
        Some((39, Shape::U8))
    } else if chars_eq(&chars, "network_information_service_domain") {
        Some((40, Shape::Ascii))
    } else if chars_eq(&chars, "network_information_servers") {
        Some((41, Shape::Ipv4List))
    } else if chars_eq(&chars, "network_time_protocol_servers") {
        Some((42, Shape::Ipv4List))
    } else if chars_eq(&chars, "vendor_specific") {
        Some((43, Shape::Bytes))
    } else if chars_eq(&chars, "net_bios_over_tcp_ip_name_server") {
        Some((44, Shape::Ipv4List))
    } else if chars_eq(&chars, "net_bios_over_tcp_ip_datagram_distribution_server") {
        Some((45, Shape::Ipv4List))
    } else if chars_eq(&chars, "net_bios_over_tcp_ip_node_type") {
        Some((46, Shape::U8))
    } else if chars_eq(&chars, "net_bios_over_tcp_ip_scope") {
        Some((47, Shape::Ascii))
    } else if chars_eq(&chars, "x_window_system_font_server") {
        Some((48, Shape::Ipv4List))
    } else if chars_eq(&chars, "x_window_system_display_manager") {
        Some((49, Shape::Ipv4List))
    } else if chars_eq(&chars, "requested_ip_address") {
        Some((50, Shape::Ipv4))
    } else if chars_eq(&chars, "ip_address_lease_time") {
        Some((51, Shape::U32))
    } else if chars_eq(&chars, "option_overload") {
        Some((52, Shape::U8))
    } else if chars_eq(&chars, "message_type") {
        Some((53, Shape::U8))
    } else if chars_eq(&chars, "server_identifier") {
        Some((54, Shape::Ascii))
    } else if chars_eq(&chars, "parameter_request_list") {
        Some((55, Shape::Bytes))
    } else if chars_eq(&chars, "message") {
        Some((56, Shape::Ascii))
    } else if chars_eq(&chars, "maximum_dhcp_message_size") {
        Some((57, Shape::U16))
    } else if chars_eq(&chars, "renewal_time_value") {
        Some((58, Shape::U32))
    } else if chars_eq(&chars, "rebinding_time_value") {
        Some((59, Shape::U32))
    } else if chars_eq(&chars, "vendor_class_identifier") {
        Some((60, Shape::Bytes))
    } else if chars_eq(&chars, "client_identifier") {
        Some((61, Shape::Bytes))
    } else if chars_eq(&chars, "network_information_service_plus_domain") {
        Some((64, Shape::Ascii))
    } else if chars_eq(&chars, "network_information_service_plus_server") {
        Some((65, Shape::Ipv4List))
    } else if chars_eq(&chars, "tftp_server") {
        Some((66, Shape::Ascii))
    } else if chars_eq(&chars, "boot_file_name") {
        Some((67, Shape::Ascii))
    } else if chars_eq(&chars, "mobile_ip_home_agent") {
        Some((68, Shape::Ipv4List))
    } else if chars_eq(&chars, "smtp_server") {
        Some((69, Shape::Ipv4List))
    } else if chars_eq(&chars, "pop3_server") {
        Some((70, Shape::Ipv4List))
    } else if chars_eq(&chars, "nntp_server") {
        Some((71, Shape::Ipv4List))
    } else if chars_eq(&chars, "www_server") {
        Some((72, Shape::Ipv4List))
    } else if chars_eq(&chars, "finger_server") {
        Some((73, Shape::Ipv4List))
    } else if chars_eq(&chars, "irc_server") {
        Some((74, Shape::Ipv4List))
    } else if chars_eq(&chars, "street_talk_server") {
        Some((75, Shape::Ipv4List))
    } else if chars_eq(&chars, "street_talk_directory_assistance_server") {
        Some((76, Shape::Ipv4List))
    } else {
        None
    }
}

/// The index of the first option at or after `from` that has the tag.
pub open spec fn find_from(options: Seq<OptionData>, tag: u8, from: int) -> Option<int>
    decreases options.len() - from,
{
    if from < 0 || from >= options.len() {
        None
    } else if options[from].tag() == tag {
        Some(from)
    } else {
        find_from(options, tag, from + 1)
    }
}

/// The option with the tag, where the options hold one.
pub open spec fn option_of(options: Seq<OptionData>, tag: u8) -> Option<OptionData> {
    match find_from(options, tag, 0) {
        Some(i) => Some(options[i]),
        None => None,
    }
}

/// The options after an upsert: the new option stands in the place of the
/// one that had its tag, or at the end where none had.
pub open spec fn upserted(options: Seq<OptionData>, option: OptionData) -> Seq<OptionData> {
    match find_from(options, option.tag(), 0) {
        Some(i) => options.update(i, option),
        None => options.push(option),
    }
}

/// The options after upserting `more` from index `from` on, one after the other.
pub open spec fn upserted_all(options: Seq<OptionData>, more: Seq<OptionData>, from: int) -> Seq<
    OptionData,
>
    decreases more.len() - from,
{
    if from < 0 || from >= more.len() {
        options
    } else {
        upserted_all(upserted(options, more[from]), more, from + 1)
    }
}

/// No two options share a tag.
pub open spec fn distinct_tags(options: Seq<OptionData>) -> bool {
    forall|i: int, j: int|
        0 <= i < j < options.len() ==> (#[trigger] options[i]).tag() != (
        #[trigger] options[j]).tag()
}

/// The value of the option with the tag, as a number of 32 bits.
pub open spec fn u32_of(options: Seq<OptionData>, tag: u8) -> Result<u32, OptionError> {
    match option_of(options, tag) {
        Some(OptionData::Named(_, ValueData::U32(n))) => Ok(n),
        Some(_) => Err(OptionError::WrongShape(tag)),
        None => Err(OptionError::Missing(tag)),
    }
}

/// The value of the option with the tag, as ASCII text.
pub open spec fn ascii_of(options: Seq<OptionData>, tag: u8) -> Result<Seq<char>, OptionError> {
    match option_of(options, tag) {
        Some(OptionData::Named(_, ValueData::Ascii(s))) => Ok(s),
        Some(_) => Err(OptionError::WrongShape(tag)),
        None => Err(OptionError::Missing(tag)),
    }
}

/// The value of the option with the tag, as bytes: those of a named option
/// of that shape, or of an option with a custom tag.
pub open spec fn bytes_of(options: Seq<OptionData>, tag: u8) -> Result<Seq<u8>, OptionError> {
    match option_of(options, tag) {
        Some(OptionData::Named(_, ValueData::Bytes(b))) => Ok(b),
        Some(OptionData::Unknown(_, b)) => Ok(b),
        Some(_) => Err(OptionError::WrongShape(tag)),
        None => Err(OptionError::Missing(tag)),
    }
}

/// The value of the option with the tag, as one address.
pub open spec fn ipv4_of_option(options: Seq<OptionData>, tag: u8) -> Result<
    Ipv4Address,
    OptionError,
> {
    match option_of(options, tag) {
        Some(OptionData::Named(_, ValueData::Ipv4(ip))) => Ok(ip),
        Some(_) => Err(OptionError::WrongShape(tag)),
        None => Err(OptionError::Missing(tag)),
    }
}

/// The value of the option with the tag, as a list of addresses.
pub open spec fn ipv4_list_of(options: Seq<OptionData>, tag: u8) -> Result<
    Seq<Ipv4Address>,
    OptionError,
> {
    match option_of(options, tag) {
        Some(OptionData::Named(_, ValueData::Ipv4List(ips))) => Ok(ips),
        Some(_) => Err(OptionError::WrongShape(tag)),
        None => Err(OptionError::Missing(tag)),
    }
}

/// The contents of a list of options.
pub open spec fn option_contents(options: Seq<DhcpOption>) -> Seq<OptionData> {
    Seq::new(options.len(), |i: int| options[i]@)
}

/// The options of a packet, in the order in which they were first set, at
/// most one for each tag.
#[derive(Debug, PartialEq, Eq)]
pub struct DhcpOptions {
    items: Vec<DhcpOption>,
}

impl View for DhcpOptions {
    type V = Seq<OptionData>;

    closed spec fn view(&self) -> Seq<OptionData> {
        option_contents(self.items@)
    }
}

impl DhcpOptions {
    #[verifier::type_invariant]
    closed spec fn well_formed(&self) -> bool {
        distinct_tags(option_contents(self.items@))
    }

    /// The empty option set.
    pub fn new() -> (r: DhcpOptions)
        ensures
            r@ == Seq::<OptionData>::empty(),
    {
        let r = DhcpOptions { items: Vec::new() };
        assert(r@ =~= Seq::<OptionData>::empty());
        r
    }

    /// The number of options in the set.
    pub fn len(&self) -> (r: usize)
        ensures
            r == self@.len(),
            distinct_tags(self@),
    {
        proof {
            use_type_invariant(self);
        }
        self.items.len()
    }

    /// The option at a place in the order of the set.
    pub fn nth(&self, index: usize) -> (r: Option<&DhcpOption>)
        ensures
            match r {
                Some(option) => index < self@.len() && option@ == self@[index as int],
                None => index >= self@.len(),
            },
    {
        if index < self.items.len() {
            Some(&self.items[index])
        } else {
            None
        }
    }

    fn position(&self, tag: u8) -> (r: Option<usize>)
        ensures
            match r {
                Some(i) => find_from(self@, tag, 0) == Some(i as int) && i < self.items.len(),
                None => find_from(self@, tag, 0) is None,
            },
    {
        let mut i: usize = 0;
        while i < self.items.len()
            invariant
                i <= self.items.len(),
                find_from(self@, tag, 0) == find_from(self@, tag, i as int),
            decreases self.items.len() - i,
        {
            if self.items[i].tag() == tag {
                return Some(i);
            }
            i += 1;
        }
        None
    }

    /// Puts an option into the set: in the place of the option that has its
    /// tag, or at the end where none has.
    pub fn upsert(&mut self, option: DhcpOption)
        ensures
            final(self)@ == upserted(old(self)@, option@),
    {
        proof {
            use_type_invariant(&*self);
        }
        let tag = option.tag();
        let found = self.position(tag);
        let mut taken = DhcpOptions { items: Vec::new() };
        core::mem::swap(self, &mut taken);
        let DhcpOptions { items } = taken;
        let mut items = items;
        let ghost before = option_contents(items@);
        match found {
            Some(i) => {
                proof {
                    lemma_found(before, tag, 0);
                }
                items[i] = option;
            },
            None => {
                proof {
                    lemma_absent(before, tag, 0);
                }
                items.push(option);
            },
        }
        assert(option_contents(items@) =~= upserted(before, option@));
        proof {
            lemma_upsert_keeps_tags_distinct(before, option@);
        }
        *self = DhcpOptions { items };
    }

    /// The set that upserting the given options one after the other leaves.
    pub fn new_with_options(options: Vec<DhcpOption>) -> (r: DhcpOptions)
        ensures
            r@ == upserted_all(Seq::empty(), option_contents(options@), 0),
    {
        let mut out = DhcpOptions::new();
        let mut options = options;
        let ghost all = option_contents(options@);
        let mut rest: Vec<DhcpOption> = Vec::new();
        // Options leave `options` from its end, so they are turned round first.
        while options.len() > 0
            invariant
                options.len() + rest.len() == all.len(),
                forall|j: int| 0 <= j < options.len() ==> (#[trigger] options[j])@ == all[j],
                forall|j: int|
                    0 <= j < rest.len() ==> (#[trigger] rest[j])@ == all[all.len() - 1 - j],
            decreases options.len(),
        {
            let last = options.pop().unwrap();
            rest.push(last);
        }
        let ghost mut done: int = 0;
        while rest.len() > 0
            invariant
                0 <= done <= all.len(),
                rest.len() == all.len() - done,
                forall|j: int|
                    0 <= j < rest.len() ==> (#[trigger] rest[j])@ == all[all.len() - 1 - j],
                upserted_all(out@, all, done) == upserted_all(Seq::empty(), all, 0),
            decreases rest.len(),
        {
            let next = rest.pop().unwrap();
            out.upsert(next);
            proof {
                done = done + 1;
            }
        }
        out
    }

    /// The value of the option with the tag, as a number of 32 bits.
    pub fn try_u32_option(&self, tag: u8) -> (r: Result<u32, OptionError>)
        ensures
            r == u32_of(self@, tag),
    {
        match self.option(tag) {
            Some(DhcpOption::Named(_, OptionValue::U32(n))) => Ok(*n),
            Some(_) => Err(OptionError::WrongShape(tag)),
            None => Err(OptionError::Missing(tag)),
        }
    }

    /// The value of the option with the tag, as ASCII text.
    pub fn try_ascii_option(&self, tag: u8) -> (r: Result<String, OptionError>)
        ensures
            match r {
                Ok(text) => ascii_of(self@, tag) == Ok::<Seq<char>, OptionError>(text@),
                Err(e) => ascii_of(self@, tag) == Err::<Seq<char>, OptionError>(e),
            },
    {
        match self.option(tag) {
            Some(DhcpOption::Named(_, OptionValue::Ascii(text))) => Ok(text.clone()),
            Some(_) => Err(OptionError::WrongShape(tag)),
            None => Err(OptionError::Missing(tag)),
        }
    }

    /// The value of the option with the tag, as bytes.
    pub fn try_vec_u8_option(&self, tag: u8) -> (r: Result<Vec<u8>, OptionError>)
        ensures
            match r {
                Ok(bytes) => bytes_of(self@, tag) == Ok::<Seq<u8>, OptionError>(bytes@),
                Err(e) => bytes_of(self@, tag) == Err::<Seq<u8>, OptionError>(e),
            },
    {
        match self.option(tag) {
            Some(DhcpOption::Named(_, OptionValue::Bytes(bytes))) => {
                let copy = bytes.clone();
                assert(copy@ =~= bytes@);
                Ok(copy)
            },
            Some(DhcpOption::Unknown(_, bytes)) => {
                let copy = bytes.clone();
                assert(copy@ =~= bytes@);
                Ok(copy)
            },
            Some(_) => Err(OptionError::WrongShape(tag)),
            None => Err(OptionError::Missing(tag)),
        }
    }

    /// The value of the option with the tag, as one address.
    pub fn try_ipv4_option(&self, tag: u8) -> (r: Result<Ipv4Address, OptionError>)
        ensures
            r == ipv4_of_option(self@, tag),
    {
        match self.option(tag) {
            Some(DhcpOption::Named(_, OptionValue::Ipv4(ip))) => Ok(*ip),
            Some(_) => Err(OptionError::WrongShape(tag)),
            None => Err(OptionError::Missing(tag)),
        }
    }

    /// The value of the option with the tag, as a list of addresses.
    pub fn try_ipv4vec_option(&self, tag: u8) -> (r: Result<Vec<Ipv4Address>, OptionError>)
        ensures
            match r {
                Ok(ips) => ipv4_list_of(self@, tag) == Ok::<Seq<Ipv4Address>, OptionError>(ips@),
                Err(e) => ipv4_list_of(self@, tag) == Err::<Seq<Ipv4Address>, OptionError>(e),
            },
    {
        match self.option(tag) {
            Some(DhcpOption::Named(_, OptionValue::Ipv4List(ips))) => {
                let mut copy: Vec<Ipv4Address> = Vec::new();
                let mut i: usize = 0;
                while i < ips.len()
                    invariant
                        i <= ips.len(),
                        copy@ == ips@.take(i as int),
                    decreases ips.len() - i,
                {
                    copy.push(ips[i]);
                    i += 1;
                    assert(ips@.take(i as int) =~= ips@.take(i - 1).push(ips@[i - 1]));
                }
                assert(copy@ =~= ips@);
                Ok(copy)
            },
            Some(_) => Err(OptionError::WrongShape(tag)),
            None => Err(OptionError::Missing(tag)),
        }
    }

    /// The option with the tag, where the set holds one.
    pub fn option(&self, tag: u8) -> (r: Option<&DhcpOption>)
        ensures
            match r {
                Some(o) => option_of(self@, tag) == Some(o@),
                None => option_of(self@, tag) is None,
            },
    {
        match self.position(tag) {
            Some(i) => Some(&self.items[i]),
            None => None,
        }
    }
}

impl Default for DhcpOptions {
    fn default() -> (r: Self)
        ensures
            r@ == Seq::<OptionData>::empty(),
    {
        DhcpOptions::new()
    }
}

/// Where a tag is found, an option with this tag stands there and none
/// before it.
pub proof fn lemma_found(options: Seq<OptionData>, tag: u8, from: int)
    requires
        0 <= from,
        find_from(options, tag, from) is Some,
    ensures
        from <= find_from(options, tag, from)->0 < options.len(),
        options[find_from(options, tag, from)->0].tag() == tag,
        forall|j: int|
            from <= j < find_from(options, tag, from)->0 ==> (#[trigger] options[j]).tag() != tag,
    decreases options.len() - from,
{
    if from < options.len() && options[from].tag() != tag {
        lemma_found(options, tag, from + 1);
    }
}

/// Where a tag is not found, no option at or after `from` has it.
pub proof fn lemma_absent(options: Seq<OptionData>, tag: u8, from: int)
    requires
        0 <= from,
        find_from(options, tag, from) is None,
    ensures
        forall|j: int| from <= j < options.len() ==> (#[trigger] options[j]).tag() != tag,
    decreases options.len() - from,
{
    if from < options.len() {
        lemma_absent(options, tag, from + 1);
    }
}


/// An upsert into options with distinct tags leaves the tags distinct.
pub proof fn lemma_upsert_keeps_tags_distinct(options: Seq<OptionData>, option: OptionData)
    requires
        distinct_tags(options),
    ensures
        distinct_tags(upserted(options, option)),
{
    let tag = option.tag();
    let after = upserted(options, option);
    match find_from(options, tag, 0) {
        Some(i) => {
            lemma_found(options, tag, 0);
            assert forall|a: int, b: int| 0 <= a < b < after.len() implies (
            #[trigger] after[a]).tag() != (#[trigger] after[b]).tag() by {
                assert(options[a].tag() != options[b].tag());
            }
        },
        None => {
            lemma_absent(options, tag, 0);
            assert forall|a: int, b: int| 0 <= a < b < after.len() implies (
            #[trigger] after[a]).tag() != (#[trigger] after[b]).tag() by {
                if b < options.len() {
                    assert(options[a].tag() != options[b].tag());
                } else {
                    assert(options[a].tag() != tag);
                }
            }
        },
    }
}


/// After an upsert the set holds the new option under its tag.
pub proof fn lemma_upsert_sets(options: Seq<OptionData>, option: OptionData)
    ensures
        option_of(upserted(options, option), option.tag()) == Some(option),
{
    let tag = option.tag();
    let after = upserted(options, option);
    match find_from(options, tag, 0) {
        Some(i) => {
            lemma_found(options, tag, 0);
            lemma_find_first(after, tag, 0, i);
        },
        None => {
            lemma_absent(options, tag, 0);
            lemma_find_first(after, tag, 0, options.len() as int);
        },
    }
}

/// An upsert leaves the options under every other tag as they were.
pub proof fn lemma_upsert_keeps_others(options: Seq<OptionData>, option: OptionData, tag: u8)
    requires
        tag != option.tag(),
    ensures
        option_of(upserted(options, option), tag) == option_of(options, tag),
{
    let after = upserted(options, option);
    if find_from(options, option.tag(), 0) is Some {
        lemma_found(options, option.tag(), 0);
    }
    match find_from(options, tag, 0) {
        Some(i) => {
            lemma_found(options, tag, 0);
            lemma_find_first(after, tag, 0, i);
        },
        None => {
            lemma_absent(options, tag, 0);
            lemma_find_none(after, tag, 0);
        },
    }
}

/// The first option with a tag is found where it stands.
pub proof fn lemma_find_first(options: Seq<OptionData>, tag: u8, from: int, at: int)
    requires
        0 <= from <= at < options.len(),
        options[at].tag() == tag,
        forall|j: int| from <= j < at ==> (#[trigger] options[j]).tag() != tag,
    ensures
        find_from(options, tag, from) == Some(at),
    decreases at - from,
{
    if from < at {
        lemma_find_first(options, tag, from + 1, at);
    }
}

/// A tag that no option has is not found.
pub proof fn lemma_find_none(options: Seq<OptionData>, tag: u8, from: int)
    requires
        0 <= from,
        forall|j: int| from <= j < options.len() ==> (#[trigger] options[j]).tag() != tag,
    ensures
        find_from(options, tag, from) is None,
    decreases options.len() - from,
{
    if from < options.len() {
        lemma_find_none(options, tag, from + 1);
    }
}

} // verus!
