//! What the server reads of a DHCP packet.

use crate::address::{Ipv4Address, MacAddress};
use crate::option::{
    ascii_of, option_of, DhcpOption, DhcpOptions, OptionData, OptionValue, ValueData, HOST_NAME,
    MESSAGE_TYPE,
};
use vstd::prelude::*;

verus! {

/// The type of a DHCP message.
#[derive(Clone, Copy, Debug, PartialEq, Eq, Structural)]
pub enum MessageType {
    Discover,
    Offer,
    Request,
    Decline,
    Ack,
    Nak,
    Release,
    Inform,
}

/// The message type that a code of the message-type option stands for.
pub open spec fn message_type_of(code: u8) -> Option<MessageType> {
    if code == 1 {
        Some(MessageType::Discover)
    } else if code == 2 {
        Some(MessageType::Offer)
    } else if code == 3 {
        Some(MessageType::Request)
    } else if code == 4 {
        Some(MessageType::Decline)
    } else if code == 5 {
        Some(MessageType::Ack)
    } else if code == 6 {
        Some(MessageType::Nak)
    } else if code == 7 {
        Some(MessageType::Release)
    } else if code == 8 {
        Some(MessageType::Inform)
    } else {
        None
    }
}

impl MessageType {
    /// The message type that a code of the message-type option stands for.
    pub fn from_code(code: u8) -> (r: Option<MessageType>)
        ensures
            r == message_type_of(code),
    {
        if code == 1 {
            Some(MessageType::Discover)
        } else if code == 2 {
            Some(MessageType::Offer)
        } else if code == 3 {
            Some(MessageType::Request)
        } else if code == 4 {
            Some(MessageType::Decline)
        } else if code == 5 {
            Some(MessageType::Ack)
        } else if code == 6 {
            Some(MessageType::Nak)
        } else if code == 7 {
            Some(MessageType::Release)
        } else if code == 8 {
            Some(MessageType::Inform)
        } else {
            None
        }
    }
}

/// A DHCP packet as the server reads it: the addresses of its header and
/// its options.
#[derive(Debug)]
pub struct DhcpPacket {
    /// The transaction of the exchange.
    pub xid: u32,
    /// The address that the client has (`ciaddr`).
    pub client: Ipv4Address,
    /// The address that the client is given (`yiaddr`).
    pub your: Ipv4Address,
    /// The address of the next server (`siaddr`).
    pub server: Ipv4Address,
    /// The address of the relay agent (`giaddr`).
    pub gateway: Ipv4Address,
    /// The hardware address of the client (`chaddr`).
    pub client_hardware: MacAddress,
    /// The options of the packet.
    pub options: DhcpOptions,
}

/// The message type that the options of a packet state.
pub open spec fn stated_message_type(options: Seq<OptionData>) -> Option<MessageType> {
    match option_of(options, MESSAGE_TYPE) {
        Some(OptionData::Named(_, ValueData::U8(code))) => message_type_of(code),
        _ => None,
    }
}

/// The host name that the options of a packet state.
pub open spec fn stated_hostname(options: Seq<OptionData>) -> Option<Seq<char>> {
    match ascii_of(options, HOST_NAME) {
        Ok(name) => Some(name),
        Err(_) => None,
    }
}

impl DhcpPacket {
    /// The type of the message, where the packet states one that is known.
    pub fn message_type(&self) -> (r: Option<MessageType>)
        ensures
            r == stated_message_type(self.options@),
    {
        match self.options.option(MESSAGE_TYPE) {
            Some(DhcpOption::Named(_, OptionValue::U8(code))) => MessageType::from_code(*code),
            _ => None,
        }
    }

    /// The hardware address of the client.
    pub fn client_hardware(&self) -> (r: MacAddress)
        ensures
            r == self.client_hardware,
    {
        self.client_hardware
    }

    /// The address that the client has.
    pub fn client(&self) -> (r: Ipv4Address)
        ensures
            r == self.client,
    {
        self.client
    }

    /// The address of the next server.
    pub fn server(&self) -> (r: Ipv4Address)
        ensures
            r == self.server,
    {
        self.server
    }

    /// The host name of the client, where the packet states one.
    pub fn hostname(&self) -> (r: Option<String>)
        ensures
            match r {
                Some(name) => stated_hostname(self.options@) == Some(name@),
                None => stated_hostname(self.options@) is None,
            },
    {
        match self.options.try_ascii_option(HOST_NAME) {
            Ok(name) => Some(name),
            Err(_) => None,
        }
    }
}

} // verus!
