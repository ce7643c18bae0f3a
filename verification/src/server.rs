//! The message engine: which phase a message starts, what a source's
//! answer leads to, and where a response is sent.

use crate::address::{broadcast_of, Ipv4Address, Ipv4Network, MacAddress};
use crate::error::DhcpError;
use crate::option::{
    ascii_of, bytes_of, u32_of, DhcpOptions, OptionData, BOOT_FILE_NAME, IP_ADDRESS_LEASE_TIME,
    MESSAGE, SERVER_IDENTIFIER, VENDOR_CLASS_IDENTIFIER,
};
use crate::packet::{stated_message_type, DhcpPacket, MessageType};
use crate::sources::DhcpSourceResult;
use vstd::prelude::*;

verus! {

/// The server of the DHCP messages.
pub struct Server {}

/// One of the five phases that a source is configured for.
#[derive(Clone, Copy, Debug, PartialEq, Eq, Structural)]
pub enum Phase {
    Offer,
    Reserve,
    Release,
    Decline,
    Inform,
}

/// The phase that a message starts; `None` for a message that only a
/// server sends, which is dropped.
pub open spec fn phase_of(message: MessageType) -> Option<Phase> {
    match message {
        MessageType::Discover => Some(Phase::Offer),
        MessageType::Request => Some(Phase::Reserve),
        MessageType::Inform => Some(Phase::Inform),
        MessageType::Release => Some(Phase::Release),
        MessageType::Decline => Some(Phase::Decline),
        MessageType::Offer => None,
        MessageType::Ack => None,
        MessageType::Nak => None,
    }
}

impl Phase {
    /// Whether the phase asks the sources for a result: the first source
    /// that has one decides the response. The other phases go to every
    /// source and have no response.
    pub open spec fn asks(&self) -> bool {
        *self == Phase::Offer || *self == Phase::Reserve || *self == Phase::Inform
    }

    /// Whether the phase asks the sources for a result.
    #[verifier::when_used_as_spec(asks)]
    pub fn is_query(&self) -> (r: bool)
        ensures
            r == self.asks(),
    {
        match self {
            Phase::Offer => true,
            Phase::Reserve => true,
            Phase::Inform => true,
            Phase::Release => false,
            Phase::Decline => false,
        }
    }

    /// Whether a source runs its scripts in this phase: in the offer phase only.
    pub fn runs_scripts(&self) -> (r: bool)
        ensures
            r == (*self == Phase::Offer),
    {
        match self {
            Phase::Offer => true,
            _ => false,
        }
    }
}

/// The kind of a response.
#[derive(Clone, Copy, Debug, PartialEq, Eq, Structural)]
pub enum ResponseKind {
    Offer,
    Ack,
    Nak,
}

/// A response as the packet builder takes it: its kind, the lease time,
/// the address given to the client, the server address of the header, the
/// texts and bytes taken from the options, and the options themselves.
#[derive(Debug)]
pub struct Response {
    pub kind: ResponseKind,
    pub lease_time: Option<u32>,
    pub client_ip: Ipv4Address,
    pub server_ip: Ipv4Address,
    pub boot_file_name: Option<String>,
    pub server_identifier: Option<String>,
    pub message: Option<String>,
    pub vendor_class_identifier: Option<Vec<u8>>,
    pub options: DhcpOptions,
}

/// The mathematical content of a [`Response`].
pub struct ResponseData {
    pub kind: ResponseKind,
    pub lease_time: Option<u32>,
    pub client_ip: Ipv4Address,
    pub server_ip: Ipv4Address,
    pub boot_file_name: Option<Seq<char>>,
    pub server_identifier: Option<Seq<char>>,
    pub message: Option<Seq<char>>,
    pub vendor_class_identifier: Option<Seq<u8>>,
    pub options: Seq<OptionData>,
}

/// The content of an optional text.
pub open spec fn text_content(text: Option<String>) -> Option<Seq<char>> {
    match text {
        Some(t) => Some(t@),
        None => None,
    }
}

/// The content of optional bytes.
pub open spec fn bytes_content(bytes: Option<Vec<u8>>) -> Option<Seq<u8>> {
    match bytes {
        Some(b) => Some(b@),
        None => None,
    }
}

impl View for Response {
    type V = ResponseData;

    open spec fn view(&self) -> ResponseData {
        ResponseData {
            kind: self.kind,
            lease_time: self.lease_time,
            client_ip: self.client_ip,
            server_ip: self.server_ip,
            boot_file_name: text_content(self.boot_file_name),
            server_identifier: text_content(self.server_identifier),
            message: text_content(self.message),
            vendor_class_identifier: bytes_content(self.vendor_class_identifier),
            options: self.options@,
        }
    }
}

/// What a source has answered in a phase that asks for a result.
#[derive(Debug)]
pub enum SourceAnswer {
    /// The source has a result for the client.
    Found(DhcpSourceResult),
    /// The source does not know the client.
    NotFound,
    /// The source failed; its error is logged where it occurred.
    Failed,
}

/// What follows from the answer of a source.
#[derive(Debug)]
pub enum Verdict {
    /// The response is sent, and no further source is asked.
    Respond(Response),
    /// The next source is asked.
    NextSource,
    /// Handling the packet fails.
    Fail(DhcpError),
}

/// The ASCII text of an option, where the options hold it in that shape.
pub open spec fn optional_ascii(options: Seq<OptionData>, tag: u8) -> Option<Seq<char>> {
    match ascii_of(options, tag) {
        Ok(text) => Some(text),
        Err(_) => None,
    }
}

/// The bytes of an option, where the options hold it in that shape.
pub open spec fn optional_bytes(options: Seq<OptionData>, tag: u8) -> Option<Seq<u8>> {
    match bytes_of(options, tag) {
        Ok(bytes) => Some(bytes),
        Err(_) => None,
    }
}

/// The kind of the response that answers a phase.
pub open spec fn response_kind(phase: Phase) -> ResponseKind {
    if phase == Phase::Offer {
        ResponseKind::Offer
    } else {
        ResponseKind::Ack
    }
}

/// The response that a phase composes from a client address and options:
/// an OFFER for the offer phase, an ACK for the others, with the given
/// lease time; the server identifier and the vendor class identifier are
/// there unless the phase is offer. The server address
/// of the header is unspecified until the response is sent.
pub open spec fn composed(
    phase: Phase,
    client_ip: Ipv4Address,
    lease_time: Option<u32>,
    options: Seq<OptionData>,
) -> ResponseData {
    ResponseData {
        kind: response_kind(phase),
        lease_time,
        client_ip,
        server_ip: Ipv4Address(0, 0, 0, 0),
        boot_file_name: optional_ascii(options, BOOT_FILE_NAME),
        server_identifier: if phase == Phase::Offer {
            None
        } else {
            optional_ascii(options, SERVER_IDENTIFIER)
        },
        message: optional_ascii(options, MESSAGE),
        vendor_class_identifier: if phase == Phase::Offer {
            None
        } else {
            optional_bytes(options, VENDOR_CLASS_IDENTIFIER)
        },
        options,
    }
}

/// The answer to a REQUEST that no source has a result for: a NAK that
/// gives no address and carries no option.
pub open spec fn refusal() -> ResponseData {
    ResponseData {
        kind: ResponseKind::Nak,
        lease_time: None,
        client_ip: Ipv4Address(0, 0, 0, 0),
        server_ip: Ipv4Address(0, 0, 0, 0),
        boot_file_name: None,
        server_identifier: None,
        message: None,
        vendor_class_identifier: None,
        options: Seq::empty(),
    }
}

/// What the result of a source leads to, in spec terms: the response, or
/// the failure of a result that names no client address.
pub enum Composition {
    Response(ResponseData),
    ClientIpMissing,
}

/// The lease time that a response of the phase names: none for the inform
/// phase, else the lease time of 32 bits that the options hold, if they
/// hold one.
pub open spec fn lease_of(phase: Phase, options: Seq<OptionData>) -> Option<u32> {
    if phase == Phase::Inform {
        None
    } else {
        match u32_of(options, IP_ADDRESS_LEASE_TIME) {
            Ok(lease) => Some(lease),
            Err(_) => None,
        }
    }
}

/// What the result of a source leads to. A result with a client address is
/// composed into the response of the phase; a result without one fails the
/// packet.
pub open spec fn composition(
    phase: Phase,
    client_ip: Option<Ipv4Address>,
    options: Seq<OptionData>,
) -> Composition {
    match client_ip {
        None => Composition::ClientIpMissing,
        Some(ip) => Composition::Response(composed(phase, ip, lease_of(phase, options), options)),
    }
}

/// One datagram of a response: where it goes, and the address of the
/// interface that it names as the server.
#[derive(Clone, Copy, Debug, PartialEq, Eq, Structural)]
pub struct Datagram {
    pub destination: Ipv4Address,
    pub server: Ipv4Address,
}

/// The datagrams of a response: one for each local network, to the
/// directed broadcast address of the network, naming the address of this
/// host in it as the server.
pub open spec fn datagrams(networks: Seq<Ipv4Network>) -> Seq<Datagram> {
    Seq::new(
        networks.len(),
        |i: int| Datagram { destination: broadcast_of(networks[i]), server: networks[i].address },
    )
}

/// Whether a network is one to answer on: every network where no
/// addresses are listed, else those whose address is listed.
pub open spec fn listens_on(listen: Option<Seq<Ipv4Address>>, network: Ipv4Network) -> bool {
    match listen {
        None => true,
        Some(addresses) => addresses.contains(network.address),
    }
}

/// The test that keeps the networks to answer on.
pub open spec fn listening(listen: Option<Seq<Ipv4Address>>) -> spec_fn(Ipv4Network) -> bool {
    |network: Ipv4Network| listens_on(listen, network)
}

/// The addresses of an optional list.
pub open spec fn listed_content(listen: Option<&Vec<Ipv4Address>>) -> Option<Seq<Ipv4Address>> {
    match listen {
        Some(addresses) => Some(addresses@),
        None => None,
    }
}

fn optional_text(options: &DhcpOptions, tag: u8) -> (r: Option<String>)
    ensures
        text_content(r) == optional_ascii(options@, tag),
{
    match options.try_ascii_option(tag) {
        Ok(text) => Some(text),
        Err(_) => None,
    }
}

fn optional_byte_vec(options: &DhcpOptions, tag: u8) -> (r: Option<Vec<u8>>)
    ensures
        bytes_content(r) == optional_bytes(options@, tag),
{
    match options.try_vec_u8_option(tag) {
        Ok(bytes) => Some(bytes),
        Err(_) => None,
    }
}

fn listed(addresses: &Vec<Ipv4Address>, address: Ipv4Address) -> (r: bool)
    ensures
        r == addresses@.contains(address),
{
    let mut i: usize = 0;
    while i < addresses.len()
        invariant
            i <= addresses.len(),
            forall|j: int| 0 <= j < i ==> addresses@[j] != address,
        decreases addresses.len() - i,
    {
        if addresses[i] == address {
            return true;
        }
        i += 1;
    }
    false
}

impl Server {
    /// The phase that a message starts; `None` for OFFER, ACK and NAK,
    /// which are dropped.
    pub fn phase(message: MessageType) -> (r: Option<Phase>)
        ensures
            r == phase_of(message),
    {
        match message {
            MessageType::Discover => Some(Phase::Offer),
            MessageType::Request => Some(Phase::Reserve),
            MessageType::Inform => Some(Phase::Inform),
            MessageType::Release => Some(Phase::Release),
            MessageType::Decline => Some(Phase::Decline),
            MessageType::Offer => None,
            MessageType::Ack => None,
            MessageType::Nak => None,
        }
    }

    /// Composes the response to a packet from the result of a source.
    fn compose(phase: Phase, client_hardware: MacAddress, result: DhcpSourceResult) -> (r:
        Result<Response, DhcpError>)
        requires
            phase.asks(),
        ensures
            match composition(phase, result.client_ip_address(), result.spec_options()@) {
                Composition::Response(response) => r matches Ok(x) && x@ == response,
                Composition::ClientIpMissing => r matches Err(e) && e
                    == DhcpError::ClientIpAddressMissing(client_hardware),
            },
    {
        let client_ip = match result.client_ip_address() {
            Some(ip) => ip,
            None => {
                return Err(DhcpError::ClientIpAddressMissing(client_hardware));
            },
        };
        let options = result.into_options();
        let lease_time = match phase {
            Phase::Inform => None,
            _ => match options.try_u32_option(IP_ADDRESS_LEASE_TIME) {
                Ok(lease) => Some(lease),
                Err(_) => None,
            },
        };
        let offer = match phase {
            Phase::Offer => true,
            _ => false,
        };
        let boot_file_name = optional_text(&options, BOOT_FILE_NAME);
        let server_identifier = if offer {
            None
        } else {
            optional_text(&options, SERVER_IDENTIFIER)
        };
        let message = optional_text(&options, MESSAGE);
        let vendor_class_identifier = if offer {
            None
        } else {
            optional_byte_vec(&options, VENDOR_CLASS_IDENTIFIER)
        };
        Ok(
            Response {
                kind: if offer {
                    ResponseKind::Offer
                } else {
                    ResponseKind::Ack
                },
                lease_time,
                client_ip,
                server_ip: Ipv4Address::unspecified(),
                boot_file_name,
                server_identifier,
                message,
                vendor_class_identifier,
                options,
            },
        )
    }

    /// What follows from the answer of one source. In a phase that asks
    /// for a result the first result decides: it is composed into the
    /// response, or it fails the packet. A source that does not know the
    /// client, or that failed, hands on to the next, and so does every
    /// source in a phase that goes to all of them.
    pub fn process(phase: Phase, packet: &DhcpPacket, answer: SourceAnswer) -> (r: Verdict)
        ensures
            r@ == verdict_of(phase, packet.client_hardware, answer@),
    {
        Self::verdict(phase, packet.client_hardware(), answer)
    }

    fn verdict(phase: Phase, client_hardware: MacAddress, answer: SourceAnswer) -> (r: Verdict)
        ensures
            r@ == verdict_of(phase, client_hardware, answer@),
    {
        if !phase.is_query() {
            return Verdict::NextSource;
        }
        match answer {
            SourceAnswer::Found(result) => match Self::compose(phase, client_hardware, result) {
                Ok(response) => Verdict::Respond(response),
                Err(e) => Verdict::Fail(e),
            },
            SourceAnswer::NotFound => Verdict::NextSource,
            SourceAnswer::Failed => Verdict::NextSource,
        }
    }

    /// The response to a packet that no source had a result for: a NAK for
    /// a REQUEST, none for any other message.
    pub fn unanswered(phase: Phase) -> (r: Option<Response>)
        ensures
            match r {
                Some(response) => phase == Phase::Reserve && response@ == refusal(),
                None => phase != Phase::Reserve,
            },
    {
        match phase {
            Phase::Reserve => Some(
                Response {
                    kind: ResponseKind::Nak,
                    lease_time: None,
                    client_ip: Ipv4Address::unspecified(),
                    server_ip: Ipv4Address::unspecified(),
                    boot_file_name: None,
                    server_identifier: None,
                    message: None,
                    vendor_class_identifier: None,
                    options: DhcpOptions::new(),
                },
            ),
            _ => None,
        }
    }

    /// Where a response goes: one datagram for each local network, to the
    /// directed broadcast address of that network, with the address of this
    /// host in it as the server.
    pub fn send(local_networks: &Vec<Ipv4Network>) -> (r: Vec<Datagram>)
        ensures
            r@ == datagrams(local_networks@),
    {
        let mut out: Vec<Datagram> = Vec::new();
        let mut i: usize = 0;
        while i < local_networks.len()
            invariant
                i <= local_networks.len(),
                out.len() == i,
                forall|j: int| 0 <= j < i ==> out@[j] == datagrams(local_networks@)[j],
            decreases local_networks.len() - i,
        {
            let network = &local_networks[i];
            out.push(Datagram { destination: network.broadcast(), server: network.ip() });
            i += 1;
        }
        assert(out@ =~= datagrams(local_networks@));
        out
    }

    /// The networks to answer on, out of those of the interfaces: all of
    /// them where no addresses are listed, else those whose address is
    /// listed; in the order of the interfaces.
    pub fn listen(interfaces: &Vec<Ipv4Network>, listen: Option<&Vec<Ipv4Address>>) -> (r: Vec<
        Ipv4Network,
    >)
        ensures
            r@ == interfaces@.filter(listening(listed_content(listen))),
    {
        let ghost pred = listening(listed_content(listen));
        let mut out: Vec<Ipv4Network> = Vec::new();
        let mut i: usize = 0;
        proof {
            reveal(Seq::filter);
            assert(interfaces@.take(0).filter(pred) =~= Seq::<Ipv4Network>::empty());
        }
        while i < interfaces.len()
            invariant
                i <= interfaces.len(),
                pred == listening(listed_content(listen)),
                out@ == interfaces@.take(i as int).filter(pred),
            decreases interfaces.len() - i,
        {
            let network = interfaces[i];
            let keep = match listen {
                None => true,
                Some(addresses) => listed(addresses, network.ip()),
            };
            proof {
                let taken = interfaces@.take(i as int);
                taken.lemma_filter_push(network, pred);
                assert(interfaces@.take(i + 1) =~= taken.push(network));
            }
            if keep {
                out.push(network);
            }
            i += 1;
        }
        assert(interfaces@.take(interfaces.len() as int) =~= interfaces@);
        out
    }
}

/// The mathematical content of a [`SourceAnswer`].
pub enum AnswerData {
    Found(Option<Ipv4Address>, Seq<OptionData>),
    NotFound,
    Failed,
}

impl View for SourceAnswer {
    type V = AnswerData;

    open spec fn view(&self) -> AnswerData {
        match self {
            SourceAnswer::Found(result) => AnswerData::Found(
                result.client_ip_address(),
                result.spec_options()@,
            ),
            SourceAnswer::NotFound => AnswerData::NotFound,
            SourceAnswer::Failed => AnswerData::Failed,
        }
    }
}

/// The mathematical content of a [`Verdict`].
pub enum VerdictData {
    Respond(ResponseData),
    NextSource,
    Fail(DhcpError),
}

impl View for Verdict {
    type V = VerdictData;

    open spec fn view(&self) -> VerdictData {
        match self {
            Verdict::Respond(response) => VerdictData::Respond(response@),
            Verdict::NextSource => VerdictData::NextSource,
            Verdict::Fail(e) => VerdictData::Fail(*e),
        }
    }
}

/// What follows from the answer of one source.
pub open spec fn verdict_of(
    phase: Phase,
    client_hardware: MacAddress,
    answer: AnswerData,
) -> VerdictData {
    match answer {
        AnswerData::Found(client_ip, options) => if !phase.asks() {
            VerdictData::NextSource
        } else {
            match composition(phase, client_ip, options) {
                Composition::Response(response) => VerdictData::Respond(response),
                Composition::ClientIpMissing => VerdictData::Fail(
                    DhcpError::ClientIpAddressMissing(client_hardware),
                ),
            }
        },
        AnswerData::NotFound => VerdictData::NextSource,
        AnswerData::Failed => VerdictData::NextSource,
    }
}


/// How the handling of a packet ends.
pub enum Handling {
    /// The response is sent, one datagram for each local network.
    Sent(ResponseData),
    /// Nothing is sent.
    Dropped,
    /// Handling the packet failed with the error.
    Failed(DhcpError),
}

/// How a phase that asks for a result ends, the sources from `from` on
/// giving the answers in their order: the first result decides, and where
/// there is none a REQUEST is refused and any other message dropped.
pub open spec fn handled(
    phase: Phase,
    client_hardware: MacAddress,
    answers: Seq<AnswerData>,
    from: int,
) -> Handling
    decreases answers.len() - from,
{
    if from < 0 || from >= answers.len() {
        if phase == Phase::Reserve {
            Handling::Sent(refusal())
        } else {
            Handling::Dropped
        }
    } else {
        match verdict_of(phase, client_hardware, answers[from]) {
            VerdictData::Respond(response) => Handling::Sent(response),
            VerdictData::Fail(e) => Handling::Failed(e),
            VerdictData::NextSource => handled(phase, client_hardware, answers, from + 1),
        }
    }
}

/// A DISCOVER for which a source has a result with a client address is
/// answered by an OFFER of that address: the first such result decides, and
/// the OFFER goes out once for each local network, to the broadcast address
/// of the network.
pub proof fn lemma_discover_is_offered(
    client_hardware: MacAddress,
    answers: Seq<AnswerData>,
    hit: int,
    networks: Seq<Ipv4Network>,
)
    requires
        0 <= hit < answers.len(),
        forall|j: int| 0 <= j < hit ==> !((#[trigger] answers[j]) is Found),
        answers[hit] matches AnswerData::Found(Some(_), _),
    ensures
        handled(Phase::Offer, client_hardware, answers, 0) matches Handling::Sent(response)
            && response.kind == ResponseKind::Offer && Some(response.client_ip)
            == answers[hit]->Found_0 && response.options == answers[hit]->Found_1,
        datagrams(networks).len() == networks.len(),
        forall|i: int|
            0 <= i < networks.len() ==> (#[trigger] datagrams(networks)[i]).destination
                == broadcast_of(networks[i]) && datagrams(networks)[i].server
                == networks[i].address,
{
    lemma_first_result_decides(Phase::Offer, client_hardware, answers, 0, hit);
}

/// A REQUEST for which no source has a result is answered by a NAK that
/// gives no address and names no lease time, and the NAK goes out once for
/// each local network, to the broadcast address of the network.
pub proof fn lemma_request_is_refused(
    client_hardware: MacAddress,
    answers: Seq<AnswerData>,
    networks: Seq<Ipv4Network>,
)
    requires
        forall|j: int| 0 <= j < answers.len() ==> !((#[trigger] answers[j]) is Found),
    ensures
        handled(Phase::Reserve, client_hardware, answers, 0) == Handling::Sent(refusal()),
        refusal().kind == ResponseKind::Nak,
        refusal().client_ip == Ipv4Address(0, 0, 0, 0),
        refusal().lease_time is None,
        u32_of(refusal().options, IP_ADDRESS_LEASE_TIME) is Err,
        datagrams(networks).len() == networks.len(),
        forall|i: int|
            0 <= i < networks.len() ==> (#[trigger] datagrams(networks)[i]).destination
                == broadcast_of(networks[i]),
{
    lemma_no_result(Phase::Reserve, client_hardware, answers, 0);
}

/// A DISCOVER or an INFORM for which no source has a result is dropped.
pub proof fn lemma_unanswered_is_dropped(
    phase: Phase,
    client_hardware: MacAddress,
    answers: Seq<AnswerData>,
)
    requires
        phase != Phase::Reserve,
        forall|j: int| 0 <= j < answers.len() ==> !((#[trigger] answers[j]) is Found),
    ensures
        handled(phase, client_hardware, answers, 0) == Handling::Dropped,
{
    lemma_no_result(phase, client_hardware, answers, 0);
}

proof fn lemma_first_result_decides(
    phase: Phase,
    client_hardware: MacAddress,
    answers: Seq<AnswerData>,
    from: int,
    hit: int,
)
    requires
        0 <= from <= hit < answers.len(),
        forall|j: int| from <= j < hit ==> !((#[trigger] answers[j]) is Found),
    ensures
        handled(phase, client_hardware, answers, from) == match verdict_of(
            phase,
            client_hardware,
            answers[hit],
        ) {
            VerdictData::Respond(response) => Handling::Sent(response),
            VerdictData::Fail(e) => Handling::Failed(e),
            VerdictData::NextSource => handled(phase, client_hardware, answers, hit + 1),
        },
    decreases hit - from,
{
    if from < hit {
        assert(!(answers[from] is Found));
        lemma_first_result_decides(phase, client_hardware, answers, from + 1, hit);
    }
}

proof fn lemma_no_result(
    phase: Phase,
    client_hardware: MacAddress,
    answers: Seq<AnswerData>,
    from: int,
)
    requires
        0 <= from,
        forall|j: int| from <= j < answers.len() ==> !((#[trigger] answers[j]) is Found),
    ensures
        handled(phase, client_hardware, answers, from) == if phase == Phase::Reserve {
            Handling::Sent(refusal())
        } else {
            Handling::Dropped
        },
    decreases answers.len() - from,
{
    if from < answers.len() {
        assert(!(answers[from] is Found));
        lemma_no_result(phase, client_hardware, answers, from + 1);
    }
}


/// What is to be done next for a packet.
#[derive(Debug)]
pub enum Step {
    /// The source at this place is asked, and its answer taken.
    Ask(usize),
    /// The response is sent; it comes from the source at the given place,
    /// or from no source.
    Send(Response, Option<usize>),
    /// Nothing more is done for the packet.
    Done,
    /// Handling the packet fails.
    Fail(DhcpError),
}

/// The mathematical content of a [`Step`].
pub enum StepData {
    Ask(int),
    Send(ResponseData, Option<int>),
    Done,
    Fail(DhcpError),
}

impl View for Step {
    type V = StepData;

    open spec fn view(&self) -> StepData {
        match self {
            Step::Ask(index) => StepData::Ask(*index as int),
            Step::Send(response, from) => StepData::Send(
                response@,
                match from {
                    Some(index) => Some(*index as int),
                    None => None,
                },
            ),
            Step::Done => StepData::Done,
            Step::Fail(e) => StepData::Fail(*e),
        }
    }
}

/// The handling of one packet: the phase that its message has started, the
/// number of sources, and the place of the source that is being asked.
#[derive(Debug)]
pub struct Exchange {
    phase: Option<Phase>,
    client_hardware: MacAddress,
    sources: usize,
    asked: usize,
}

/// The step at which no source is left to ask: a REQUEST is refused, and
/// nothing is done for any other message.
pub open spec fn last_step(phase: Phase) -> StepData {
    if phase == Phase::Reserve {
        StepData::Send(refusal(), None)
    } else {
        StepData::Done
    }
}

/// The step when the source at the place `next` is due: it is asked, or
/// there is none left.
pub open spec fn step_at(phase: Phase, sources: int, next: int) -> StepData {
    if next < sources {
        StepData::Ask(next)
    } else {
        last_step(phase)
    }
}

/// The step that follows the answer of the source at the place `asked`.
pub open spec fn step_after(
    phase: Phase,
    client_hardware: MacAddress,
    sources: int,
    asked: int,
    answer: AnswerData,
) -> StepData {
    match verdict_of(phase, client_hardware, answer) {
        VerdictData::Respond(response) => StepData::Send(response, Some(asked)),
        VerdictData::Fail(e) => StepData::Fail(e),
        VerdictData::NextSource => step_at(phase, sources, asked + 1),
    }
}

impl Exchange {
    /// The phase of the exchange, `None` for a packet that is dropped.
    pub closed spec fn phase(&self) -> Option<Phase> {
        self.phase
    }

    /// The hardware address of the client.
    pub closed spec fn client_hardware(&self) -> MacAddress {
        self.client_hardware
    }

    /// The number of sources.
    pub closed spec fn sources(&self) -> int {
        self.sources as int
    }

    /// The place of the source that is being asked; the number of sources
    /// where none is.
    pub closed spec fn asked(&self) -> int {
        self.asked as int
    }

    /// Whether the answer of a source is awaited.
    pub open spec fn waiting(&self) -> bool {
        self.phase() is Some && 0 <= self.asked() < self.sources()
    }

    /// Begins the handling of a packet for the given number of sources. A
    /// packet without a message type, or with one that only a server sends,
    /// is dropped; else the first source is asked, or, where there is none,
    /// the packet is treated as one that no source has a result for.
    pub fn begin(packet: &DhcpPacket, sources: usize) -> (r: (Exchange, Step))
        ensures
            r.0.client_hardware() == packet.client_hardware,
            r.0.sources() == sources,
            r.0.phase() == match stated_message_type(packet.options@) {
                Some(message) => phase_of(message),
                None => None,
            },
            r.1@ == match r.0.phase() {
                Some(phase) => step_at(phase, sources as int, 0),
                None => StepData::Done,
            },
            r.0.asked() == if r.1 is Ask {
                0
            } else {
                sources as int
            },
    {
        let phase = match packet.message_type() {
            Some(message) => Server::phase(message),
            None => None,
        };
        let client_hardware = packet.client_hardware();
        match phase {
            Some(_) if sources > 0 => (
                Exchange { phase, client_hardware, sources, asked: 0 },
                Step::Ask(0),
            ),
            Some(p) => {
                let step = match Server::unanswered(p) {
                    Some(response) => Step::Send(response, None),
                    None => Step::Done,
                };
                (Exchange { phase, client_hardware, sources, asked: sources }, step)
            },
            None => (Exchange { phase, client_hardware, sources, asked: sources }, Step::Done),
        }
    }

    /// Takes the answer of the source that is being asked and gives the
    /// next step: the response of the first source that has a result, the
    /// next source where there is one, and the end where there is none. An
    /// answer that nobody waits for changes nothing.
    pub fn answered(&mut self, answer: SourceAnswer) -> (r: Step)
        ensures
            final(self).phase() == old(self).phase(),
            final(self).client_hardware() == old(self).client_hardware(),
            final(self).sources() == old(self).sources(),
            !old(self).waiting() ==> r is Done && final(self).asked() == old(self).asked(),
            old(self).waiting() ==> r@ == step_after(
                old(self).phase()->0,
                old(self).client_hardware(),
                old(self).sources(),
                old(self).asked(),
                answer@,
            ),
            old(self).waiting() ==> final(self).asked() == if r is Ask {
                old(self).asked() + 1
            } else {
                old(self).sources()
            },
    {
        let asked = self.asked;
        let stated = self.phase;
        if asked >= self.sources || stated.is_none() {
            return Step::Done;
        }
        let phase = stated.unwrap();
        match Server::verdict(phase, self.client_hardware, answer) {
            Verdict::Respond(response) => {
                self.asked = self.sources;
                Step::Send(response, Some(asked))
            },
            Verdict::Fail(e) => {
                self.asked = self.sources;
                Step::Fail(e)
            },
            Verdict::NextSource => {
                if asked + 1 < self.sources {
                    self.asked = asked + 1;
                    Step::Ask(asked + 1)
                } else {
                    self.asked = self.sources;
                    match Server::unanswered(phase) {
                        Some(response) => Step::Send(response, None),
                        None => Step::Done,
                    }
                }
            },
        }
    }
}

/// The last step of an exchange whose sources give the answers in their
/// order, the source at the place `from` being asked.
pub open spec fn exchange_from(
    phase: Phase,
    client_hardware: MacAddress,
    answers: Seq<AnswerData>,
    from: int,
) -> StepData
    decreases answers.len() - from,
{
    if from < 0 || from >= answers.len() {
        last_step(phase)
    } else {
        match step_after(phase, client_hardware, answers.len() as int, from, answers[from]) {
            StepData::Ask(next) => exchange_from(phase, client_hardware, answers, from + 1),
            step => step,
        }
    }
}

/// An exchange ends as the handling of its packet does: with the response
/// of the first source that has a result, with the refusal of a REQUEST
/// that no source has a result for, or with nothing.
pub proof fn lemma_exchange_handles(
    phase: Phase,
    client_hardware: MacAddress,
    answers: Seq<AnswerData>,
    from: int,
)
    requires
        0 <= from,
    ensures
        match exchange_from(phase, client_hardware, answers, from) {
            StepData::Send(response, _) => handled(phase, client_hardware, answers, from)
                == Handling::Sent(response),
            StepData::Done => handled(phase, client_hardware, answers, from) == Handling::Dropped,
            StepData::Fail(e) => handled(phase, client_hardware, answers, from) == Handling::Failed(
                e,
            ),
            StepData::Ask(_) => false,
        },
    decreases answers.len() - from,
{
    if from < answers.len() {
        lemma_exchange_handles(phase, client_hardware, answers, from + 1);
    }
}

} // verus!
