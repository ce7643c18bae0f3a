//! The default headers of the HTTP client of a query.

use crate::error::{DhcpError, DhcpResult};
use crate::sources::rest::{
    DhcpRestConfigSchemaQuery, DhcpRestSource, DhcpRestSourceConfig, DhcpRestSourceConfigSchema,
};
use vstd::prelude::*;

verus! {

/// The map of headers of the `http` crate, as reqwest hands it on.
#[verifier::external_type_specification]
#[verifier::external_body]
#[verifier::reject_recursive_types(T)]
pub struct ExHeaderMap<T>(reqwest::header::HeaderMap<T>);

/// The name of a header, in its normal form.
#[verifier::external_type_specification]
#[verifier::external_body]
pub struct ExHeaderName(reqwest::header::HeaderName);

/// The value of a header.
#[verifier::external_type_specification]
#[verifier::external_body]
pub struct ExHeaderValue(reqwest::header::HeaderValue);

/// What a map of headers holds: under each name the first of its values.
pub uninterp spec fn header_entries(map: reqwest::header::HeaderMap) -> Map<
    Seq<char>,
    Seq<char>,
>;

/// How many values a map of headers holds.
pub uninterp spec fn header_count(map: reqwest::header::HeaderMap) -> nat;

/// The text of the name of a header: its normal, lower-case form.
pub uninterp spec fn header_name_text(name: reqwest::header::HeaderName) -> Seq<char>;

/// The bytes of the value of a header, read as text.
pub uninterp spec fn header_value_text(value: reqwest::header::HeaderValue) -> Seq<char>;

/// The header name that `http::HeaderName::from_str` reads from a text, in
/// its normal, lower-case form, where the text is a valid name.
pub uninterp spec fn header_name_of(text: Seq<char>) -> Option<Seq<char>>;

/// Whether a text can be the value of a header: it holds no control
/// character but the tab.
pub open spec fn valid_header_value(text: Seq<char>) -> bool {
    forall|i: int|
        0 <= i < text.len() ==> ((#[trigger] text[i]) as u32 >= 32 && text[i] as u32 != 127)
            || text[i] == '\t'
}

/// A number of values that a map of headers always has room for.
pub const HEADER_ROOM: usize = 1024;

/// A map without headers.
pub open spec fn no_headers() -> Map<Seq<char>, Seq<char>> {
    Map::empty()
}

/// `HeaderMap::new` of reqwest's `header` module: a map that holds nothing.
#[verifier::external_body]
fn header_map() -> (r: reqwest::header::HeaderMap)
    ensures
        header_entries(r) == no_headers(),
        header_count(r) == 0,
{
    reqwest::header::HeaderMap::new()
}

/// `HeaderName::from_str` of reqwest's `header` module: the name in its
/// normal form, or the error of a text that is no name.
#[verifier::external_body]
fn header_name(text: &str) -> (r: Result<
    reqwest::header::HeaderName,
    reqwest::header::InvalidHeaderName,
>)
    ensures
        r is Ok <==> header_name_of(text@) is Some,
        r matches Ok(name) ==> header_name_of(text@) == Some(header_name_text(name)),
{
    text.parse::<reqwest::header::HeaderName>()
}

/// `ACCEPT` of reqwest's `header` module: the name `accept`.
#[verifier::external_body]
fn accept_header() -> (r: reqwest::header::HeaderName)
    ensures
        header_name_text(r) == "accept"@,
{
    reqwest::header::ACCEPT
}

/// `HeaderValue::from_str` of reqwest's `header` module: a text is a value
/// unless one of its bytes is below 32 and no tab, or is 127.
#[verifier::external_body]
fn header_value(text: &str) -> (r: Result<
    reqwest::header::HeaderValue,
    reqwest::header::InvalidHeaderValue,
>)
    ensures
        r is Ok <==> valid_header_value(text@),
        r matches Ok(value) ==> header_value_text(value) == text@,
{
    reqwest::header::HeaderValue::from_str(text)
}

/// `HeaderMap::try_insert` of reqwest's `header` module, which tells
/// whether the map took the value: then the value stands under the name, in
/// place of what stood there. The map refuses a value only where it cannot
/// grow: it doubles its slots up to 32768 of them, which a map of at most
/// 1024 values never exceeds.
#[verifier::external_body]
fn header_insert(
    map: &mut reqwest::header::HeaderMap,
    name: reqwest::header::HeaderName,
    value: reqwest::header::HeaderValue,
) -> (r: bool)
    ensures
        header_count(*old(map)) <= HEADER_ROOM ==> r,
        r ==> header_entries(*final(map)) == header_entries(*old(map)).insert(
            header_name_text(name),
            header_value_text(value),
        ),
        r ==> header_count(*final(map)) <= header_count(*old(map)) + 1,
{
    map.try_insert(name, value).is_ok()
}

/// The names and values of a list of headers.
pub open spec fn header_contents(list: Seq<(String, String)>) -> Seq<(Seq<char>, Seq<char>)> {
    Seq::new(list.len(), |i: int| (list[i].0@, list[i].1@))
}

/// What is wrong with the configured headers.
pub enum HeaderFault {
    /// The name of one is no header name.
    Name,
    /// The value of one is no header value.
    Value,
}

/// Whether an error tells of the fault.
pub open spec fn tells(e: DhcpError, fault: HeaderFault) -> bool {
    match fault {
        HeaderFault::Name => e is InvalidHeaderName,
        HeaderFault::Value => e is InvalidHeaderValue,
    }
}

/// The headers that the first `upto` configured headers amount to, each
/// under its normal name, a later one in place of an earlier one of the
/// same name; or the fault of the first header that is not valid, its name
/// looked at before its value.
pub open spec fn headers_upto(configured: Seq<(Seq<char>, Seq<char>)>, upto: int) -> Result<
    Map<Seq<char>, Seq<char>>,
    HeaderFault,
>
    decreases upto,
{
    if upto <= 0 {
        Ok(no_headers())
    } else {
        match headers_upto(configured, upto - 1) {
            Err(fault) => Err(fault),
            Ok(headers) => match header_name_of(configured[upto - 1].0) {
                None => Err(HeaderFault::Name),
                Some(name) => if valid_header_value(configured[upto - 1].1) {
                    Ok(headers.insert(name, configured[upto - 1].1))
                } else {
                    Err(HeaderFault::Value)
                },
            },
        }
    }
}

/// The default headers of a client: the configured headers, and always
/// `accept: application/json`, whatever was configured under that name.
pub open spec fn default_headers(configured: Seq<(Seq<char>, Seq<char>)>) -> Result<
    Map<Seq<char>, Seq<char>>,
    HeaderFault,
> {
    match headers_upto(configured, configured.len() as int) {
        Ok(headers) => Ok(headers.insert("accept"@, "application/json"@)),
        Err(fault) => Err(fault),
    }
}

/// Whether an error tells that a map of headers has refused a value, which
/// it does only of more values than it always has room for.
pub open spec fn refused(e: DhcpError, crowded: bool) -> bool {
    crowded && e is TooManyHeaders
}

/// Whether a query is configured with more headers than a map always has
/// room for.
pub open spec fn crowded_query(query: DhcpRestConfigSchemaQuery) -> bool {
    configured_headers(query).len() >= HEADER_ROOM
}

/// Whether a query of the phase is crowded.
pub open spec fn crowded_phase(phase: DhcpRestSourceConfigSchema) -> bool {
    exists|j: int| 0 <= j < phase.queries.len() && crowded_query(#[trigger] phase.queries[j])
}

/// Whether a query of a phase of the configuration is crowded.
pub open spec fn crowded_config(config: DhcpRestSourceConfig) -> bool {
    ||| crowded_phase(config.decline)
    ||| crowded_phase(config.release)
    ||| crowded_phase(config.inform)
    ||| crowded_phase(config.reserve)
    ||| crowded_phase(config.offer)
}

/// What the HTTP client of a query is built with.
#[derive(Debug)]
pub struct ClientSettings {
    /// Whether certificates that do not verify are accepted.
    pub accept_invalid_certs: bool,
    /// The headers of every request.
    pub default_headers: reqwest::header::HeaderMap,
}

impl DhcpRestConfigSchemaQuery {
    /// The default headers of the client of a query. The first name or
    /// value that is not valid is an error. So is a value that the map
    /// refuses, which cannot happen to fewer headers than a map always has
    /// room for.
    pub fn map_to_headers(map: &Vec<(String, String)>) -> (r: DhcpResult<
        reqwest::header::HeaderMap,
    >)
        ensures
            (r matches Err(e) && refused(e, map.len() >= HEADER_ROOM)) || match default_headers(
                header_contents(map@),
            ) {
                Ok(headers) => r matches Ok(h) && header_entries(h) == headers,
                Err(fault) => r matches Err(e) && tells(e, fault),
            },
    {
        let ghost configured = header_contents(map@);
        let mut h = header_map();
        let mut i: usize = 0;
        while i < map.len()
            invariant
                i <= map.len(),
                configured == header_contents(map@),
                header_count(h) <= i,
                headers_upto(configured, i as int) == Ok::<Map<Seq<char>, Seq<char>>, HeaderFault>(
                    header_entries(h),
                ),
            decreases map.len() - i,
        {
            let name = match header_name(map[i].0.as_str()) {
                Ok(name) => name,
                Err(e) => {
                    proof {
                        assert(headers_upto(configured, i + 1) == Err::<
                            Map<Seq<char>, Seq<char>>,
                            HeaderFault,
                        >(HeaderFault::Name));
                        lemma_headers_stay_invalid(configured, i + 1, map.len() as int);
                        assert(configured.len() == map.len());
                    }
                    return Err(DhcpError::InvalidHeaderName(e));
                },
            };
            let value = match header_value(map[i].1.as_str()) {
                Ok(value) => value,
                Err(e) => {
                    proof {
                        assert(headers_upto(configured, i + 1) == Err::<
                            Map<Seq<char>, Seq<char>>,
                            HeaderFault,
                        >(HeaderFault::Value));
                        lemma_headers_stay_invalid(configured, i + 1, map.len() as int);
                        assert(configured.len() == map.len());
                    }
                    return Err(DhcpError::InvalidHeaderValue(e));
                },
            };
            if !header_insert(&mut h, name, value) {
                return Err(DhcpError::TooManyHeaders);
            }
            i += 1;
        }
        proof {
            reveal_strlit("application/json");
            assert(configured.len() == map.len());
        }
        let name = accept_header();
        let value = match header_value("application/json") {
            Ok(value) => value,
            Err(e) => {
                return Err(DhcpError::InvalidHeaderValue(e));
            },
        };
        if !header_insert(&mut h, name, value) {
            return Err(DhcpError::TooManyHeaders);
        }
        Ok(h)
    }

    /// What the HTTP client of the query is built with: it accepts
    /// certificates that do not verify only where verification is switched
    /// off, and sends the default headers.
    pub fn init(&self) -> (r: DhcpResult<ClientSettings>)
        ensures
            (r matches Err(e) && refused(e, crowded_query(*self))) || match default_headers(
                configured_headers(*self),
            ) {
                Ok(headers) => r matches Ok(settings) && header_entries(settings.default_headers)
                    == headers && settings.accept_invalid_certs == !self.ssl_verify,
                Err(fault) => r matches Err(e) && tells(e, fault),
            },
    {
        let default_headers = match &self.headers {
            Some(headers) => Self::map_to_headers(headers)?,
            None => {
                let none: Vec<(String, String)> = Vec::new();
                assert(header_contents(none@) =~= Seq::empty());
                Self::map_to_headers(&none)?
            },
        };
        Ok(ClientSettings { accept_invalid_certs: self.accepts_invalid_certs(), default_headers })
    }
}

/// The headers that a query is configured with; none where it names none.
pub open spec fn configured_headers(query: DhcpRestConfigSchemaQuery) -> Seq<
    (Seq<char>, Seq<char>),
> {
    match query.headers {
        Some(headers) => header_contents(headers@),
        None => Seq::empty(),
    }
}

/// Once a header is not valid, the headers are not, and the fault stays
/// that of the first such header.
pub proof fn lemma_headers_stay_invalid(
    configured: Seq<(Seq<char>, Seq<char>)>,
    from: int,
    upto: int,
)
    requires
        from <= upto,
        headers_upto(configured, from) is Err,
    ensures
        headers_upto(configured, upto) == headers_upto(configured, from),
    decreases upto - from,
{
    if from < upto {
        lemma_headers_stay_invalid(configured, from, upto - 1);
    }
}

/// The fault of a query: that of its headers, if they have one.
pub open spec fn query_fault(query: DhcpRestConfigSchemaQuery) -> Option<HeaderFault> {
    match default_headers(configured_headers(query)) {
        Ok(_) => None,
        Err(fault) => Some(fault),
    }
}

/// The fault of the first query at or after `from` that has one.
pub open spec fn queries_fault(queries: Seq<DhcpRestConfigSchemaQuery>, from: int) -> Option<
    HeaderFault,
>
    decreases queries.len() - from,
{
    if from < 0 || from >= queries.len() {
        None
    } else {
        match query_fault(queries[from]) {
            Some(fault) => Some(fault),
            None => queries_fault(queries, from + 1),
        }
    }
}

/// The fault of a phase: that of its first query that has one.
pub open spec fn phase_fault(phase: DhcpRestSourceConfigSchema) -> Option<HeaderFault> {
    queries_fault(phase.queries@, 0)
}

/// The first of two faults.
pub open spec fn or_else(first: Option<HeaderFault>, second: Option<HeaderFault>) -> Option<
    HeaderFault,
> {
    match first {
        Some(fault) => Some(fault),
        None => second,
    }
}

/// The fault of a configuration: that of the first phase that has one, the
/// phases taken in the order decline, release, inform, reserve, offer.
pub open spec fn config_fault(config: DhcpRestSourceConfig) -> Option<HeaderFault> {
    or_else(
        phase_fault(config.decline),
        or_else(
            phase_fault(config.release),
            or_else(
                phase_fault(config.inform),
                or_else(phase_fault(config.reserve), phase_fault(config.offer)),
            ),
        ),
    )
}

/// Whether the client of every query of every phase can be built.
pub open spec fn config_valid(config: DhcpRestSourceConfig) -> bool {
    config_fault(config) is None
}

fn check_phase(phase: &DhcpRestSourceConfigSchema) -> (r: DhcpResult<()>)
    ensures
        (r matches Err(e) && refused(e, crowded_phase(*phase))) || match phase_fault(*phase) {
            None => r is Ok,
            Some(fault) => r matches Err(e) && tells(e, fault),
        },
{
    let mut i: usize = 0;
    while i < phase.queries.len()
        invariant
            i <= phase.queries.len(),
            phase_fault(*phase) == queries_fault(phase.queries@, i as int),
        decreases phase.queries.len() - i,
    {
        match phase.queries[i].init() {
            Ok(_) => {},
            Err(e) => {
                return Err(e);
            },
        }
        i += 1;
    }
    Ok(())
}

/// Checks that the client of every query of every phase can be built, the
/// phases taken in the order decline, release, inform, reserve, offer. The
/// error is that of the first query whose client cannot, or that of a
/// crowded query whose map of headers has refused a value.
pub fn check_config(config: &DhcpRestSourceConfig) -> (r: DhcpResult<()>)
    ensures
        (r matches Err(e) && refused(e, crowded_config(*config))) || match config_fault(*config) {
            None => r is Ok,
            Some(fault) => r matches Err(e) && tells(e, fault),
        },
{
    check_phase(&config.decline)?;
    check_phase(&config.release)?;
    check_phase(&config.inform)?;
    check_phase(&config.reserve)?;
    check_phase(&config.offer)?;
    Ok(())
}

impl DhcpRestSource {
    /// A source with the given configuration, where the client of each of
    /// its queries can be built; else the error of the first query whose
    /// client cannot, the phases taken in the order decline, release,
    /// inform, reserve, offer; or that of a crowded query whose map of
    /// headers has refused a value.
    pub fn from_config(config: DhcpRestSourceConfig) -> (r: DhcpResult<Self>)
        ensures
            (r matches Err(e) && refused(e, crowded_config(config))) || match config_fault(config) {
                None => r matches Ok(source) && source.config == config,
                Some(fault) => r matches Err(e) && tells(e, fault),
            },
    {
        check_config(&config)?;
        Ok(Self { config })
    }
}

} // verus!
