//! The queries and scripts of a phase: the context they are templated
//! against, the requests they lead to, and what their outcome is worth.

use crate::address::{colon_hex, dotted_quad};
use crate::assoc::{keyed, put, upsert};
use crate::error::{DhcpError, DhcpResult};
use crate::packet::{stated_hostname, DhcpPacket};
use crate::sources::cache::{looked_up, stored};
use crate::sources::rest::{
    DhcpRestConfigSchemaQuery, DhcpRestSource, DhcpRestSourceConfigSchema, HttpMethod,
};
use crate::template::{
    expansion, fault_ending, has_template_syntax, render_text, rendering, stable, template_values,
    Ending,
};
use crate::value::Node;
use vstd::prelude::*;

verus! {

/// What a template context binds each name to.
pub uninterp spec fn context_bindings(context: tera::Context) -> Map<Seq<char>, serde_json::Value>;

/// The JSON value of a text: a JSON string, or JSON null where there is no text.
pub uninterp spec fn json_of_text(text: Option<Seq<char>>) -> serde_json::Value;

/// The JSON object that holds each value under its key; of two entries with
/// the same key the later one.
pub uninterp spec fn json_of_entries(entries: Seq<(Seq<char>, serde_json::Value)>) -> serde_json::Value;

/// The absolute URL that `url::Url::parse` reads from a text, in its
/// normal form, where it reads one.
pub uninterp spec fn absolute_url(text: Seq<char>) -> Option<Seq<char>>;

/// The bindings of a context that binds no name.
pub open spec fn no_bindings() -> Map<Seq<char>, serde_json::Value> {
    Map::empty()
}

/// `tera::Context::new`: a context that binds no name.
pub assume_specification[ tera::Context::new ]() -> (context: tera::Context)
    ensures
        context_bindings(context) == no_bindings(),
;

/// `tera::Context::insert` with a JSON value: binds the name to the value,
/// in place of what it was bound to.
#[verifier::external_body]
fn context_insert(context: &mut tera::Context, key: &str, value: &serde_json::Value)
    ensures
        context_bindings(*final(context)) == context_bindings(*old(context)).insert(key@, *value),
{
    context.insert(key, value)
}

/// `serde_json::Value::from` on an optional text: the JSON string of the
/// text, JSON null for none.
#[verifier::external_body]
fn json_text(text: Option<&str>) -> (r: serde_json::Value)
    ensures
        r == json_of_text(
            match text {
                Some(t) => Some(t@),
                None => None,
            },
        ),
{
    serde_json::Value::from(text)
}

/// `serde_json::Value::from_iter` on keys and values: the JSON object of
/// the entries.
#[verifier::external_body]
fn json_object(entries: &Vec<(String, serde_json::Value)>) -> (r: serde_json::Value)
    ensures
        r == json_of_entries(keyed(entries@)),
{
    entries.iter().cloned().collect()
}

/// `url::Url::parse`, with the URL given back as text in its normal form.
#[verifier::external_body]
fn parse_url(text: &str) -> (r: Result<String, url::ParseError>)
    ensures
        r is Ok <==> absolute_url(text@) is Some,
        r matches Ok(url) ==> absolute_url(text@) == Some(url@),
{
    url::Url::parse(text).map(String::from)
}

/// What the context of a packet binds before any query has run: the
/// hardware address of the client in colon-separated hexadecimal, the
/// addresses of client and server as dotted quads, and the host name of the
/// client or null.
pub open spec fn seeded(packet: DhcpPacket) -> Map<Seq<char>, serde_json::Value> {
    no_bindings().insert(
        "client_hardware_address"@,
        json_of_text(Some(colon_hex(packet.client_hardware.bytes()))),
    ).insert("client_ip_address"@, json_of_text(Some(dotted_quad(packet.client)))).insert(
        "server_ip_address"@,
        json_of_text(Some(dotted_quad(packet.server))),
    ).insert("client_hostname"@, json_of_text(stated_hostname(packet.options@)))
}

/// Where the queries of a phase stand: the context, the results so far
/// under the names of their queries, and the index of the next query. The
/// results are a list with one entry for each name, as the names are texts
/// and the verifier's model of hash maps knows integer keys only.
#[derive(Debug)]
pub struct QueryState {
    pub context: tera::Context,
    pub results: Vec<(String, serde_json::Value)>,
    pub next: usize,
}

/// A request that is due: the method, the absolute URL and the body.
#[derive(Debug)]
pub struct HttpRequest {
    pub method: HttpMethod,
    pub url: String,
    pub body: Node,
}

/// What the next step of the queries is.
#[derive(Debug)]
pub enum QueryAction {
    /// The request is to be made, and its response handed to `fetched`.
    Fetch(HttpRequest),
    /// The query was answered from the cache; the next query is due.
    Continue,
    /// Every query has run; the context is complete.
    Finished,
}

/// The context after a result was entered: `results` is bound to the
/// object of all results so far.
pub open spec fn recorded(
    bindings: Map<Seq<char>, serde_json::Value>,
    results: Seq<(Seq<char>, serde_json::Value)>,
) -> Map<Seq<char>, serde_json::Value> {
    bindings.insert("results"@, json_of_entries(results))
}

impl QueryState {
    /// Enters the result of a query under its name, in place of an earlier
    /// result of that name, binds `results` anew in the context and moves on
    /// to the next query.
    fn record(&mut self, name: &str, value: serde_json::Value)
        requires
            old(self).next < usize::MAX,
        ensures
            keyed(final(self).results@) == put(keyed(old(self).results@), name@, value),
            context_bindings(final(self).context) == recorded(
                context_bindings(old(self).context),
                keyed(final(self).results@),
            ),
            final(self).next == old(self).next + 1,
    {
        upsert(&mut self.results, name.to_string(), value);
        let all = json_object(&self.results);
        context_insert(&mut self.context, "results", &all);
        self.next = self.next + 1;
    }
}

/// A query whose preparing does not depend on the context: its URL holds
/// no template syntax and reads as an absolute URL, and its body is stable.
pub open spec fn settled(query: DhcpRestConfigSchemaQuery) -> bool {
    &&& !has_template_syntax(query.url@)
    &&& absolute_url(query.url@) is Some
    &&& stable(query.body@)
}

/// Whether a query has kept all but its body and its cache.
pub open spec fn same_query(
    before: DhcpRestConfigSchemaQuery,
    after: DhcpRestConfigSchemaQuery,
) -> bool {
    &&& after.url == before.url
    &&& after.name == before.name
    &&& after.ssl_verify == before.ssl_verify
    &&& after.headers == before.headers
    &&& after.method == before.method
}

/// Why preparing a query has failed, told by its error: a template error
/// where the URL renders nothing, a URL error where what it renders to is
/// not an absolute URL, both before the body is touched; else the error of
/// the first text of the body that cannot be expanded, where the expansion
/// of the body has stopped.
pub open spec fn prepare_failed(
    before: DhcpRestConfigSchemaQuery,
    after: DhcpRestConfigSchemaQuery,
    e: DhcpError,
    strict: bool,
    bindings: Map<Seq<char>, serde_json::Value>,
) -> bool {
    match rendering(before.url@, bindings, strict) {
        None => e is TeraError && after.body == before.body,
        Some(shown) => match absolute_url(shown) {
            None => e is UrlError && after.body == before.body,
            Some(_) => {
                &&& e is TeraError || e is SerdeYamlError
                &&& expansion(before.body@, after.body@, fault_ending(e), bindings, strict)
            },
        },
    }
}

/// What holds of a query that was prepared and of its URL: the URL is the
/// absolute URL of what the configured one renders to, and the body is
/// expanded.
pub open spec fn prepared(
    before: DhcpRestConfigSchemaQuery,
    after: DhcpRestConfigSchemaQuery,
    url: Seq<char>,
    strict: bool,
    bindings: Map<Seq<char>, serde_json::Value>,
) -> bool {
    &&& rendering(before.url@, bindings, strict) matches Some(shown) && absolute_url(shown)
        == Some(url)
    &&& expansion(before.body@, after.body@, Ending::Done, bindings, strict)
}

impl DhcpRestConfigSchemaQuery {
    /// Prepares the query: renders its URL against the context, which must
    /// give an absolute URL, and expands the templates of its body in place.
    /// A settled query is always prepared.
    pub fn prepare(&mut self, context: &tera::Context, strict: bool) -> (r: DhcpResult<String>)
        ensures
            same_query(*old(self), *final(self)),
            final(self).cache == old(self).cache,
            settled(*old(self)) ==> r is Ok,
            r matches Ok(url) ==> prepared(
                *old(self),
                *final(self),
                url@,
                strict,
                context_bindings(*context),
            ),
            r matches Err(e) ==> prepare_failed(
                *old(self),
                *final(self),
                e,
                strict,
                context_bindings(*context),
            ),
    {
        let rendered = match render_text(self.url.as_str(), context, strict) {
            Ok(text) => text,
            Err(e) => {
                return Err(e);
            },
        };
        let url = match parse_url(rendered.as_str()) {
            Ok(url) => url,
            Err(e) => {
                return Err(DhcpError::UrlError(e));
            },
        };
        let expanded = template_values(&mut self.body, context, strict);
        match expanded {
            Ok(()) => Ok(url),
            Err(e) => Err(e),
        }
    }
}

impl DhcpRestSource {
    /// Starts the queries of a phase for a packet: the context binds what
    /// the packet gives, and no query has run.
    pub fn query(packet: &DhcpPacket) -> (r: QueryState)
        ensures
            context_bindings(r.context) == seeded(*packet),
            r.results@.len() == 0,
            r.next == 0,
    {
        let mut context = tera::Context::new();
        let hardware = packet.client_hardware().text();
        let hardware = json_text(Some(hardware.as_str()));
        context_insert(&mut context, "client_hardware_address", &hardware);
        let client = packet.client().text();
        context_insert(&mut context, "client_ip_address", &json_text(Some(client.as_str())));
        let server = packet.server().text();
        context_insert(&mut context, "server_ip_address", &json_text(Some(server.as_str())));
        let hostname = packet.hostname();
        let name = match &hostname {
            Some(name) => json_text(Some(name.as_str())),
            None => json_text(None),
        };
        context_insert(&mut context, "client_hostname", &name);
        QueryState { context, results: Vec::new(), next: 0 }
    }

    /// The next step of the queries. The query that is due is prepared; where
    /// its cache serves a response at the time `now`, the response is
    /// entered as its result, else the request is handed out. The step
    /// fails only where preparing the query fails, which a settled query
    /// never does.
    #[verifier::rlimit(40)]
    pub fn next_query(
        config: &mut DhcpRestSourceConfigSchema,
        state: &mut QueryState,
        now: u128,
    ) -> (r: DhcpResult<QueryAction>)
        ensures
            final(config).scripts == old(config).scripts,
            final(config).mapping == old(config).mapping,
            final(config).strict == old(config).strict,
            final(config).queries.len() == old(config).queries.len(),
            forall|j: int|
                0 <= j < old(config).queries.len() && j != old(state).next
                    ==> final(config).queries[j] == old(config).queries[j],
            old(state).next >= old(config).queries.len() ==> (r matches Ok(QueryAction::Finished))
                && *final(state) == *old(state) && *final(config) == *old(config),
            old(state).next < old(config).queries.len() ==> same_query(
                old(config).queries[old(state).next as int],
                final(config).queries[old(state).next as int],
            ),
            old(state).next < old(config).queries.len() && settled(
                old(config).queries[old(state).next as int],
            ) ==> r is Ok,
            old(state).next < old(config).queries.len() ==> {
                let before = old(config).queries[old(state).next as int];
                let after = final(config).queries[old(state).next as int];
                match r {
                    Ok(QueryAction::Fetch(request)) => {
                        &&& *final(state) == *old(state)
                        &&& request.method == before.method
                        &&& prepared(
                            before,
                            after,
                            request.url@,
                            old(config).strict,
                            context_bindings(old(state).context),
                        )
                        &&& request.body@ == after.body@
                        &&& looked_up(before.cache@, (before.method, request.url@), now) == (
                            None::<serde_json::Value>,
                            after.cache@,
                        )
                    },
                    Ok(QueryAction::Continue) => {
                        &&& exists|url: Seq<char>, value: serde_json::Value|
                            {
                                &&& #[trigger] prepared(
                                    before,
                                    after,
                                    url,
                                    old(config).strict,
                                    context_bindings(old(state).context),
                                )
                                &&& looked_up(before.cache@, (before.method, url), now) == (
                                    Some(value),
                                    after.cache@,
                                )
                                &&& keyed(final(state).results@) == #[trigger] put(
                                    keyed(old(state).results@),
                                    before.name@,
                                    value,
                                )
                            }
                        &&& context_bindings(final(state).context) == recorded(
                            context_bindings(old(state).context),
                            keyed(final(state).results@),
                        )
                        &&& final(state).next == old(state).next + 1
                    },
                    Ok(QueryAction::Finished) => false,
                    Err(e) => {
                        &&& *final(state) == *old(state)
                        &&& after.cache == before.cache
                        &&& prepare_failed(
                            before,
                            after,
                            e,
                            old(config).strict,
                            context_bindings(old(state).context),
                        )
                    },
                }
            },
    {
        let at = state.next;
        if at >= config.queries.len() {
            return Ok(QueryAction::Finished);
        }
        let ghost before = config.queries[at as int];
        let strict = config.strict;
        let url = match config.queries[at].prepare(&state.context, strict) {
            Ok(url) => url,
            Err(e) => {
                return Err(e);
            },
        };
        let method = config.queries[at].method;
        match config.queries[at].cache.lookup(method, url.as_str(), now) {
            Some(value) => {
                let name = config.queries[at].name.clone();
                let ghost results = keyed(state.results@);
                state.record(name.as_str(), value);
                proof {
                    assert(prepared(
                        before,
                        config.queries[at as int],
                        url@,
                        strict,
                        context_bindings(old(state).context),
                    ));
                    assert(keyed(state.results@) == put(results, before.name@, value));
                }
                Ok(QueryAction::Continue)
            },
            None => {
                let body = config.queries[at].body.duplicate();
                Ok(QueryAction::Fetch(HttpRequest { method, url, body }))
            },
        }
    }

    /// Takes the response to the request of the query that is due: the cache
    /// of the query stores it at the time `now`, and it is entered as the
    /// result of the query.
    pub fn fetched(
        config: &mut DhcpRestSourceConfigSchema,
        state: &mut QueryState,
        request: &HttpRequest,
        value: serde_json::Value,
        now: u128,
    )
        ensures
            final(config).scripts == old(config).scripts,
            final(config).mapping == old(config).mapping,
            final(config).strict == old(config).strict,
            final(config).queries.len() == old(config).queries.len(),
            forall|j: int|
                0 <= j < old(config).queries.len() && j != old(state).next
                    ==> final(config).queries[j] == old(config).queries[j],
            old(state).next >= old(config).queries.len() ==> *final(state) == *old(state)
                && *final(config) == *old(config),
            old(state).next < old(config).queries.len() ==> fetch_recorded(
                *old(config),
                *old(state),
                *final(config),
                *final(state),
                *request,
                value,
                now,
            ),
    {
        let at = state.next;
        if at >= config.queries.len() {
            return ;
        }
        config.queries[at].cache.store(request.method, request.url.as_str(), &value, now);
        let name = config.queries[at].name.clone();
        state.record(name.as_str(), value);
    }
}

/// What taking a response does: the cache of the query that is due stores
/// the response, the response is entered under the name of the query, and
/// the next query is due.
pub open spec fn fetch_recorded(
    config: DhcpRestSourceConfigSchema,
    state: QueryState,
    after_config: DhcpRestSourceConfigSchema,
    after: QueryState,
    request: HttpRequest,
    value: serde_json::Value,
    now: u128,
) -> bool {
    &&& after_config.queries[state.next as int].cache@ == stored(
        config.queries[state.next as int].cache@,
        (request.method, request.url@),
        value,
        now,
    )
    &&& keyed(after.results@) == put(
        keyed(state.results@),
        config.queries[state.next as int].name@,
        value,
    )
    &&& context_bindings(after.context) == recorded(
        context_bindings(state.context),
        keyed(after.results@),
    )
    &&& after.next == state.next + 1
}

} // verus!
