//! The REST source: what it is configured with.

use crate::sources::cache::DhcpRestSourceHttp;
use crate::text::{eq_ignoring_ascii_case, same_ignoring_ascii_case};
use crate::value::Node;
use vstd::prelude::*;

verus! {

/// The method of an HTTP query.
#[derive(Clone, Copy, Debug, PartialEq, Eq, Hash, Structural)]
pub enum HttpMethod {
    Get,
    Post,
    Put,
    Patch,
    Delete,
}

/// The method that a configuration names, whatever the case of its letters.
pub open spec fn method_of(name: Seq<char>) -> Option<HttpMethod> {
    if same_ignoring_ascii_case(name, "get"@) {
        Some(HttpMethod::Get)
    } else if same_ignoring_ascii_case(name, "post"@) {
        Some(HttpMethod::Post)
    } else if same_ignoring_ascii_case(name, "put"@) {
        Some(HttpMethod::Put)
    } else if same_ignoring_ascii_case(name, "patch"@) {
        Some(HttpMethod::Patch)
    } else if same_ignoring_ascii_case(name, "delete"@) {
        Some(HttpMethod::Delete)
    } else {
        None
    }
}

impl HttpMethod {
    /// Reads the name of a method: `get`, `post`, `put`, `patch` or
    /// `delete` in any case. Any other name gives `None`.
    pub fn parse(name: &str) -> (r: Option<HttpMethod>)
        ensures
            r == method_of(name@),
    {
        if eq_ignoring_ascii_case(name, "get") {
            Some(HttpMethod::Get)
        } else if eq_ignoring_ascii_case(name, "post") {
            Some(HttpMethod::Post)
        } else if eq_ignoring_ascii_case(name, "put") {
            Some(HttpMethod::Put)
        } else if eq_ignoring_ascii_case(name, "patch") {
            Some(HttpMethod::Patch)
        } else if eq_ignoring_ascii_case(name, "delete") {
            Some(HttpMethod::Delete)
        } else {
            None
        }
    }

    /// The name of the method as a request line holds it.
    pub open spec fn name(self) -> Seq<char> {
        match self {
            HttpMethod::Get => "GET"@,
            HttpMethod::Post => "POST"@,
            HttpMethod::Put => "PUT"@,
            HttpMethod::Patch => "PATCH"@,
            HttpMethod::Delete => "DELETE"@,
        }
    }

    /// The name of the method as a request line holds it.
    pub fn as_str(&self) -> (r: &'static str)
        ensures
            r@ == self.name(),
    {
        match self {
            HttpMethod::Get => "GET",
            HttpMethod::Post => "POST",
            HttpMethod::Put => "PUT",
            HttpMethod::Patch => "PATCH",
            HttpMethod::Delete => "DELETE",
        }
    }
}

/// What kind of value a custom option is meant to carry. The kind documents
/// the intent of a mapping; the encoding goes by the value itself.
#[derive(Clone, Copy, Debug, PartialEq, Eq, Structural)]
pub enum DhcpRestMappingItemCustomKind {
    String,
    Bool,
    Integer,
    Untyped,
}

impl Default for DhcpRestMappingItemCustomKind {
    fn default() -> (r: Self)
        ensures
            r == DhcpRestMappingItemCustomKind::Untyped,
    {
        DhcpRestMappingItemCustomKind::Untyped
    }
}

/// The value of a mapping entry and whether the entry is required.
#[derive(Debug)]
pub struct DhcpRestMappingItem {
    pub data: Node,
    pub required: bool,
}

/// A mapping entry for an option with a custom tag.
#[derive(Debug)]
pub struct DhcpRestMappingItemCustom {
    pub tag: u8,
    pub kind: DhcpRestMappingItemCustomKind,
    pub item: DhcpRestMappingItem,
}

/// One HTTP query of a phase. Its URL is a template and its body a tree
/// whose texts are templates. The headers are a list in the order of the
/// configuration, a later header in place of an earlier one of the same
/// name: the verifier's model of hash maps knows integer keys only, and
/// these keys are texts.
#[derive(Debug)]
pub struct DhcpRestConfigSchemaQuery {
    pub url: String,
    pub name: String,
    pub ssl_verify: bool,
    pub headers: Option<Vec<(String, String)>>,
    pub cache: DhcpRestSourceHttp,
    pub method: HttpMethod,
    pub body: Node,
}

/// One script of a phase: a program, its arguments, whether the phase waits
/// for it, and the seconds after which it is given up. The program and each
/// argument are templates.
#[derive(Debug)]
pub struct DhcpRestConfigSchemaScript {
    pub program: String,
    pub args: Vec<String>,
    pub wait: bool,
    pub timeout: u64,
}

/// What one phase is configured with: its scripts and queries in their
/// order, the mapping from option names to templated values, and the mode
/// of its templates.
///
/// A template is text with variable tags: between `{{` and `}}` stands the
/// dotted path of one variable, such as `{{ results.hosts.0.ip }}`, with
/// blanks around it at will. Statements, comments, filters, operators and
/// literals are not taken, since the engine computes some of them with
/// arithmetic that can stop the program: a template that holds any is a
/// template error. In strict mode a tag whose variable the context does
/// not define is a template error too; else, which is the default, it gives
/// the empty text.
///
/// The mapping is a list of entries in the order of the configuration,
/// since the verifier's model of hash maps knows integer keys only; an
/// option that is named twice is set by the later entry.
#[derive(Debug)]
pub struct DhcpRestSourceConfigSchema {
    pub scripts: Vec<DhcpRestConfigSchemaScript>,
    pub queries: Vec<DhcpRestConfigSchemaQuery>,
    pub mapping: Vec<(String, Node)>,
    pub strict: bool,
}

/// The configuration of the five phases.
#[derive(Debug)]
pub struct DhcpRestSourceConfig {
    pub offer: DhcpRestSourceConfigSchema,
    pub reserve: DhcpRestSourceConfigSchema,
    pub release: DhcpRestSourceConfigSchema,
    pub decline: DhcpRestSourceConfigSchema,
    pub inform: DhcpRestSourceConfigSchema,
}

/// A source that asks HTTP backends and maps their answers to options.
#[derive(Debug)]
pub struct DhcpRestSource {
    pub config: DhcpRestSourceConfig,
}

impl DhcpRestSource {
    /// The kind under which a configuration names this source.
    pub fn name() -> (r: &'static str)
        ensures
            r@ == "rest"@,
    {
        "rest"
    }
}

impl DhcpRestConfigSchemaQuery {
    /// Certificates are verified unless a query says otherwise.
    pub fn ssl_verify() -> (r: bool)
        ensures
            r,
    {
        true
    }

    /// Whether the client of this query accepts certificates that do not
    /// verify: only where verification is switched off.
    pub fn accepts_invalid_certs(&self) -> (r: bool)
        ensures
            r == !self.ssl_verify,
    {
        !self.ssl_verify
    }
}

impl DhcpRestConfigSchemaScript {
    /// The seconds after which a script is given up, where none are configured.
    pub fn timeout() -> (r: u64)
        ensures
            r == 60,
    {
        60
    }
}

} // verus!
