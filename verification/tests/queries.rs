use dhcp_server::address::{Ipv4Address, MacAddress};
use dhcp_server::error::DhcpError;
use dhcp_server::option::DhcpOptions;
use dhcp_server::packet::DhcpPacket;
use dhcp_server::sources::cache::DhcpRestSourceHttp;
use dhcp_server::sources::query::QueryAction;
use dhcp_server::sources::rest::{
    DhcpRestConfigSchemaQuery, DhcpRestSource, DhcpRestSourceConfig, DhcpRestSourceConfigSchema,
    HttpMethod,
};
use dhcp_server::value::{Node, Num};

fn text(s: &str) -> Node {
    Node::String(s.to_string())
}

fn query(name: &str, url: &str, body: Node) -> DhcpRestConfigSchemaQuery {
    DhcpRestConfigSchemaQuery {
        url: url.to_string(),
        name: name.to_string(),
        ssl_verify: true,
        headers: None,
        cache: DhcpRestSourceHttp::new(0),
        method: HttpMethod::Get,
        body,
    }
}

fn phase(queries: Vec<DhcpRestConfigSchemaQuery>) -> DhcpRestSourceConfigSchema {
    DhcpRestSourceConfigSchema { strict: false, scripts: vec![], queries, mapping: vec![] }
}

fn packet() -> DhcpPacket {
    DhcpPacket {
        xid: 7,
        client: Ipv4Address(10, 0, 0, 9),
        your: Ipv4Address(0, 0, 0, 0),
        server: Ipv4Address(10, 0, 0, 1),
        gateway: Ipv4Address(0, 0, 0, 0),
        client_hardware: MacAddress(0xaa, 0xbb, 0xcc, 1, 2, 3),
        options: DhcpOptions::new(),
    }
}

fn json(text: &str) -> serde_json::Value {
    serde_json::from_str(text).unwrap()
}

#[test]
fn method_names_are_read_in_any_case() {
    assert_eq!(HttpMethod::parse("get"), Some(HttpMethod::Get));
    assert_eq!(HttpMethod::parse("GET"), Some(HttpMethod::Get));
    assert_eq!(HttpMethod::parse("Post"), Some(HttpMethod::Post));
    assert_eq!(HttpMethod::parse("pUt"), Some(HttpMethod::Put));
    assert_eq!(HttpMethod::parse("PATCH"), Some(HttpMethod::Patch));
    assert_eq!(HttpMethod::parse("delete"), Some(HttpMethod::Delete));
    assert_eq!(HttpMethod::parse("head"), None);
    assert_eq!(HttpMethod::parse(""), None);
    assert_eq!(HttpMethod::parse("get "), None);
    assert_eq!(HttpMethod::parse("gett"), None);
    assert_eq!(HttpMethod::Get.as_str(), "GET");
    assert_eq!(HttpMethod::Post.as_str(), "POST");
    assert_eq!(HttpMethod::Put.as_str(), "PUT");
    assert_eq!(HttpMethod::Patch.as_str(), "PATCH");
    assert_eq!(HttpMethod::Delete.as_str(), "DELETE");
}

#[test]
fn url_is_rendered_and_made_normal() {
    let mut q = query("a", "HTTP://Example.COM/hosts/{{ mac }}", Node::Null);
    let mut context = tera::Context::new();
    context.insert("mac", "aa-bb");
    assert_eq!(q.prepare(&context, true).unwrap(), "http://example.com/hosts/aa-bb");
    assert_eq!(q.url, "HTTP://Example.COM/hosts/{{ mac }}");

    let mut q = query("a", "http://example.com", Node::Null);
    assert_eq!(q.prepare(&context, true).unwrap(), "http://example.com/");
}

#[test]
fn url_must_be_absolute() {
    let context = tera::Context::new();
    let mut q = query("a", "/hosts", text("{{ missing }}"));
    assert!(matches!(q.prepare(&context, true), Err(DhcpError::UrlError(_))));
    assert_eq!(q.body, text("{{ missing }}"));
    let mut q = query("a", "{{ missing }}", Node::Null);
    assert!(matches!(q.prepare(&context, true), Err(DhcpError::TeraError(_))));
    let mut q = query("a", "http://example.com/", text("{{ missing }}"));
    assert!(matches!(q.prepare(&context, true), Err(DhcpError::TeraError(_))));
    let mut q = query("a", "http://example.com/", text("[1"));
    assert!(matches!(q.prepare(&context, true), Err(DhcpError::SerdeYamlError(_))));
}

#[test]
fn body_is_expanded_in_place() {
    let mut context = tera::Context::new();
    context.insert("n", &5);
    let mut q = query(
        "a",
        "http://example.com/",
        Node::Mapping(vec![(text("count"), text("{{ n }}"))]),
    );
    q.prepare(&context, true).unwrap();
    assert_eq!(q.body, Node::Mapping(vec![(text("count"), Node::Number(Num::Int(5)))]));
}

#[test]
fn later_queries_see_earlier_results() {
    let mut p = phase(vec![
        query("first", "http://example.com/{{ client_hardware_address }}", Node::Null),
        query(
            "second",
            "http://example.com/{{ results.first.id }}",
            text("{{ results.first.id }}"),
        ),
        query("first", "http://example.com/{{ results.second.next }}", Node::Null),
    ]);
    let mut state = DhcpRestSource::query(&packet());
    assert_eq!(state.next, 0);

    let request = match DhcpRestSource::next_query(&mut p, &mut state, 0).unwrap() {
        QueryAction::Fetch(request) => request,
        other => panic!("{:?}", other),
    };
    assert_eq!(request.url, "http://example.com/AA:BB:CC:01:02:03");
    DhcpRestSource::fetched(&mut p, &mut state, &request, json("{\"id\": 17}"), 0);
    assert_eq!(state.next, 1);

    let request = match DhcpRestSource::next_query(&mut p, &mut state, 0).unwrap() {
        QueryAction::Fetch(request) => request,
        other => panic!("{:?}", other),
    };
    assert_eq!(request.url, "http://example.com/17");
    assert_eq!(request.body, Node::Number(Num::Int(17)));
    DhcpRestSource::fetched(&mut p, &mut state, &request, json("{\"next\": \"n\"}"), 0);

    let request = match DhcpRestSource::next_query(&mut p, &mut state, 0).unwrap() {
        QueryAction::Fetch(request) => request,
        other => panic!("{:?}", other),
    };
    assert_eq!(request.url, "http://example.com/n");
    DhcpRestSource::fetched(&mut p, &mut state, &request, json("{\"id\": 18}"), 0);

    assert_eq!(state.next, 3);
    assert_eq!(
        state.results,
        vec![
            ("first".to_string(), json("{\"id\": 18}")),
            ("second".to_string(), json("{\"next\": \"n\"}")),
        ]
    );
    assert!(matches!(
        DhcpRestSource::next_query(&mut p, &mut state, 0).unwrap(),
        QueryAction::Finished
    ));
    assert_eq!(
        tera::Tera::one_off("{{ results.first.id }}/{{ results.second.next }}", &state.context, false)
            .unwrap(),
        "18/n"
    );
    DhcpRestSource::fetched(&mut p, &mut state, &request, json("0"), 0);
    assert_eq!(state.next, 3);
    assert_eq!(state.results.len(), 2);
}

#[test]
fn failing_query_leaves_the_state() {
    let mut p = phase(vec![query("first", "not a url", Node::Null)]);
    let mut state = DhcpRestSource::query(&packet());
    assert!(matches!(
        DhcpRestSource::next_query(&mut p, &mut state, 0),
        Err(DhcpError::UrlError(_))
    ));
    assert_eq!(state.next, 0);
    assert!(state.results.is_empty());
}

#[test]
fn context_of_a_packet_without_host_name() {
    let state = DhcpRestSource::query(&packet());
    let shown = tera::Tera::one_off(
        "{{ client_hardware_address }} {{ client_ip_address }} {{ server_ip_address }} {% if client_hostname %}named{% else %}unnamed{% endif %}",
        &state.context,
        false,
    )
    .unwrap();
    assert_eq!(shown, "AA:BB:CC:01:02:03 10.0.0.9 10.0.0.1 unnamed");
    assert_eq!(state.context.get("client_hostname"), Some(&serde_json::Value::Null));
    assert!(state.context.get("results").is_none());
}

#[test]
fn default_headers_always_accept_json() {
    let headers = DhcpRestConfigSchemaQuery::map_to_headers(&vec![]).unwrap();
    assert_eq!(headers.len(), 1);
    assert_eq!(headers.get("accept").unwrap(), "application/json");

    let headers = DhcpRestConfigSchemaQuery::map_to_headers(&vec![
        ("Token".to_string(), "12345".to_string()),
        ("ACCEPT".to_string(), "text/plain".to_string()),
        ("X-Site".to_string(), "a\tb".to_string()),
        ("token".to_string(), "678".to_string()),
    ])
    .unwrap();
    assert_eq!(headers.len(), 3);
    assert_eq!(headers.get("token").unwrap(), "678");
    assert_eq!(headers.get("accept").unwrap(), "application/json");
    assert_eq!(headers.get("x-site").unwrap(), "a\tb");
    assert_eq!(headers.get_all("token").iter().count(), 1);
}

#[test]
fn many_headers_are_taken_while_the_map_has_room() {
    let header = |i: usize| (format!("h{}", i), i.to_string());
    for count in [1023, 1024, 5000] {
        let many: Vec<(String, String)> = (0..count).map(header).collect();
        let headers = DhcpRestConfigSchemaQuery::map_to_headers(&many).unwrap();
        assert_eq!(headers.len(), count + 1);
        assert_eq!(headers.get("h1022").unwrap(), "1022");
        assert_eq!(headers.get("accept").unwrap(), "application/json");
    }
}

#[test]
fn headers_that_the_map_refuses_are_an_error() {
    let header = |i: usize| (format!("h{}", i), i.to_string());
    let mut more: Vec<(String, String)> = (0..40000).map(header).collect();
    assert!(matches!(
        DhcpRestConfigSchemaQuery::map_to_headers(&more),
        Err(DhcpError::TooManyHeaders)
    ));
    more[0] = ("bad name".to_string(), "v".to_string());
    assert!(matches!(
        DhcpRestConfigSchemaQuery::map_to_headers(&more),
        Err(DhcpError::InvalidHeaderName(_))
    ));
    assert_eq!(DhcpError::TooManyHeaders.message(), "too many headers");
}

#[test]
fn headers_that_are_not_valid_are_errors() {
    let bad_name = vec![("bad name".to_string(), "v".to_string())];
    assert!(matches!(
        DhcpRestConfigSchemaQuery::map_to_headers(&bad_name),
        Err(DhcpError::InvalidHeaderName(_))
    ));
    let empty_name = vec![(String::new(), "v".to_string())];
    assert!(matches!(
        DhcpRestConfigSchemaQuery::map_to_headers(&empty_name),
        Err(DhcpError::InvalidHeaderName(_))
    ));
    for value in ["line\nbreak", "nul\0", "del\u{7f}"] {
        let bad_value = vec![("name".to_string(), value.to_string())];
        assert!(matches!(
            DhcpRestConfigSchemaQuery::map_to_headers(&bad_value),
            Err(DhcpError::InvalidHeaderValue(_))
        ));
    }
    let fine = vec![("name".to_string(), "grüße ~".to_string())];
    assert!(DhcpRestConfigSchemaQuery::map_to_headers(&fine).is_ok());
    let both = vec![("bad name".to_string(), "line\nbreak".to_string())];
    assert!(matches!(
        DhcpRestConfigSchemaQuery::map_to_headers(&both),
        Err(DhcpError::InvalidHeaderName(_))
    ));
}

#[test]
fn client_settings_of_a_query() {
    assert!(DhcpRestConfigSchemaQuery::ssl_verify());
    let mut q = query("a", "http://example.com/", Node::Null);
    let settings = q.init().unwrap();
    assert!(!settings.accept_invalid_certs);
    assert!(!q.accepts_invalid_certs());
    assert_eq!(settings.default_headers.len(), 1);
    assert_eq!(settings.default_headers.get("accept").unwrap(), "application/json");
    q.ssl_verify = false;
    q.headers = Some(vec![("token".to_string(), "1".to_string())]);
    let settings = q.init().unwrap();
    assert!(settings.accept_invalid_certs);
    assert_eq!(settings.default_headers.len(), 2);
    assert_eq!(settings.default_headers.get("token").unwrap(), "1");
    q.headers = Some(vec![("to ken".to_string(), "1".to_string())]);
    assert!(matches!(q.init(), Err(DhcpError::InvalidHeaderName(_))));
}

#[test]
fn source_is_built_where_its_clients_can_be() {
    let config = |offer: Vec<DhcpRestConfigSchemaQuery>, decline: Vec<DhcpRestConfigSchemaQuery>| {
        DhcpRestSourceConfig {
            offer: phase(offer),
            reserve: phase(vec![]),
            release: phase(vec![]),
            decline: phase(decline),
            inform: phase(vec![]),
        }
    };
    let source = DhcpRestSource::from_config(config(
        vec![query("a", "http://example.com/", Node::Null)],
        vec![],
    ))
    .unwrap();
    assert_eq!(source.config.offer.queries.len(), 1);
    assert_eq!(DhcpRestSource::name(), "rest");

    let mut bad_name = query("a", "http://example.com/", Node::Null);
    bad_name.headers = Some(vec![("a b".to_string(), "v".to_string())]);
    let mut bad_value = query("a", "http://example.com/", Node::Null);
    bad_value.headers = Some(vec![("a".to_string(), "\r".to_string())]);
    assert!(matches!(
        DhcpRestSource::from_config(config(vec![bad_name], vec![bad_value])),
        Err(DhcpError::InvalidHeaderValue(_))
    ));
}

#[test]
fn settled_query_is_always_prepared() {
    let context = tera::Context::new();
    let mut q = query(
        "a",
        "http://example.com/hosts",
        Node::Mapping(vec![(text("k"), text("word")), (text("n"), Node::Number(Num::Int(1)))]),
    );
    assert_eq!(q.prepare(&context, true).unwrap(), "http://example.com/hosts");
    assert_eq!(
        q.body,
        Node::Mapping(vec![(text("k"), text("word")), (text("n"), Node::Number(Num::Int(1)))])
    );
    let mut p = phase(vec![q]);
    let mut state = DhcpRestSource::query(&packet());
    assert!(matches!(
        DhcpRestSource::next_query(&mut p, &mut state, 0),
        Ok(QueryAction::Fetch(_))
    ));
}

#[test]
fn query_with_untamed_url_fails() {
    let context = tera::Context::new();
    let mut q = query("a", "http://example.com/{{ 1 % 0 }}", text("{{ missing }}"));
    assert!(matches!(q.prepare(&context, true), Err(DhcpError::TeraError(_))));
    assert_eq!(q.body, text("{{ missing }}"));
    assert_eq!(q.url, "http://example.com/{{ 1 % 0 }}");
}

#[test]
fn undefined_variable_leaves_nothing_in_the_url_by_default() {
    let context = tera::Context::new();
    let mut q = query("a", "http://example.com/{{ missing.id }}hosts", text("x{{ missing }}"));
    assert_eq!(q.prepare(&context, false).unwrap(), "http://example.com/hosts");
    assert_eq!(q.body, text("x"));

    let mut q = query("a", "{{ base }}/hosts", Node::Null);
    assert!(matches!(q.prepare(&context, false), Err(DhcpError::UrlError(_))));
    let mut q = query("a", "{{ base }}/hosts", Node::Null);
    assert!(matches!(q.prepare(&context, true), Err(DhcpError::TeraError(_))));
}
