use dhcp_server::address::{Ipv4Address, MacAddress};
use dhcp_server::error::DhcpError;
use dhcp_server::option::{
    DhcpOption, DhcpOptions, OptionValue, DOMAIN_NAME, IP_ADDRESS_LEASE_TIME, ROUTER, SUBNET_MASK,
};
use dhcp_server::packet::DhcpPacket;
use dhcp_server::server::{Phase, ResponseKind, Server, SourceAnswer, Verdict};
use dhcp_server::sources::cache::DhcpRestSourceHttp;
use dhcp_server::sources::query::{QueryAction, QueryState};
use dhcp_server::sources::rest::{
    DhcpRestConfigSchemaQuery, DhcpRestSource, DhcpRestSourceConfig, DhcpRestSourceConfigSchema,
    HttpMethod,
};
use dhcp_server::value::{Node, Num};

const SECOND: u128 = 1_000_000_000;

fn text(s: &str) -> Node {
    Node::String(s.to_string())
}

fn mapping(entries: Vec<(&str, Node)>) -> Node {
    Node::Mapping(entries.into_iter().map(|(k, v)| (text(k), v)).collect())
}

fn item(data: &str, required: bool) -> Node {
    mapping(vec![("data", text(data)), ("required", Node::Bool(required))])
}

fn empty_phase() -> DhcpRestSourceConfigSchema {
    DhcpRestSourceConfigSchema { strict: false, scripts: vec![], queries: vec![], mapping: vec![] }
}

fn source_with_offer(offer: DhcpRestSourceConfigSchema) -> DhcpRestSource {
    DhcpRestSource {
        config: DhcpRestSourceConfig {
            offer,
            reserve: empty_phase(),
            release: empty_phase(),
            decline: empty_phase(),
            inform: empty_phase(),
        },
    }
}

fn test_query(cache_seconds: u128) -> DhcpRestConfigSchemaQuery {
    DhcpRestConfigSchemaQuery {
        url: "http://127.0.0.1:1234/".to_string(),
        name: "test".to_string(),
        ssl_verify: false,
        headers: Some(vec![("token".to_string(), "12345".to_string())]),
        cache: DhcpRestSourceHttp::new(cache_seconds * SECOND),
        method: HttpMethod::Post,
        body: mapping(vec![("test", text("data"))]),
    }
}

fn discover() -> DhcpPacket {
    let mut options = DhcpOptions::new();
    options.upsert(DhcpOption::Named(
        SUBNET_MASK,
        OptionValue::Ipv4(Ipv4Address(1, 2, 3, 4)),
    ));
    DhcpPacket {
        xid: 123,
        client: Ipv4Address(0, 0, 0, 0),
        your: Ipv4Address(0, 0, 0, 0),
        server: Ipv4Address(0, 0, 0, 0),
        gateway: Ipv4Address(0, 0, 0, 0),
        client_hardware: MacAddress(1, 2, 3, 5, 6, 7),
        options,
    }
}

fn devices() -> serde_json::Value {
    serde_json::from_str(
        r#"{
            "device1": {"ip": "1.2.3.4", "mask": "255.255.255.0", "router": ["1.1.1.1", "2.2.2.2"]},
            "device2": {"ip": "5.5.5.5", "mask": "255.255.255.0", "custom_data": "something"}
        }"#,
    )
    .unwrap()
}

fn device_mapping() -> Vec<(String, Node)> {
    vec![
        ("client_ip_address".to_string(), text("{{ results.test.device1.ip }}")),
        ("subnet_mask".to_string(), item("{{ results.test.device1.mask }}", false)),
        ("router".to_string(), item("{{ results.test.device1.router }}", false)),
        (
            "custom1".to_string(),
            mapping(vec![
                ("tag", Node::Number(Num::Int(200))),
                ("kind", text("integer")),
                ("data", text("1234567890")),
                ("required", Node::Bool(false)),
            ]),
        ),
    ]
}

/// Runs the queries of a phase, answering every request with `answer`, and
/// counts the requests.
fn run_queries(
    phase: &mut DhcpRestSourceConfigSchema,
    packet: &DhcpPacket,
    answer: &serde_json::Value,
    now: u128,
) -> (QueryState, usize) {
    let mut state = DhcpRestSource::query(packet);
    let mut requests = 0;
    loop {
        match DhcpRestSource::next_query(phase, &mut state, now).unwrap() {
            QueryAction::Finished => break,
            QueryAction::Continue => {}
            QueryAction::Fetch(request) => {
                requests += 1;
                DhcpRestSource::fetched(phase, &mut state, &request, answer.clone(), now);
            }
        }
    }
    (state, requests)
}

#[test]
fn test() {
    let mut s = source_with_offer(DhcpRestSourceConfigSchema {
        strict: false,
        scripts: vec![],
        queries: vec![test_query(0)],
        mapping: device_mapping(),
    });
    for query in s.config.offer.queries.iter() {
        query.init().unwrap();
    }
    let packet = discover();
    let mut state = DhcpRestSource::query(&packet);
    let request = match DhcpRestSource::next_query(&mut s.config.offer, &mut state, 0).unwrap() {
        QueryAction::Fetch(request) => request,
        other => panic!("a request is due, not {:?}", other),
    };
    assert_eq!(request.method, HttpMethod::Post);
    assert_eq!(request.url, "http://127.0.0.1:1234/");
    assert_eq!(request.body, mapping(vec![("test", text("data"))]));
    DhcpRestSource::fetched(&mut s.config.offer, &mut state, &request, devices(), 0);
    assert!(matches!(
        DhcpRestSource::next_query(&mut s.config.offer, &mut state, 0).unwrap(),
        QueryAction::Finished
    ));

    let result = s.offer(&state.context).unwrap().unwrap();

    assert_eq!(result.client_ip_address(), Some(Ipv4Address(1, 2, 3, 4)));
    assert_eq!(
        result.options().try_ipv4_option(SUBNET_MASK).unwrap(),
        Ipv4Address(255, 255, 255, 0)
    );
    assert_eq!(
        result.options().try_ipv4vec_option(ROUTER).unwrap(),
        vec![Ipv4Address(1, 1, 1, 1), Ipv4Address(2, 2, 2, 2)]
    );
    assert_eq!(
        result.options().option(200).unwrap(),
        &DhcpOption::Unknown(200, vec![0, 0, 0, 0, 73, 150, 2, 210])
    );
}

#[test]
fn discover_is_answered_by_an_offer() {
    let mut phase = DhcpRestSourceConfigSchema {
        strict: false,
        scripts: vec![],
        queries: vec![test_query(0)],
        mapping: device_mapping(),
    };
    let packet = discover();
    let (state, requests) = run_queries(&mut phase, &packet, &devices(), 0);
    assert_eq!(requests, 1);
    let mut s = source_with_offer(phase);
    let result = s.offer(&state.context).unwrap().unwrap();
    let response = match Server::process(Phase::Offer, &packet, SourceAnswer::Found(result)) {
        Verdict::Respond(response) => response,
        other => panic!("an offer is due, not {:?}", other),
    };
    assert_eq!(response.kind, ResponseKind::Offer);
    assert_eq!(response.client_ip, Ipv4Address(1, 2, 3, 4));
    assert_eq!(response.server_ip, Ipv4Address(0, 0, 0, 0));
    assert_eq!(response.lease_time, None);
    assert_eq!(
        response.options.option(SUBNET_MASK).unwrap(),
        &DhcpOption::Named(SUBNET_MASK, OptionValue::Ipv4(Ipv4Address(255, 255, 255, 0)))
    );
    assert_eq!(
        response.options.option(ROUTER).unwrap(),
        &DhcpOption::Named(
            ROUTER,
            OptionValue::Ipv4List(vec![Ipv4Address(1, 1, 1, 1), Ipv4Address(2, 2, 2, 2)])
        )
    );
    assert_eq!(
        response.options.option(200).unwrap(),
        &DhcpOption::Unknown(200, vec![0, 0, 0, 0, 73, 150, 2, 210])
    );
}

#[test]
fn request_without_sources_is_refused() {
    let response = Server::unanswered(Phase::Reserve).unwrap();
    assert_eq!(response.kind, ResponseKind::Nak);
    assert_eq!(response.client_ip, Ipv4Address(0, 0, 0, 0));
    assert_eq!(response.lease_time, None);
    assert!(response.options.option(IP_ADDRESS_LEASE_TIME).is_none());
    assert_eq!(response.options.len(), 0);
}

#[test]
fn discover_and_inform_without_result_are_dropped() {
    assert!(Server::unanswered(Phase::Offer).is_none());
    assert!(Server::unanswered(Phase::Inform).is_none());
    assert!(Server::unanswered(Phase::Release).is_none());
    assert!(Server::unanswered(Phase::Decline).is_none());
}

#[test]
fn cached_query_makes_one_request() {
    let mut phase = DhcpRestSourceConfigSchema {
        strict: false,
        scripts: vec![],
        queries: vec![test_query(5)],
        mapping: vec![],
    };
    let packet = discover();
    let (first, requests) = run_queries(&mut phase, &packet, &devices(), 100 * SECOND);
    assert_eq!(requests, 1);
    let other = serde_json::from_str::<serde_json::Value>("{}").unwrap();
    let (second, requests) = run_queries(&mut phase, &packet, &other, 105 * SECOND);
    assert_eq!(requests, 0);
    assert_eq!(first.results, second.results);
    assert_eq!(second.results, vec![("test".to_string(), devices())]);
}

#[test]
fn cached_query_expires() {
    let mut phase = DhcpRestSourceConfigSchema {
        strict: false,
        scripts: vec![],
        queries: vec![test_query(5)],
        mapping: vec![],
    };
    let packet = discover();
    let (_, requests) = run_queries(&mut phase, &packet, &devices(), 100 * SECOND);
    assert_eq!(requests, 1);
    let (_, requests) = run_queries(&mut phase, &packet, &devices(), 105 * SECOND + 1);
    assert_eq!(requests, 1);
}

#[test]
fn query_without_cache_makes_two_requests() {
    let mut phase = DhcpRestSourceConfigSchema {
        strict: false,
        scripts: vec![],
        queries: vec![test_query(0)],
        mapping: vec![],
    };
    let packet = discover();
    let (_, first) = run_queries(&mut phase, &packet, &devices(), 100 * SECOND);
    let (_, second) = run_queries(&mut phase, &packet, &devices(), 100 * SECOND);
    assert_eq!(first + second, 2);
}

#[test]
fn missing_client_address_gives_no_offer() {
    let mut s = source_with_offer(DhcpRestSourceConfigSchema {
        strict: false,
        scripts: vec![],
        queries: vec![],
        mapping: vec![("client_ip_address".to_string(), text("{{ missing.path }}"))],
    });
    let packet = discover();
    let state = DhcpRestSource::query(&packet);
    let result = s.offer(&state.context).unwrap().unwrap();
    assert_eq!(result.client_ip_address(), None);
    let verdict = Server::process(Phase::Offer, &packet, SourceAnswer::Found(result));
    assert!(matches!(
        verdict,
        Verdict::Fail(DhcpError::ClientIpAddressMissing(MacAddress(1, 2, 3, 5, 6, 7)))
    ));
}

#[test]
fn required_entry_that_fails_fails_the_phase() {
    let mut s = source_with_offer(DhcpRestSourceConfigSchema {
        strict: false,
        scripts: vec![],
        queries: vec![],
        mapping: vec![
            ("client_ip_address".to_string(), text("1.2.3.4")),
            ("domain_name".to_string(), item("{{ missing }}", true)),
        ],
    });
    let state = DhcpRestSource::query(&discover());
    assert!(matches!(s.offer(&state.context), Err(DhcpError::SerdeYamlError(_))));
    s.config.offer.strict = true;
    assert!(matches!(s.offer(&state.context), Err(DhcpError::TeraError(_))));
}

#[test]
fn entry_that_fails_is_left_out() {
    let mut s = source_with_offer(DhcpRestSourceConfigSchema {
        strict: false,
        scripts: vec![],
        queries: vec![],
        mapping: vec![
            ("client_ip_address".to_string(), text("1.2.3.4")),
            ("domain_name".to_string(), item("{{ missing }}", false)),
            ("subnet_mask".to_string(), text("255.255.255.0")),
            ("ip_address_lease_time".to_string(), Node::Number(Num::Int(60))),
        ],
    });
    let packet = discover();
    let state = DhcpRestSource::query(&packet);
    let result = s.offer(&state.context).unwrap().unwrap();
    assert!(result.options().option(DOMAIN_NAME).is_none());
    assert_eq!(result.options().len(), 2);
    let verdict = Server::process(Phase::Offer, &packet, SourceAnswer::Found(result));
    let response = match verdict {
        Verdict::Respond(response) => response,
        other => panic!("an offer is due, not {:?}", other),
    };
    assert_eq!(response.kind, ResponseKind::Offer);
    assert_eq!(response.client_ip, Ipv4Address(1, 2, 3, 4));
    assert_eq!(response.lease_time, Some(60));
    assert!(response.options.option(DOMAIN_NAME).is_none());
    assert_eq!(
        response.options.try_ipv4_option(SUBNET_MASK).unwrap(),
        Ipv4Address(255, 255, 255, 0)
    );
}

#[test]
fn context_names_what_the_packet_gives() {
    let mut packet = discover();
    packet.client = Ipv4Address(10, 0, 0, 7);
    packet.server = Ipv4Address(10, 0, 0, 1);
    packet.options.upsert(DhcpOption::Named(12, OptionValue::Ascii("printer".to_string())));
    let state = DhcpRestSource::query(&packet);
    let mut s = source_with_offer(DhcpRestSourceConfigSchema {
        strict: false,
        scripts: vec![],
        queries: vec![],
        mapping: vec![
            ("client_ip_address".to_string(), text("{{ client_ip_address }}")),
            ("swap_server".to_string(), text("{{ server_ip_address }}")),
            ("host_name".to_string(), text("{{ client_hostname }}")),
            ("message".to_string(), text("{{ client_hardware_address }}")),
        ],
    });
    let result = s.offer(&state.context).unwrap().unwrap();
    assert_eq!(result.client_ip_address(), Some(Ipv4Address(10, 0, 0, 7)));
    assert_eq!(result.options().try_ipv4_option(16).unwrap(), Ipv4Address(10, 0, 0, 1));
    assert_eq!(result.options().try_ascii_option(12).unwrap(), "printer");
    assert_eq!(result.options().try_ascii_option(56).unwrap(), "01:02:03:05:06:07");
}

#[test]
fn request_is_acknowledged_with_what_the_mapping_names() {
    let mut s = source_with_offer(empty_phase());
    s.config.reserve.mapping = vec![
        ("client_ip_address".to_string(), text("10.1.2.3")),
        ("ip_address_lease_time".to_string(), Node::Number(Num::Int(600))),
        ("server_identifier".to_string(), text("dhcp.example")),
        ("boot_file_name".to_string(), text("pxelinux.0")),
        ("message".to_string(), text("welcome")),
        (
            "vendor_class_identifier".to_string(),
            Node::Sequence(vec![Node::Number(Num::Int(80)), Node::Number(Num::Int(88))]),
        ),
    ];
    let packet = discover();
    let state = DhcpRestSource::query(&packet);
    let result = s.reserve(&state.context).unwrap().unwrap();
    let response = match Server::process(Phase::Reserve, &packet, SourceAnswer::Found(result)) {
        Verdict::Respond(response) => response,
        other => panic!("an acknowledgement is due, not {:?}", other),
    };
    assert_eq!(response.kind, ResponseKind::Ack);
    assert_eq!(response.client_ip, Ipv4Address(10, 1, 2, 3));
    assert_eq!(response.lease_time, Some(600));
    assert_eq!(response.server_identifier, Some("dhcp.example".to_string()));
    assert_eq!(response.boot_file_name, Some("pxelinux.0".to_string()));
    assert_eq!(response.message, Some("welcome".to_string()));
    assert_eq!(response.vendor_class_identifier, Some(vec![80, 88]));
    assert_eq!(response.options.len(), 5);
}
