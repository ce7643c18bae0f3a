use dhcp_server::address::{Ipv4Address, MacAddress};
use dhcp_server::config::{DhcpConfig, DhcpConfigOptions, Sources, Verbosity};
use dhcp_server::error::{DhcpError, OptionError};
use dhcp_server::sources::cache::DhcpRestSourceHttp;
use dhcp_server::sources::rest::{
    DhcpRestConfigSchemaQuery, DhcpRestSourceConfig, DhcpRestSourceConfigSchema, HttpMethod,
};
use dhcp_server::value::Node;

fn empty_phase() -> DhcpRestSourceConfigSchema {
    DhcpRestSourceConfigSchema { strict: false, scripts: vec![], queries: vec![], mapping: vec![] }
}

fn source(kind: &str, header: Option<(&str, &str)>) -> Sources {
    let queries = match header {
        None => vec![],
        Some((name, value)) => vec![DhcpRestConfigSchemaQuery {
            url: "http://example.com/".to_string(),
            name: "q".to_string(),
            ssl_verify: true,
            headers: Some(vec![(name.to_string(), value.to_string())]),
            cache: DhcpRestSourceHttp::new(0),
            method: HttpMethod::Get,
            body: Node::Null,
        }],
    };
    Sources {
        kind: kind.to_string(),
        config: DhcpRestSourceConfig {
            offer: DhcpRestSourceConfigSchema { strict: false, scripts: vec![], queries, mapping: vec![] },
            reserve: empty_phase(),
            release: empty_phase(),
            decline: empty_phase(),
            inform: empty_phase(),
        },
    }
}

#[test]
fn port_defaults_to_67() {
    assert_eq!(DhcpConfig::default_port(), 67);
    assert_eq!(DhcpConfig::new(None, None, vec![]).port(), 67);
    assert_eq!(DhcpConfig::new(Some(6767), None, vec![]).port(), 6767);
}

#[test]
fn listed_addresses_are_given_back() {
    assert_eq!(DhcpConfig::new(None, None, vec![]).ips(), None);
    let listed = vec![Ipv4Address(10, 0, 0, 1)];
    assert_eq!(DhcpConfig::new(None, Some(listed.clone()), vec![]).ips(), Some(&listed));
}

#[test]
fn sources_are_built_in_order() {
    let mut config = DhcpConfig::new(
        None,
        None,
        vec![source("rest", Some(("a", "1"))), source("rest", None), source("rest", Some(("b", "2")))],
    );
    let sources = config.init_sources().unwrap();
    assert_eq!(sources.len(), 3);
    assert_eq!(sources[0].config.offer.queries[0].headers, Some(vec![("a".to_string(), "1".to_string())]));
    assert!(sources[1].config.offer.queries.is_empty());
    assert_eq!(sources[2].config.offer.queries[0].headers, Some(vec![("b".to_string(), "2".to_string())]));
    assert!(config.init_sources().unwrap().is_empty());
}

#[test]
fn unknown_kind_of_source_is_an_error() {
    let mut config = DhcpConfig::new(None, None, vec![source("rest", None), source("ldap", None)]);
    assert!(matches!(config.init_sources(), Err(DhcpError::SourceKindUnknown)));
    let mut config = DhcpConfig::new(None, None, vec![source("REST", None)]);
    assert!(matches!(config.init_sources(), Err(DhcpError::SourceKindUnknown)));
    let mut config = DhcpConfig::new(None, None, vec![source("rest", Some(("a b", "1")))]);
    assert!(matches!(config.init_sources(), Err(DhcpError::InvalidHeaderName(_))));
    let mut config = DhcpConfig::new(None, None, vec![source("rest", Some(("a", "\n")))]);
    assert!(matches!(config.init_sources(), Err(DhcpError::InvalidHeaderValue(_))));
}

#[test]
fn configuration_path_is_chosen_in_order() {
    let named = DhcpConfigOptions::new(Some("/etc/dhcp.yml".to_string()), Verbosity::Debug);
    assert_eq!(named.config(false, false), Some("/etc/dhcp.yml"));
    assert_eq!(named.config(true, true), Some("/etc/dhcp.yml"));
    assert_eq!(named.verbosity(), Verbosity::Debug);
    let unnamed = DhcpConfigOptions::new(None, Verbosity::default());
    assert_eq!(unnamed.config(true, true), Some("./config.yml"));
    assert_eq!(unnamed.config(true, false), Some("./config.yml"));
    assert_eq!(unnamed.config(false, true), Some("./config.yaml"));
    assert_eq!(unnamed.config(false, false), None);
    assert_eq!(unnamed.verbosity(), Verbosity::Info);
    assert!(matches!(named.config_path(false, false), Ok("/etc/dhcp.yml")));
    assert!(matches!(unnamed.config_path(false, true), Ok("./config.yaml")));
    assert!(matches!(unnamed.config_path(false, false), Err(DhcpError::ConfigFileNotFound)));
}

#[test]
fn errors_have_messages() {
    assert_eq!(DhcpError::SourceKindUnknown.message(), "Source unknown");
    assert_eq!(DhcpError::CustomRestTypeError.message(), "Custom option type error");
    assert_eq!(DhcpError::ConfigFileNotFound.message(), "no config file found");
    assert_eq!(DhcpError::SerdeErrorString("bad".to_string()).message(), "bad");
    assert_eq!(
        DhcpError::ClientIpAddressMissing(MacAddress(1, 2, 3, 0xa, 0xb, 0xc)).message(),
        "01:02:03:0A:0B:0C"
    );
    assert_eq!(
        DhcpError::DhcpLibError(OptionError::Missing(51)).message(),
        "option 51 is missing"
    );
    assert_eq!(
        DhcpError::DhcpLibError(OptionError::WrongShape(255)).message(),
        "option 255 has another type"
    );
    assert_eq!(OptionError::Missing(0).message(), "option 0 is missing");
    let yaml = serde_yaml::from_str::<serde_yaml::Value>("[1").unwrap_err();
    let shown = yaml.to_string();
    assert_eq!(DhcpError::SerdeYamlError(yaml).message(), shown);
    let template = tera::Tera::one_off("{{ x", &tera::Context::new(), false).unwrap_err();
    let shown = template.to_string();
    assert_eq!(DhcpError::TeraError(template).message(), shown);
    let url = url::Url::parse("/relative").unwrap_err();
    assert_eq!(DhcpError::UrlError(url).message(), "relative URL without a base");
}
