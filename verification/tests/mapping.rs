use dhcp_server::address::Ipv4Address;
use dhcp_server::error::DhcpError;
use dhcp_server::option::{DhcpOption, OptionValue, Shape};
use dhcp_server::sources::mapping::{decode, map_entry, Mapped};
use dhcp_server::sources::rest::{
    DhcpRestMappingItem, DhcpRestMappingItemCustom, DhcpRestMappingItemCustomKind,
    DhcpRestSourceConfigSchema,
};
use dhcp_server::value::{Node, Num};

fn text(s: &str) -> Node {
    Node::String(s.to_string())
}

fn whole(i: i64) -> Node {
    Node::Number(Num::Int(i))
}

fn mapping(entries: Vec<(&str, Node)>) -> Node {
    Node::Mapping(entries.into_iter().map(|(k, v)| (text(k), v)).collect())
}

fn phase(entries: Vec<(&str, Node)>) -> DhcpRestSourceConfigSchema {
    DhcpRestSourceConfigSchema {
        strict: false,
        scripts: vec![],
        queries: vec![],
        mapping: entries.into_iter().map(|(k, v)| (k.to_string(), v)).collect(),
    }
}

#[test]
fn required_is_read_off_the_mapping() {
    let required = DhcpRestSourceConfigSchema::is_required;
    assert!(required(&mapping(vec![("data", whole(1)), ("required", Node::Bool(true))])));
    assert!(required(&mapping(vec![("required", Node::Bool(true))])));
    assert!(!required(&mapping(vec![("data", whole(1)), ("required", Node::Bool(false))])));
    assert!(!required(&mapping(vec![("data", whole(1))])));
    assert!(!required(&mapping(vec![("required", text("true"))])));
    assert!(!required(&mapping(vec![("required", whole(1))])));
    assert!(!required(&text("required")));
    assert!(!required(&Node::Bool(true)));
    assert!(!required(&Node::Sequence(vec![text("required"), Node::Bool(true)])));
    assert!(!required(&Node::Mapping(vec![(Node::Bool(true), Node::Bool(true))])));
}

#[test]
fn values_decode_by_the_shape() {
    assert_eq!(decode(Shape::Ipv4, &text("10.0.0.1")), Some(OptionValue::Ipv4(Ipv4Address(10, 0, 0, 1))));
    assert_eq!(decode(Shape::Ipv4, &text("10.0.0")), None);
    assert_eq!(decode(Shape::Ipv4, &whole(10)), None);
    assert_eq!(
        decode(Shape::Ipv4List, &Node::Sequence(vec![text("1.1.1.1"), text("2.2.2.2")])),
        Some(OptionValue::Ipv4List(vec![Ipv4Address(1, 1, 1, 1), Ipv4Address(2, 2, 2, 2)]))
    );
    assert_eq!(decode(Shape::Ipv4List, &Node::Sequence(vec![])), Some(OptionValue::Ipv4List(vec![])));
    assert_eq!(decode(Shape::Ipv4List, &Node::Sequence(vec![text("1.1.1.1"), whole(2)])), None);
    assert_eq!(decode(Shape::Ipv4List, &text("1.1.1.1")), None);
    assert_eq!(decode(Shape::U8, &whole(0)), Some(OptionValue::U8(0)));
    assert_eq!(decode(Shape::U8, &whole(255)), Some(OptionValue::U8(255)));
    assert_eq!(decode(Shape::U8, &whole(256)), None);
    assert_eq!(decode(Shape::U8, &whole(-1)), None);
    assert_eq!(decode(Shape::U16, &whole(65535)), Some(OptionValue::U16(65535)));
    assert_eq!(decode(Shape::U16, &whole(65536)), None);
    assert_eq!(decode(Shape::U32, &whole(4294967295)), Some(OptionValue::U32(u32::MAX)));
    assert_eq!(decode(Shape::U32, &whole(4294967296)), None);
    assert_eq!(decode(Shape::U32, &Node::Number(Num::UInt(u64::MAX))), None);
    assert_eq!(decode(Shape::U32, &Node::Number(Num::Float(1f64.to_bits()))), None);
    assert_eq!(decode(Shape::U32, &text("5")), None);
    assert_eq!(decode(Shape::Ascii, &text("boot.img")), Some(OptionValue::Ascii("boot.img".to_string())));
    assert_eq!(decode(Shape::Ascii, &text("")), Some(OptionValue::Ascii(String::new())));
    assert_eq!(decode(Shape::Ascii, &text("bööt")), None);
    assert_eq!(decode(Shape::Ascii, &whole(1)), None);
    assert_eq!(
        decode(Shape::Bytes, &Node::Sequence(vec![whole(0), whole(127), whole(255)])),
        Some(OptionValue::Bytes(vec![0, 127, 255]))
    );
    assert_eq!(decode(Shape::Bytes, &Node::Sequence(vec![whole(0), whole(256)])), None);
    assert_eq!(decode(Shape::Bytes, &text("abc")), None);
}

#[test]
fn mapping_items_are_bare_or_wrapped() {
    let item = DhcpRestMappingItem::try_from(&text("bare")).unwrap();
    assert_eq!(item.data, text("bare"));
    assert!(!item.required);
    let item = DhcpRestMappingItem::try_from(&Node::Sequence(vec![whole(1)])).unwrap();
    assert_eq!(item.data, Node::Sequence(vec![whole(1)]));
    let item =
        DhcpRestMappingItem::try_from(&mapping(vec![("data", whole(7)), ("required", Node::Bool(true))]))
            .unwrap();
    assert_eq!(item.data, whole(7));
    assert!(item.required);
    let item = DhcpRestMappingItem::try_from(&mapping(vec![("data", Node::Null)])).unwrap();
    assert_eq!(item.data, Node::Null);
    assert!(!item.required);
    assert!(matches!(
        DhcpRestMappingItem::try_from(&mapping(vec![("required", Node::Bool(true))])),
        Err(DhcpError::SerdeErrorString(_))
    ));
    assert!(matches!(
        DhcpRestMappingItem::try_from(&mapping(vec![("data", whole(1)), ("required", text("yes"))])),
        Err(DhcpError::SerdeErrorString(_))
    ));
}

#[test]
fn custom_items_need_tag_and_data() {
    let custom = DhcpRestMappingItemCustom::try_from(&mapping(vec![
        ("tag", whole(200)),
        ("kind", text("integer")),
        ("data", whole(5)),
        ("required", Node::Bool(true)),
    ]))
    .unwrap();
    assert_eq!(custom.tag, 200);
    assert_eq!(custom.kind, DhcpRestMappingItemCustomKind::Integer);
    assert_eq!(custom.item.data, whole(5));
    assert!(custom.item.required);

    let custom =
        DhcpRestMappingItemCustom::try_from(&mapping(vec![("tag", whole(0)), ("data", Node::Null)]))
            .unwrap();
    assert_eq!(custom.kind, DhcpRestMappingItemCustomKind::default());
    assert_eq!(custom.kind, DhcpRestMappingItemCustomKind::Untyped);
    assert!(!custom.item.required);

    for (name, kind) in [
        ("string", DhcpRestMappingItemCustomKind::String),
        ("str", DhcpRestMappingItemCustomKind::String),
        ("bool", DhcpRestMappingItemCustomKind::Bool),
        ("integer", DhcpRestMappingItemCustomKind::Integer),
        ("none", DhcpRestMappingItemCustomKind::Untyped),
    ] {
        let custom = DhcpRestMappingItemCustom::try_from(&mapping(vec![
            ("tag", whole(1)),
            ("kind", text(name)),
            ("data", Node::Null),
        ]))
        .unwrap();
        assert_eq!(custom.kind, kind);
    }

    for bad in [
        mapping(vec![("data", whole(5))]),
        mapping(vec![("tag", whole(256)), ("data", whole(5))]),
        mapping(vec![("tag", whole(-1)), ("data", whole(5))]),
        mapping(vec![("tag", text("5")), ("data", whole(5))]),
        mapping(vec![("tag", whole(5))]),
        mapping(vec![("tag", whole(5)), ("kind", text("float")), ("data", whole(5))]),
        mapping(vec![("tag", whole(5)), ("kind", text("Integer")), ("data", whole(5))]),
        mapping(vec![("tag", whole(5)), ("kind", whole(1)), ("data", whole(5))]),
        mapping(vec![("tag", whole(5)), ("data", whole(5)), ("required", whole(1))]),
        text("5"),
        Node::Null,
    ] {
        assert!(matches!(
            DhcpRestMappingItemCustom::try_from(&bad),
            Err(DhcpError::SerdeErrorString(_))
        ));
    }
}

#[test]
fn custom_item_becomes_an_unknown_option() {
    let custom = DhcpRestMappingItemCustom::try_from(&mapping(vec![
        ("tag", whole(200)),
        ("kind", text("bool")),
        ("data", whole(1234567890)),
    ]))
    .unwrap();
    assert_eq!(
        custom.try_into().unwrap(),
        DhcpOption::Unknown(200, vec![0, 0, 0, 0, 73, 150, 2, 210])
    );
    let custom = DhcpRestMappingItemCustom::try_from(&mapping(vec![
        ("tag", whole(201)),
        ("data", Node::Sequence(vec![whole(1)])),
    ]))
    .unwrap();
    assert!(matches!(custom.try_into(), Err(DhcpError::CustomRestTypeError)));
}

#[test]
fn entries_map_by_their_name() {
    assert!(matches!(
        map_entry("client_ip_address", &text("1.2.3.4")),
        Ok(Mapped::Address(Ipv4Address(1, 2, 3, 4)))
    ));
    assert!(matches!(
        map_entry("client_ip_address", &mapping(vec![("data", text("1.2.3.4"))])),
        Err(DhcpError::SerdeErrorString(_))
    ));
    assert!(matches!(
        map_entry("client_ip_address", &text("1.2.3")),
        Err(DhcpError::SerdeErrorString(_))
    ));
    match map_entry("subnet_mask", &text("255.255.255.0")) {
        Ok(Mapped::Setting(option)) => assert_eq!(
            option,
            DhcpOption::Named(1, OptionValue::Ipv4(Ipv4Address(255, 255, 255, 0)))
        ),
        other => panic!("{:?}", other),
    }
    match map_entry("ip_address_lease_time", &mapping(vec![("data", whole(3600))])) {
        Ok(Mapped::Setting(option)) => {
            assert_eq!(option, DhcpOption::Named(51, OptionValue::U32(3600)))
        }
        other => panic!("{:?}", other),
    }
    assert!(matches!(
        map_entry("ip_address_lease_time", &text("soon")),
        Err(DhcpError::SerdeErrorString(_))
    ));
    match map_entry("my_option", &mapping(vec![("tag", whole(224)), ("data", text("ab"))])) {
        Ok(Mapped::Setting(option)) => assert_eq!(option, DhcpOption::Unknown(224, vec![97, 98])),
        other => panic!("{:?}", other),
    }
    assert!(matches!(
        map_entry("my_option", &mapping(vec![("tag", whole(224)), ("data", mapping(vec![]))])),
        Err(DhcpError::CustomRestTypeError)
    ));
    assert!(matches!(map_entry("my_option", &text("ab")), Err(DhcpError::SerdeErrorString(_))));
}

#[test]
fn mapping_gives_address_and_options() {
    let mut p = phase(vec![
        ("router", Node::Sequence(vec![text("10.0.0.1")])),
        ("client_ip_address", text("10.0.0.50")),
        ("ip_address_lease_time", whole(60)),
        ("router", Node::Sequence(vec![text("10.0.0.2")])),
        ("extra", mapping(vec![("tag", whole(51)), ("data", Node::Bool(true))])),
    ]);
    let result = p.context_to_result(&tera::Context::new()).unwrap();
    assert_eq!(result.client_ip_address(), Some(Ipv4Address(10, 0, 0, 50)));
    assert_eq!(result.options().len(), 2);
    assert_eq!(
        result.options().try_ipv4vec_option(3).unwrap(),
        vec![Ipv4Address(10, 0, 0, 2)]
    );
    assert_eq!(result.options().option(51), Some(&DhcpOption::Unknown(51, vec![1])));
    let options = result.into_options();
    assert_eq!(options.len(), 2);
}

#[test]
fn entries_that_fail_are_left_out_unless_required() {
    let mut context = tera::Context::new();
    context.insert("word", "text");
    let mut p = phase(vec![
        ("subnet_mask", text("{{ missing }}")),
        ("router", text("{{ word }}")),
        ("boot_file_size", mapping(vec![("data", whole(70000)), ("required", Node::Bool(false))])),
        ("custom", mapping(vec![("tag", whole(9)), ("data", Node::Sequence(vec![]))])),
        ("host_name", text("{{ word }}")),
    ]);
    let result = p.context_to_result(&context).unwrap();
    assert_eq!(result.client_ip_address(), None);
    assert_eq!(result.options().len(), 1);
    assert_eq!(result.options().try_ascii_option(12).unwrap(), "text");
    assert_eq!(p.mapping[0].1, text("{{ missing }}"));
    assert_eq!(p.mapping[1].1, text("text"));

    let mut p = phase(vec![
        ("host_name", text("first")),
        ("subnet_mask", mapping(vec![("data", text("{{ missing }}")), ("required", Node::Bool(true))])),
        ("domain_name", text("{{ word }}")),
    ]);
    assert!(matches!(p.context_to_result(&context), Err(DhcpError::SerdeYamlError(_))));
    assert_eq!(p.mapping[2].1, text("{{ word }}"));

    let mut p = phase(vec![
        ("host_name", text("first")),
        ("subnet_mask", mapping(vec![("data", text("{{ missing }}")), ("required", Node::Bool(true))])),
        ("domain_name", text("{{ word }}")),
    ]);
    p.strict = true;
    assert!(matches!(p.context_to_result(&context), Err(DhcpError::TeraError(_))));
    assert_eq!(p.mapping[2].1, text("{{ word }}"));

    let mut p = phase(vec![(
        "host_name",
        mapping(vec![("data", text("pc{{ missing }}")), ("required", Node::Bool(true))]),
    )]);
    let result = p.context_to_result(&context).unwrap();
    assert_eq!(result.options().try_ascii_option(12).unwrap(), "pc");

    let mut p = phase(vec![(
        "subnet_mask",
        mapping(vec![("data", text("{{ word }}")), ("required", Node::Bool(true))]),
    )]);
    assert!(matches!(p.context_to_result(&context), Err(DhcpError::SerdeErrorString(_))));

    let mut p = phase(vec![(
        "custom",
        mapping(vec![
            ("tag", whole(9)),
            ("data", Node::Sequence(vec![])),
            ("required", Node::Bool(true)),
        ]),
    )]);
    assert!(matches!(p.context_to_result(&context), Err(DhcpError::CustomRestTypeError)));

    let mut p = phase(vec![("client_ip_address", text("{{ word }}"))]);
    assert!(matches!(p.context_to_result(&context), Err(DhcpError::SerdeErrorString(_))));
}

#[test]
fn mapping_values_are_expanded_in_place() {
    let mut context = tera::Context::new();
    context.insert("mask", "255.0.0.0");
    let mut p = phase(vec![("subnet_mask", mapping(vec![("data", text("{{ mask }}"))]))]);
    p.context_to_result(&context).unwrap();
    assert_eq!(p.mapping[0].1, mapping(vec![("data", text("255.0.0.0"))]));
    let mut other = tera::Context::new();
    other.insert("mask", "255.255.0.0");
    let result = p.context_to_result(&other).unwrap();
    assert_eq!(result.options().try_ipv4_option(1).unwrap(), Ipv4Address(255, 0, 0, 0));
}
