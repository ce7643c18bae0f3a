use dhcp_server::address::Ipv4Address;
use dhcp_server::error::OptionError;
use dhcp_server::option::{
    lookup_named_option, DhcpOption, DhcpOptions, OptionValue, Shape, BOOT_FILE_NAME,
    IP_ADDRESS_LEASE_TIME, ROUTER, SUBNET_MASK, VENDOR_CLASS_IDENTIFIER,
};
use dhcp_server::packet::{DhcpPacket, MessageType};
use dhcp_server::address::MacAddress;

fn lease(seconds: u32) -> DhcpOption {
    DhcpOption::Named(IP_ADDRESS_LEASE_TIME, OptionValue::U32(seconds))
}

#[test]
fn upsert_replaces_by_tag_and_keeps_the_order() {
    let mut options = DhcpOptions::new();
    assert_eq!(options.len(), 0);
    options.upsert(lease(10));
    options.upsert(DhcpOption::Unknown(200, vec![1]));
    options.upsert(DhcpOption::Named(SUBNET_MASK, OptionValue::Ipv4(Ipv4Address(255, 0, 0, 0))));
    assert_eq!(options.len(), 3);
    options.upsert(lease(20));
    assert_eq!(options.len(), 3);
    assert_eq!(options.option(IP_ADDRESS_LEASE_TIME), Some(&lease(20)));
    assert_eq!(options.option(200), Some(&DhcpOption::Unknown(200, vec![1])));
    assert_eq!(options.option(201), None);
    assert_eq!(
        options,
        DhcpOptions::new_with_options(vec![
            lease(20),
            DhcpOption::Unknown(200, vec![1]),
            DhcpOption::Named(SUBNET_MASK, OptionValue::Ipv4(Ipv4Address(255, 0, 0, 0))),
        ])
    );
}

#[test]
fn new_with_options_upserts_in_order() {
    let options = DhcpOptions::new_with_options(vec![
        lease(1),
        DhcpOption::Unknown(9, vec![]),
        lease(2),
        DhcpOption::Unknown(IP_ADDRESS_LEASE_TIME, vec![3]),
    ]);
    assert_eq!(options.len(), 2);
    assert_eq!(
        options.option(IP_ADDRESS_LEASE_TIME),
        Some(&DhcpOption::Unknown(IP_ADDRESS_LEASE_TIME, vec![3]))
    );
    let mut same = DhcpOptions::new();
    same.upsert(DhcpOption::Unknown(IP_ADDRESS_LEASE_TIME, vec![3]));
    same.upsert(DhcpOption::Unknown(9, vec![]));
    assert_eq!(options, same);
}

#[test]
fn typed_getters_go_by_the_shape() {
    let options = DhcpOptions::new_with_options(vec![
        lease(3600),
        DhcpOption::Named(BOOT_FILE_NAME, OptionValue::Ascii("pxelinux.0".to_string())),
        DhcpOption::Named(VENDOR_CLASS_IDENTIFIER, OptionValue::Bytes(vec![1, 2, 3])),
        DhcpOption::Named(SUBNET_MASK, OptionValue::Ipv4(Ipv4Address(255, 255, 0, 0))),
        DhcpOption::Named(ROUTER, OptionValue::Ipv4List(vec![Ipv4Address(1, 1, 1, 1)])),
        DhcpOption::Unknown(222, vec![9, 8]),
    ]);
    assert_eq!(options.try_u32_option(IP_ADDRESS_LEASE_TIME), Ok(3600));
    assert_eq!(options.try_ascii_option(BOOT_FILE_NAME), Ok("pxelinux.0".to_string()));
    assert_eq!(options.try_vec_u8_option(VENDOR_CLASS_IDENTIFIER), Ok(vec![1, 2, 3]));
    assert_eq!(options.try_vec_u8_option(222), Ok(vec![9, 8]));
    assert_eq!(options.try_ipv4_option(SUBNET_MASK), Ok(Ipv4Address(255, 255, 0, 0)));
    assert_eq!(options.try_ipv4vec_option(ROUTER), Ok(vec![Ipv4Address(1, 1, 1, 1)]));

    assert_eq!(options.try_u32_option(SUBNET_MASK), Err(OptionError::WrongShape(SUBNET_MASK)));
    assert_eq!(options.try_ascii_option(222), Err(OptionError::WrongShape(222)));
    assert_eq!(options.try_vec_u8_option(ROUTER), Err(OptionError::WrongShape(ROUTER)));
    assert_eq!(options.try_ipv4_option(ROUTER), Err(OptionError::WrongShape(ROUTER)));
    assert_eq!(
        options.try_ipv4vec_option(SUBNET_MASK),
        Err(OptionError::WrongShape(SUBNET_MASK))
    );
    assert_eq!(options.try_u32_option(58), Err(OptionError::Missing(58)));
    assert_eq!(options.try_ascii_option(12), Err(OptionError::Missing(12)));
    assert_eq!(options.try_vec_u8_option(61), Err(OptionError::Missing(61)));
    assert_eq!(options.try_ipv4_option(16), Err(OptionError::Missing(16)));
    assert_eq!(options.try_ipv4vec_option(6), Err(OptionError::Missing(6)));
}

#[test]
fn catalogue_names_tag_and_shape() {
    assert_eq!(lookup_named_option("subnet_mask"), Some((1, Shape::Ipv4)));
    assert_eq!(lookup_named_option("time_offset"), Some((2, Shape::U32)));
    assert_eq!(lookup_named_option("router"), Some((3, Shape::Ipv4List)));
    assert_eq!(lookup_named_option("host_name"), Some((12, Shape::Ascii)));
    assert_eq!(lookup_named_option("boot_file_size"), Some((13, Shape::U16)));
    assert_eq!(lookup_named_option("ip_forwarding"), Some((19, Shape::U8)));
    assert_eq!(lookup_named_option("mask_supplier"), Some((30, Shape::U8)));
    assert_eq!(lookup_named_option("vendor_specific"), Some((43, Shape::Bytes)));
    assert_eq!(lookup_named_option("ip_address_lease_time"), Some((51, Shape::U32)));
    assert_eq!(lookup_named_option("message_type"), Some((53, Shape::U8)));
    assert_eq!(lookup_named_option("server_identifier"), Some((54, Shape::Ascii)));
    assert_eq!(lookup_named_option("vendor_class_identifier"), Some((60, Shape::Bytes)));
    assert_eq!(lookup_named_option("client_identifier"), Some((61, Shape::Bytes)));
    assert_eq!(
        lookup_named_option("network_information_service_plus_domain"),
        Some((64, Shape::Ascii))
    );
    assert_eq!(lookup_named_option("boot_file_name"), Some((67, Shape::Ascii)));
    assert_eq!(
        lookup_named_option("street_talk_directory_assistance_server"),
        Some((76, Shape::Ipv4List))
    );
    assert_eq!(lookup_named_option("client_ip_address"), None);
    assert_eq!(lookup_named_option("Subnet_Mask"), None);
    assert_eq!(lookup_named_option("custom1"), None);
    assert_eq!(lookup_named_option(""), None);
}

#[test]
fn every_catalogue_name_has_its_own_tag() {
    let names = [
        "subnet_mask", "time_offset", "router", "time_server", "name_server",
        "domain_name_server", "log_server", "cookie_server", "lpr_server", "impress_server",
        "resource_location_server", "host_name", "boot_file_size", "merit_dump_file",
        "domain_name", "swap_server", "root_path", "extension_path", "ip_forwarding",
        "non_local_source_routing", "policy_filter", "maximum_datagram_reassembly_size",
        "default_ip_ttl", "path_mtu_aging_timeout", "path_mtu_plateau_table", "interface_mtu",
        "all_subnets_local", "broadcast_address", "mask_supplier", "perform_router_discovery",
        "router_solicitation_address", "static_route", "trailer_encapsulation",
        "arp_cache_timeout", "ethernet_encapsulation", "tcp_default_ttl",
        "tcp_keep_alive_interval", "tcp_keep_alive_garbage",
        "network_information_service_domain", "network_information_servers",
        "network_time_protocol_servers", "vendor_specific", "net_bios_over_tcp_ip_name_server",
        "net_bios_over_tcp_ip_datagram_distribution_server", "net_bios_over_tcp_ip_node_type",
        "net_bios_over_tcp_ip_scope", "x_window_system_font_server",
        "x_window_system_display_manager", "requested_ip_address", "ip_address_lease_time",
        "option_overload", "message_type", "server_identifier", "parameter_request_list",
        "message", "maximum_dhcp_message_size", "renewal_time_value", "rebinding_time_value",
        "vendor_class_identifier", "client_identifier",
        "network_information_service_plus_domain", "network_information_service_plus_server",
        "tftp_server", "boot_file_name", "mobile_ip_home_agent", "smtp_server", "pop3_server",
        "nntp_server", "www_server", "finger_server", "irc_server", "street_talk_server",
        "street_talk_directory_assistance_server",
    ];
    assert_eq!(names.len(), 73);
    let mut tags: Vec<u8> = names.iter().map(|n| lookup_named_option(n).unwrap().0).collect();
    tags.sort();
    tags.dedup();
    assert_eq!(tags.len(), 73);
}

#[test]
fn packet_states_type_and_host_name() {
    let mut packet = DhcpPacket {
        xid: 1,
        client: Ipv4Address(0, 0, 0, 0),
        your: Ipv4Address(0, 0, 0, 0),
        server: Ipv4Address(0, 0, 0, 0),
        gateway: Ipv4Address(0, 0, 0, 0),
        client_hardware: MacAddress(0, 1, 2, 3, 4, 5),
        options: DhcpOptions::new(),
    };
    assert_eq!(packet.message_type(), None);
    assert_eq!(packet.hostname(), None);
    assert_eq!(packet.client_hardware(), MacAddress(0, 1, 2, 3, 4, 5));
    packet.options.upsert(DhcpOption::Named(53, OptionValue::U8(3)));
    packet.options.upsert(DhcpOption::Named(12, OptionValue::Ascii("host".to_string())));
    assert_eq!(packet.message_type(), Some(MessageType::Request));
    assert_eq!(packet.hostname(), Some("host".to_string()));
    packet.options.upsert(DhcpOption::Named(53, OptionValue::U8(9)));
    assert_eq!(packet.message_type(), None);
    packet.options.upsert(DhcpOption::Unknown(53, vec![1]));
    assert_eq!(packet.message_type(), None);
}

#[test]
fn message_type_codes() {
    let all = [
        MessageType::Discover,
        MessageType::Offer,
        MessageType::Request,
        MessageType::Decline,
        MessageType::Ack,
        MessageType::Nak,
        MessageType::Release,
        MessageType::Inform,
    ];
    for (i, t) in all.iter().enumerate() {
        assert_eq!(MessageType::from_code(i as u8 + 1), Some(*t));
    }
    assert_eq!(MessageType::from_code(0), None);
    assert_eq!(MessageType::from_code(9), None);
    assert_eq!(MessageType::from_code(255), None);
}
