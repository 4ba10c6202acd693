use hyperlink_protocol::discovery::advertisement;

#[test]
fn advertisement_names_and_properties() {
    let ad = advertisement("Office", 9900);
    assert_eq!(ad.service_type, "_hyperlink._udp.local.");
    assert_eq!(ad.instance_name, "Office-host");
    assert_eq!(ad.host_name, "hyperlink-host.local.");
    assert_eq!(ad.fullname, "Office-host._hyperlink._udp.local.");
    assert_eq!(ad.port, 9900);
    assert_eq!(
        ad.properties,
        vec![
            ("device_name".to_string(), "Office".to_string()),
            ("version".to_string(), "1".to_string()),
        ]
    );
}
