use key_resolver::config::GatewayConfig;

#[test]
fn defaults_fill_absent_variables() {
    let c = GatewayConfig::from_lookups(None, None, None);
    assert_eq!(c.port.as_str(), "7878");
    assert_eq!(c.allowed_origin.as_str(), "*");
    assert_eq!(c.version.as_str(), "1.0.0-dev");
}

#[test]
fn supplied_variables_are_kept() {
    let c = GatewayConfig::from_lookups(
        Some(String::from("9000")),
        Some(String::from("https://app.example")),
        Some(String::from("2.1.0")),
    );
    assert_eq!(c.port.as_str(), "9000");
    assert_eq!(c.allowed_origin.as_str(), "https://app.example");
    assert_eq!(c.version.as_str(), "2.1.0");
}

#[test]
fn bind_address_uses_configured_port() {
    let c = GatewayConfig::from_lookups(Some(String::from("9000")), None, None);
    assert_eq!(c.bind_address().as_str(), "0.0.0.0:9000");
    let d = GatewayConfig::from_lookups(None, None, None);
    assert_eq!(d.bind_address().as_str(), "0.0.0.0:7878");
}
