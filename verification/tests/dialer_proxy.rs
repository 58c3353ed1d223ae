use clashrw::get_name;
use clashrw::parser::Proxy;

fn make_proxy_value(dialer_proxy: Option<&str>) -> serde_yaml::Value {
    let mut yaml = format!(
        "name: test\ntype: ss\nserver: 1.2.3.4\nport: 443\ncipher: aes-256-gcm\npassword: pass\nudp: true\n"
    );
    if let Some(dp) = dialer_proxy {
        yaml.push_str(&format!("dialer-proxy: {dp}\n"));
    }
    serde_yaml::from_str(&yaml).unwrap()
}

fn get_dialer_proxy(value: &serde_yaml::Value) -> Option<String> {
    value
        .as_mapping()
        .and_then(|m| m.get(&serde_yaml::Value::String("dialer-proxy".into())))
        .and_then(|v| v.as_str())
        .map(|s| s.to_string())
}

#[test]
fn replace_dialer_proxy_with_placeholder() {
    let mut value = make_proxy_value(Some("<PlaceHold>"));
    Proxy::replace_dialer_proxy(&mut value, "my-proxy");
    assert_eq!(get_dialer_proxy(&value).as_deref(), Some("my-proxy"));
}

#[test]
fn replace_dialer_proxy_skips_different_value() {
    let mut value = make_proxy_value(Some("other-proxy"));
    Proxy::replace_dialer_proxy(&mut value, "my-proxy");
    assert_eq!(get_dialer_proxy(&value).as_deref(), Some("other-proxy"));
}

#[test]
fn replace_dialer_proxy_skips_when_absent() {
    let mut value = make_proxy_value(None);
    Proxy::replace_dialer_proxy(&mut value, "my-proxy");
    assert_eq!(get_dialer_proxy(&value), None);
}

#[test]
fn replace_dialer_proxy_keeps_the_other_fields() {
    let mut value = make_proxy_value(Some("<PlaceHold>"));
    let mut expected = make_proxy_value(Some("my-proxy"));
    Proxy::replace_dialer_proxy(&mut value, "my-proxy");
    assert_eq!(value, expected);
    Proxy::replace_dialer_proxy(&mut expected, "again");
    assert_eq!(get_dialer_proxy(&expected).as_deref(), Some("my-proxy"));
}

#[test]
fn replace_dialer_proxy_leaves_a_scalar_alone() {
    let mut value = serde_yaml::Value::String("<PlaceHold>".into());
    Proxy::replace_dialer_proxy(&mut value, "my-proxy");
    assert_eq!(value, serde_yaml::Value::String("<PlaceHold>".into()));
}

#[test]
fn get_name_reads_the_name_of_a_mapping() {
    assert_eq!(get_name(&make_proxy_value(None)), Some("test".to_string()));
}

#[test]
fn get_name_of_other_values_is_none() {
    assert_eq!(get_name(&serde_yaml::Value::String("test".into())), None);
    let unnamed: serde_yaml::Value = serde_yaml::from_str("type: ss\n").unwrap();
    assert_eq!(get_name(&unnamed), None);
    let numbered: serde_yaml::Value = serde_yaml::from_str("name: 12\n").unwrap();
    assert_eq!(get_name(&numbered), None);
}

#[test]
fn get_name_does_not_look_through_tags() {
    let tagged: serde_yaml::Value = serde_yaml::from_str("name: !tag test\n").unwrap();
    assert_eq!(get_name(&tagged), None);
}

fn yaml(text: &str) -> serde_yaml::Value {
    serde_yaml::from_str(text).unwrap()
}

#[test]
fn the_password_of_the_document_decides() {
    assert!(!Proxy::has_empty_password(&make_proxy_value(None)));
    assert!(Proxy::has_empty_password(&yaml("name: n\npassword: ''\n")));
    assert!(Proxy::has_empty_password(&yaml("name: n\ntype: ss\n")));
    assert!(!Proxy::has_empty_password(&yaml("name: n\npassword: 12345\n")));
    assert!(!Proxy::has_empty_password(&yaml("name: n\npassword: ' '\n")));
    assert!(Proxy::has_empty_password(&serde_yaml::Value::String("password".into())));
}

#[test]
fn an_incomplete_record_with_empty_password_is_a_template() {
    let incomplete = yaml("name: half\ntype: ss\nserver: h\nport: 1\npassword: ''\n");
    assert!(Proxy::has_empty_password(&incomplete));
    assert_eq!(Proxy::is_empty_password(incomplete), Some("half".to_string()));
}

#[test]
fn is_empty_password_names_the_template() {
    assert_eq!(Proxy::is_empty_password(make_proxy_value(None)), None);
    assert_eq!(Proxy::is_empty_password(yaml("name: n\npassword: ''\n")), Some("n".to_string()));
    assert_eq!(Proxy::is_empty_password(yaml("password: ''\n")), None);
    assert_eq!(Proxy::is_empty_password(yaml("name: n\n")), Some("n".to_string()));
}

#[test]
fn the_closed_form_holds_its_password() {
    let proxy = Proxy::new(
        "n".into(),
        "ss".into(),
        "1.2.3.4".into(),
        443,
        "aes".into(),
        "pw".into(),
        None,
        true,
    );
    assert_eq!(proxy.password(), "pw");
    assert_eq!(proxy.clone().password(), "pw");
}
