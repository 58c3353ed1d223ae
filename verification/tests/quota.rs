use clashrw::parser::OverridableValue;

fn unset() -> OverridableValue {
    OverridableValue::new(None, None, None, None)
}

#[test]
fn override_total_only() {
    let ov = OverridableValue::new(None, Some(999), None, None);
    assert_eq!(
        ov.rewrite("upload=1;download=2;total=3;expire=100".to_string()),
        "upload=1;download=2;total=999;expire=100"
    );
}

#[test]
fn override_every_field() {
    let ov = OverridableValue::new(Some(4), Some(3), Some(2), Some(18446744073709551615));
    assert_eq!(
        ov.rewrite("upload=1; download=9; total=0;expire=;other=5".to_string()),
        "upload=18446744073709551615; download=2; total=3;expire=4;other=5"
    );
    assert_eq!(ov.expire(), Some(4));
    assert_eq!(ov.total(), Some(3));
    assert_eq!(ov.download(), Some(2));
    assert_eq!(ov.upload(), Some(18446744073709551615));
}

#[test]
fn unset_override_is_the_identity() {
    for input in [
        "",
        "total=3",
        "upload=1;download=2;total=3",
        "a;b;;c=",
        ";",
        "x=1;",
        " a=1 ; b=2 ",
        "  total = 3 ;\ttotal=4\n",
    ] {
        assert_eq!(unset().rewrite(input.to_string()), input);
    }
}

#[test]
fn a_single_token_is_overridden_too() {
    let ov = OverridableValue::new(None, Some(999), None, None);
    assert_eq!(ov.rewrite("total=3".to_string()), "total=999");
    assert_eq!(ov.rewrite(String::new()), "");
    assert_eq!(ov.rewrite("upload=3".to_string()), "upload=3");
    assert_eq!(ov.rewrite("total".to_string()), "total");
}

#[test]
fn only_the_value_of_the_matching_token_changes() {
    let ov = OverridableValue::new(None, Some(999), None, None);
    assert_eq!(
        ov.rewrite("upload=1; download=2;  total=3 ; expire=100".to_string()),
        "upload=1; download=2;  total=999; expire=100"
    );
    assert_eq!(ov.rewrite(" a=1 ;\ttotal=7;b ".to_string()), " a=1 ;\ttotal=999;b ");
}

#[test]
fn tokens_without_equals_and_unknown_keys_pass() {
    let ov = OverridableValue::new(Some(1), Some(2), Some(3), Some(4));
    assert_eq!(ov.rewrite("total;Total=1;total =5;=7".to_string()), "total;Total=1;total =5;=7");
}

#[test]
fn only_the_first_equals_splits_a_token() {
    let ov = OverridableValue::new(None, Some(5), None, None);
    assert_eq!(ov.rewrite("total=1=2;a=b=c".to_string()), "total=5;a=b=c");
}

#[test]
fn check_and_push_formats_key_and_value() {
    assert_eq!(OverridableValue::check_and_push("total", Some(0), "7"), "total=0");
    assert_eq!(OverridableValue::check_and_push("total", Some(1234567890), "7"), "total=1234567890");
    assert_eq!(OverridableValue::check_and_push("total", None, "7"), "total=7");
}
