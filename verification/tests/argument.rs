use omni::command::argument::Argument;

#[test]
fn test_simple_flag() {
    let arg = Argument::builder()
        .prefix("-")
        .key("v")
        .build()
        .expect("Key war angegeben");

    assert!(arg.is_flag());
    assert!(arg.is_short_flag());
    assert!(!arg.has_value());
    assert_eq!(arg.render(), "-v");
}

#[test]
fn test_quoted_value() {
    let arg = Argument::builder()
        .prefix("--")
        .key("path")
        .separator("=")
        .quoted_value("/usr/local/bin")
        .build()
        .expect("Key war angegeben");

    assert!(arg.has_value());
    assert!(arg.is_value_quoted());
    assert_eq!(arg.value_str(), Some("/usr/local/bin"));
    assert_eq!(arg.render(), "--path=\"/usr/local/bin\"");
}

#[test]
fn test_outer_delimiter() {
    let arg = Argument::builder()
        .delimiter("[", "]")
        .prefix("--")
        .key("env")
        .separator("=")
        .value("production")
        .build()
        .unwrap();

    assert_eq!(arg.render(), "[--env=production]");
}

#[test]
fn test_capacity_and_render_length() {
    let arg = Argument::builder()
        .prefix("--")
        .key("env")
        .separator("=")
        .value("production")
        .postfix(";")
        .build()
        .unwrap();

    let rendered = arg.render();
    assert_eq!(rendered, "--env=production;");
    assert_eq!(rendered.len(), 17);
}
