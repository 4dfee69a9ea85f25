use conduit::admin::command::{parse_admin_command, AdminCommand};

fn get_help_inner(input: &str) {
    let error = AdminCommand::try_parse_from(vec![
        "argv[0] doesn't matter".to_owned(),
        input.to_owned(),
    ])
    .err()
    .unwrap()
    .to_string();

    // Search for a handful of keywords that suggest the help printed properly
    assert!(error.contains("Usage:"));
    assert!(error.contains("Commands:"));
    assert!(error.contains("Options:"));
}

#[test]
fn get_help_short() {
    get_help_inner("-h");
}

#[test]
fn get_help_long() {
    get_help_inner("--help");
}

#[test]
fn get_help_subcommand() {
    get_help_inner("help");
}

fn argv(items: &[&str]) -> Vec<String> {
    items.iter().map(|s| s.to_string()).collect()
}

#[test]
fn command_with_arguments_parses() {
    let c = AdminCommand::try_parse_from(argv(&["@conduit:s:", "create-user", "alice", "pw"]))
        .ok()
        .unwrap();
    assert_eq!(c.name, "create-user");
    assert_eq!(c.args, vec!["alice".to_owned(), "pw".to_owned()]);
}

#[test]
fn underscores_read_as_dashes() {
    let c = AdminCommand::try_parse_from(argv(&["x", "register_appservice"])).ok().unwrap();
    assert_eq!(c.name, "register-appservice");
    assert!(c.args.is_empty());
}

#[test]
fn help_for_one_command() {
    let text = AdminCommand::try_parse_from(argv(&["x", "help", "list-rooms"])).err().unwrap();
    assert_eq!(
        text,
        "Usage: @conduit:server.name: list-rooms [ARGS]...\n\nOptions:\n  -h, --help  Print help\n"
    );
    let text = AdminCommand::try_parse_from(argv(&["x", "get-pdu", "$e", "-h"])).err().unwrap();
    assert!(text.starts_with("Usage: @conduit:server.name: get-pdu"));
}

#[test]
fn unknown_or_missing_command() {
    let text = AdminCommand::try_parse_from(argv(&["x", "frobnicate"])).err().unwrap();
    assert!(text.starts_with("error: unrecognized subcommand 'frobnicate'"));
    let text = AdminCommand::try_parse_from(argv(&["x"])).err().unwrap();
    assert!(text.contains("Commands:\n  allow-registration\n"));
    assert!(text.contains("  verify-json\n"));
}

const USER: &str = "@conduit:example.org";

#[test]
fn addressed_line_splits_like_a_shell() {
    let c = parse_admin_command("@conduit:example.org: create_user 'bob smith' \"pw 1\"", USER, "conduit")
        .ok()
        .unwrap();
    assert_eq!(c.name, "create-user");
    assert_eq!(c.args, vec!["bob smith".to_owned(), "pw 1".to_owned()]);
}

#[test]
fn each_address_form_is_accepted() {
    for line in [
        "@conduit:example.org: list-rooms",
        "@conduit:example.org list-rooms",
        "conduit: list-rooms",
        "conduit    list-rooms",
    ] {
        let c = parse_admin_command(line, USER, "conduit").ok().unwrap();
        assert_eq!(c.name, "list-rooms");
        assert!(c.args.is_empty());
    }
}

#[test]
fn bare_address_asks_for_help() {
    for line in ["  @conduit:example.org ", "conduit"] {
        let text = parse_admin_command(line, USER, "conduit").err().unwrap();
        assert!(text.starts_with("Usage:"));
        assert!(text.contains("Commands:"));
    }
}

#[test]
fn unclosed_quote_is_refused() {
    let text = parse_admin_command("conduit: get-pdu 'abc", USER, "conduit").err().unwrap();
    assert_eq!(text, "Failed to parse admin command: missing closing quote");
}
