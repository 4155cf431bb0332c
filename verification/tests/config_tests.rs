use cirrus::config::{
    default_config_text, parse_config_text, Config, CreateAction, ReadOutcome,
};
use cirrus::context::Context;
use cirrus::error::Error;

fn url_of(text: &str) -> String {
    parse_config_text(text).unwrap().database().url().clone()
}

#[test]
fn parses_a_minimal_file() {
    assert_eq!(url_of("[database]\nurl = \"postgres://db\"\n"), "postgres://db");
}

#[test]
fn parses_without_trailing_newline() {
    assert_eq!(url_of("[database]\nurl = \"x\""), "x");
}

#[test]
fn parses_comments_blanks_and_crlf() {
    let text = "# the cirrus configuration\r\n\r\n[database]\r\n  url = \"x\"  \r\n";
    assert_eq!(url_of(text), "x");
}

#[test]
fn other_sections_and_keys_are_read_past() {
    let text = "[server]\nurl = \"wrong\"\nport = \"8080\"\n[database]\nname = \"n\"\nurl = \"right\"\n";
    assert_eq!(url_of(text), "right");
}

#[test]
fn keys_before_any_section_are_ignored() {
    assert_eq!(url_of("url = \"wrong\"\n[database]\nurl = \"x\"\n"), "x");
}

#[test]
fn last_assignment_wins() {
    assert_eq!(url_of("[database]\nurl = \"one\"\nurl = \"two\"\n"), "two");
}

#[test]
fn empty_url_value_is_kept() {
    assert_eq!(url_of("[database]\nurl = \"\"\n"), "");
}

#[test]
fn invalid_files_are_rejected() {
    let invalid = [
        "",
        "[database]\n",
        "just words\n",
        "[database\nurl = \"x\"\n",
        "[database]\nurl = x\n",
        "[database]\nurl = \"x\n",
        "[database]\nurl = \"a\\\"b\"\n",
        "[database]\nurl = \"x\" trailing\n",
        "[database] extra\nurl = \"x\"\n",
        "[other]\nurl = \"x\"\n",
    ];
    for text in invalid {
        assert!(
            matches!(parse_config_text(text), Err(Error::ConfigInvalid)),
            "expected ConfigInvalid for {:?}",
            text
        );
    }
}

#[test]
fn default_template_parses_to_its_own_url() {
    let text = default_config_text();
    assert_eq!(url_of(&text), "cirrus.db");
}

#[test]
fn resolve_with_no_default_path_fails_not_found() {
    let r = Config::parse(None, vec![ReadOutcome::NotFound, ReadOutcome::NotFound]);
    assert!(matches!(r, Err(Error::ConfigNotFound)));
    let r = Config::parse(None, vec![]);
    assert!(matches!(r, Err(Error::ConfigNotFound)));
}

#[test]
fn resolve_takes_first_existing_file_and_does_not_fall_through() {
    let malformed = ReadOutcome::Found("not a config".to_string());
    let valid = ReadOutcome::Found("[database]\nurl = \"x\"\n".to_string());
    let r = Config::parse(None, vec![malformed, valid]);
    assert!(matches!(r, Err(Error::ConfigInvalid)));
}

#[test]
fn resolve_skips_missing_locations() {
    let valid = ReadOutcome::Found("[database]\nurl = \"x\"\n".to_string());
    let r = Config::parse(None, vec![ReadOutcome::NotFound, valid]);
    assert_eq!(r.unwrap().database().url(), "x");
}

#[test]
fn resolve_stops_on_unreadable_location() {
    let valid = ReadOutcome::Found("[database]\nurl = \"x\"\n".to_string());
    let r = Config::parse(
        None,
        vec![ReadOutcome::ReadError("permission denied".to_string()), valid],
    );
    assert!(matches!(r, Err(Error::ConfigIoError(m)) if m == "permission denied"));
}

#[test]
fn explicit_path_wins_over_defaults() {
    let explicit = ReadOutcome::Found("[database]\nurl = \"explicit\"\n".to_string());
    let default = ReadOutcome::Found("[database]\nurl = \"default\"\n".to_string());
    let r = Config::parse(Some(explicit), vec![default]);
    assert_eq!(r.unwrap().database().url(), "explicit");
}

#[test]
fn explicit_path_read_failure_is_fatal() {
    let r = Config::parse(Some(ReadOutcome::NotFound), vec![]);
    assert!(matches!(r, Err(Error::ConfigIoError(_))));
    let r = Config::parse(Some(ReadOutcome::ReadError("denied".to_string())), vec![]);
    assert!(matches!(r, Err(Error::ConfigIoError(m)) if m == "denied"));
}

#[test]
fn create_decision_follows_the_overwrite_tristate() {
    assert!(matches!(Config::create("p", false, None), Ok(CreateAction::WriteDefault)));
    assert!(matches!(Config::create("p", false, Some(false)), Ok(CreateAction::WriteDefault)));
    assert!(matches!(Config::create("p", false, Some(true)), Ok(CreateAction::WriteDefault)));
    assert!(matches!(Config::create("p", true, Some(false)), Ok(CreateAction::LeaveUnchanged)));
    assert!(matches!(Config::create("p", true, Some(true)), Ok(CreateAction::WriteDefault)));
    let r = Config::create("p", true, None);
    assert!(matches!(r, Err(Error::ConfigAlreadyExists(p)) if p == "p"));
}

#[test]
fn create_config_bootstrap_sequence() {
    // No file yet: an undecided create writes the template.
    assert!(matches!(Config::create("cfg", false, None), Ok(CreateAction::WriteDefault)));
    // The file now exists: a non-overwriting create succeeds without writing.
    assert!(matches!(Config::create("cfg", true, Some(false)), Ok(CreateAction::LeaveUnchanged)));
    // A second undecided create fails.
    assert!(matches!(Config::create("cfg", true, None), Err(Error::ConfigAlreadyExists(_))));
    // A forced create always writes.
    assert!(matches!(Config::create("cfg", true, Some(true)), Ok(CreateAction::WriteDefault)));
}

#[test]
fn context_prefers_the_database_override() {
    let config = parse_config_text("[database]\nurl = \"configured\"\n").unwrap();
    let ctx = Context::init(config, Some("override".to_string()));
    assert_eq!(ctx.database_url(), "override");
    assert_eq!(ctx.config().database().url(), "configured");
    let config = parse_config_text("[database]\nurl = \"configured\"\n").unwrap();
    let ctx = Context::init(config, None);
    assert_eq!(ctx.database_url(), "configured");
}

#[test]
fn error_messages_carry_their_context() {
    assert_eq!(
        Error::ConfigNotFound.message(),
        "The configuration file could not be found."
    );
    assert_eq!(Error::ConfigInvalid.message(), "Invalid configuration.");
    assert_eq!(
        Error::ConfigIoError("denied".to_string()).message(),
        "Unable to read or write the configuration file: denied"
    );
    assert_eq!(
        Error::ConfigAlreadyExists("cfg.toml".to_string()).message(),
        "Unable to create config file at cfg.toml: the file already exists."
    );
    assert_eq!(
        Error::DatabaseConnectError("refused".to_string()).message(),
        "Unable to connect to the database: refused"
    );
    assert_eq!(
        Error::UserAlreadyExists("bob".to_string()).message(),
        "A user with name bob already exists."
    );
    assert_eq!(
        Error::UserNotFound("bob".to_string()).message(),
        "No user found with the name bob."
    );
    assert_eq!(
        Error::StorageQueryError("boom".to_string()).message(),
        "Unable to query the database: boom"
    );
}
