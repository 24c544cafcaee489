use bubble::cli::Args;
use bubble::conf::{Config, ConfigError};

fn line(items: &[&str]) -> Vec<String> {
    items.iter().map(|s| s.to_string()).collect()
}

#[test]
fn the_default_configuration_path() {
    let args = Args::load(&line(&["bubble"])).unwrap();
    assert_eq!(args.config, "./bubble.toml");
    assert_eq!(Args::from_positional(None).config, "./bubble.toml");
}

#[test]
fn the_configuration_path_from_the_command_line() {
    let args = Args::load(&line(&["bubble", "/etc/bubble/other.toml"])).unwrap();
    assert_eq!(args.config, "/etc/bubble/other.toml");
    assert_eq!(Args::from_positional(Some("x.toml".to_string())).config, "x.toml");
}

#[test]
fn a_path_after_a_double_dash() {
    let args = Args::load(&line(&["bubble", "--", "-odd-name.toml"])).unwrap();
    assert_eq!(args.config, "-odd-name.toml");
}

#[test]
fn a_second_argument_is_refused() {
    let err = Args::load(&line(&["bubble", "a.toml", "b.toml"])).unwrap_err();
    assert_ne!(err.exit_code, 0);
    assert!(!err.message.is_empty());
}

#[test]
fn an_unknown_flag_is_refused() {
    let err = Args::load(&line(&["bubble", "--frobnicate"])).unwrap_err();
    assert_ne!(err.exit_code, 0);
}

#[test]
fn asking_for_help_is_no_failure() {
    let err = Args::load(&line(&["bubble", "--help"])).unwrap_err();
    assert_eq!(err.exit_code, 0);
    assert!(err.message.contains("config"));
}

#[test]
fn a_configuration_with_servers() {
    let config = Config::parse("server = [\"tcp/10.0.0.1:7447\", \"tcp/10.0.0.2:7447\"]\n").unwrap();
    assert_eq!(config.server, vec!["tcp/10.0.0.1:7447", "tcp/10.0.0.2:7447"]);
}

#[test]
fn a_configuration_keeps_what_is_written() {
    let config = Config::parse("server = ['not checked here', '']").unwrap();
    assert_eq!(config.server, vec!["not checked here", ""]);
    let config = Config::parse("server = []").unwrap();
    assert!(config.server.is_empty());
}

#[test]
fn other_keys_are_passed_over() {
    let config = Config::parse("title = 'x'\nserver = ['tcp/a:1']\n[window]\nwidth = 3\n").unwrap();
    assert_eq!(config.server, vec!["tcp/a:1"]);
}

#[test]
fn a_text_that_is_no_toml() {
    assert_eq!(Config::parse("server = ["), Err(ConfigError::Syntax));
    assert_eq!(Config::parse("server = ['a']\nserver = ['b']"), Err(ConfigError::Syntax));
    assert_eq!(Config::parse("= 3"), Err(ConfigError::Syntax));
}

#[test]
fn a_document_without_a_server_list() {
    assert_eq!(Config::parse(""), Err(ConfigError::MissingServer));
    assert_eq!(Config::parse("servers = ['tcp/a:1']"), Err(ConfigError::MissingServer));
    assert_eq!(Config::parse("server = 'tcp/a:1'"), Err(ConfigError::MissingServer));
    assert_eq!(Config::parse("[server]\nurl = 'tcp/a:1'"), Err(ConfigError::MissingServer));
}

#[test]
fn a_server_that_is_no_string() {
    assert_eq!(Config::parse("server = ['tcp/a:1', 7447]"), Err(ConfigError::InvalidServer));
    assert_eq!(Config::parse("server = [['tcp/a:1']]"), Err(ConfigError::InvalidServer));
}

#[test]
fn from_entries_wants_every_item_to_be_a_string() {
    assert_eq!(Config::from_entries(None), Err(ConfigError::MissingServer));
    assert_eq!(Config::from_entries(Some(vec![])), Ok(Config { server: vec![] }));
    assert_eq!(
        Config::from_entries(Some(vec![Some("a".to_string()), Some("b".to_string())])),
        Ok(Config { server: vec!["a".to_string(), "b".to_string()] })
    );
    assert_eq!(
        Config::from_entries(Some(vec![Some("a".to_string()), None])),
        Err(ConfigError::InvalidServer)
    );
}
