use sail::cli::{Command, ParseError};

fn args(words: &[&str]) -> Vec<String> {
    words.iter().map(|w| (*w).to_owned()).collect()
}

#[test]
fn parse_configure_takes_setting_and_value() {
    let parsed = Command::parse(&args(&["configure", "registry.hostname", "r.example"]));
    assert_eq!(
        parsed,
        Ok(Command::Configure {
            setting: "registry.hostname".to_owned(),
            value: "r.example".to_owned()
        })
    );
}

#[test]
fn parse_status_and_update() {
    assert_eq!(Command::parse(&args(&["status"])), Ok(Command::Status));
    assert_eq!(Command::parse(&args(&["update"])), Ok(Command::Update));
}

#[test]
fn parse_ignores_extra_arguments() {
    assert_eq!(Command::parse(&args(&["status", "now", "please"])), Ok(Command::Status));
}

#[test]
fn parse_reports_missing_command() {
    assert_eq!(Command::parse(&args(&[])), Err(ParseError::MissingCommand));
}

#[test]
fn parse_reports_missing_configure_arguments() {
    assert_eq!(
        Command::parse(&args(&["configure"])),
        Err(ParseError::MissingArgument { name: "setting".to_owned() })
    );
    assert_eq!(
        Command::parse(&args(&["configure", "greeting"])),
        Err(ParseError::MissingArgument { name: "value".to_owned() })
    );
}

#[test]
fn parse_reports_unknown_command() {
    assert_eq!(
        Command::parse(&args(&["launch"])),
        Err(ParseError::UnknownCommand("launch".to_owned()))
    );
}
