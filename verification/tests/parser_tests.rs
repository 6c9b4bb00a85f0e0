use quirc::event::Event;
use quirc::event::Prefix;
use quirc::event::RawEvent;
use quirc::parser::middle_params_parser;
use quirc::parser::params_parser;
use quirc::parser::parse_input;
use quirc::parser::prefix_parser;
use quirc::parser::raw_event_parser;

#[test]
fn prefix_test() {
    assert_eq!(
        prefix_parser(":irc.example.com end").unwrap(),
        ("end", Prefix::Server { host: "irc.example.com".to_string() })
    );
    assert_eq!(
        prefix_parser(":nick!on@example.com end").unwrap(),
        (
            "end",
            Prefix::User {
                nick: "nick".to_string(),
                username: Some("on".to_string()),
                host: "example.com".to_string()
            }
        )
    );
    assert_eq!(
        prefix_parser(":nick@example.com end").unwrap(),
        (
            "end",
            Prefix::User {
                nick: "nick".to_string(),
                username: None,
                host: "example.com".to_string()
            }
        )
    );
}

#[test]
fn params_test() {
    assert_eq!(
        middle_params_parser(" first second third\r\n").unwrap(),
        (
            "\r\n",
            vec!["first".to_string(), "second".to_string(), "third".to_string()]
        )
    );
    assert_eq!(
        params_parser(" first second third :last with spaces\r\n").unwrap(),
        (
            "\r\n",
            vec![
                "first".to_string(),
                "second".to_string(),
                "third".to_string(),
                "last with spaces".to_string()
            ]
        )
    );
    assert_eq!(
        params_parser(" first :last:with: colons\r\n").unwrap(),
        ("\r\n", vec!["first".to_string(), "last:with: colons".to_string()])
    );
}

#[test]
fn raw_event_test() {
    assert_eq!(
        raw_event_parser(":Angel!wings@irc.org PRIVMSG Wiz :Are you receiving this message ?\r\n")
            .unwrap(),
        (
            "",
            RawEvent {
                prefix: Some(Prefix::User {
                    nick: "Angel".to_string(),
                    username: Some("wings".to_string()),
                    host: "irc.org".to_string(),
                }),
                command: "PRIVMSG".to_string(),
                params: vec!["Wiz".to_string(), "Are you receiving this message ?".to_string()],
            }
        )
    );
    assert_eq!(
        raw_event_parser("PING\r\n").unwrap(),
        (
            "",
            RawEvent { prefix: None, command: "PING".to_string(), params: vec![] }
        )
    );
    assert_eq!(
        raw_event_parser(":irc.example.com 001 test Welcome\r\n").unwrap(),
        (
            "",
            RawEvent {
                prefix: Some(Prefix::Server { host: "irc.example.com".to_string() }),
                command: "001".to_string(),
                params: vec!["test".to_string(), "Welcome".to_string()],
            }
        )
    );
}

#[test]
fn event_test() {
    assert_eq!(
        parse_input(":irc.example.com PING irc.example.com\r\n"),
        Event::Ping { server: "irc.example.com".to_string(), server2: None }
    );
    assert_eq!(parse_input("MADEUP command\r\n"), Event::Unknown);
}
