use rss_bot::command::{parse_command, Command};
use rss_bot::router::{route, route_configured, Action};

#[test]
fn parses_each_command() {
    assert!(matches!(parse_command("/help"), Some(Command::Help)));
    assert!(matches!(parse_command("/start"), Some(Command::Register)));
    assert!(matches!(parse_command("/register"), Some(Command::Register)));
    assert!(matches!(parse_command("/list"), Some(Command::List)));
    assert!(matches!(parse_command("/deleteaccount"), Some(Command::DeleteAccount)));
    assert!(matches!(parse_command("/delete"), Some(Command::DeleteAccount)));
    match parse_command("/subscribe https://example.com/rss.xml") {
        Some(Command::Subscribe(url)) => assert_eq!(url, "https://example.com/rss.xml"),
        other => panic!("unexpected {:?}", other),
    }
    assert!(matches!(parse_command("/unsubscribe 12"), Some(Command::Unsubscribe(12))));
}

#[test]
fn keywords_ignore_case_and_mentions() {
    assert!(matches!(parse_command("/HeLp"), Some(Command::Help)));
    assert!(matches!(parse_command("/List@feed_bot"), Some(Command::List)));
    assert!(matches!(parse_command("/DeleteAccount  "), Some(Command::DeleteAccount)));
}

#[test]
fn arguments_follow_blanks_or_a_colon() {
    assert!(matches!(parse_command("/unsubscribe:7"), Some(Command::Unsubscribe(7))));
    assert!(matches!(parse_command("/unsubscribe   -3 "), Some(Command::Unsubscribe(-3))));
    match parse_command("/subscribe: http://a.b/c ") {
        Some(Command::Subscribe(url)) => assert_eq!(url, "http://a.b/c"),
        other => panic!("unexpected {:?}", other),
    }
}

#[test]
fn malformed_commands_are_not_recognised() {
    assert!(parse_command("").is_none());
    assert!(parse_command("help").is_none());
    assert!(parse_command("/subscribe").is_none());
    assert!(parse_command("/subscribe a b").is_none());
    assert!(parse_command("/unsubscribe x").is_none());
    assert!(parse_command("/unsubscribe").is_none());
    assert!(parse_command("/unsubscribe 9223372036854775808").is_none());
    assert!(parse_command("/list all").is_none());
    assert!(parse_command("/subscribes x").is_none());
}

#[test]
fn ids_span_the_whole_i64_range() {
    assert!(matches!(
        parse_command("/unsubscribe 9223372036854775807"),
        Some(Command::Unsubscribe(i64::MAX))
    ));
    assert!(matches!(
        parse_command("/unsubscribe -9223372036854775808"),
        Some(Command::Unsubscribe(i64::MIN))
    ));
    assert!(matches!(parse_command("/unsubscribe +0005"), Some(Command::Unsubscribe(5))));
}

#[test]
fn unregistered_chat_cannot_subscribe() {
    assert!(matches!(route(false, false, "/subscribe https://e.com/rss"), Action::PromptRegister));
    assert!(matches!(route(false, true, "/subscribe https://e.com/rss"), Action::Ignore));
    assert!(matches!(route(false, false, "/list"), Action::PromptRegister));
    assert!(matches!(route(false, false, "hello"), Action::PromptRegister));
}

#[test]
fn unregistered_chat_may_register_and_read_help() {
    assert!(matches!(route(false, false, "/start"), Action::Register));
    assert!(matches!(route(false, true, "/register"), Action::Register));
    assert!(matches!(route(false, false, "/help"), Action::ShowHelp { registered: false }));
}

#[test]
fn registered_chat_commands_dispatch() {
    match route(true, false, "/subscribe https://e.com/rss") {
        Action::Subscribe(url) => assert_eq!(url, "https://e.com/rss"),
        other => panic!("unexpected {:?}", other),
    }
    assert!(matches!(route(true, false, "/list"), Action::List));
    assert!(matches!(route(true, false, "/unsubscribe 4"), Action::Unsubscribe(4)));
    assert!(matches!(route(true, false, "/deleteaccount"), Action::DeleteAccount));
    assert!(matches!(route(true, false, "/help"), Action::ShowHelp { registered: true }));
}

#[test]
fn unknown_text_gets_help_in_private_and_nothing_in_groups() {
    assert!(matches!(route(true, false, "what now"), Action::ShowHelp { registered: true }));
    assert!(matches!(route(true, false, "/start"), Action::ShowHelp { registered: true }));
    assert!(matches!(route(true, true, "what now"), Action::Ignore));
}

#[test]
fn unregistered_chats_can_be_ignored_instead_of_prompted() {
    assert!(matches!(route_configured(false, false, false, "hello"), Action::Ignore));
    assert!(matches!(route_configured(false, false, false, "/list"), Action::Ignore));
    assert!(matches!(route_configured(false, false, false, "/start"), Action::Register));
    assert!(matches!(route_configured(false, false, true, "hello"), Action::PromptRegister));
    assert!(matches!(route_configured(true, false, false, "hello"), Action::ShowHelp { registered: true }));
}
