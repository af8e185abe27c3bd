use rustirc::commands::{find_command, get_commands, CommandKind};
use rustirc::host::Host;
use rustirc::logging::LogType;
use rustirc::session::{Privacy, Session};
use rustirc::shell::{
    accept_username, local_host, parse_input, parse_join_target, parse_privacy_choices,
    startup_step, ChoiceError, ShellInput, Startup,
};

fn strings(words: &[&str]) -> Vec<String> {
    words.iter().map(|word| String::from(*word)).collect()
}

#[test]
fn host_new_keeps_name_and_port() {
    let host = Host::new("127.0.0.1", 4040);
    assert_eq!(host.name, "127.0.0.1");
    assert_eq!(host.port, 4040);
}

#[test]
fn session_new_keeps_name_and_choices() {
    let session = Session::new("ada", vec![Privacy::ShowName, Privacy::RefuseConnections]);
    assert_eq!(session.name, "ada");
    assert_eq!(
        session.privacy_options,
        vec![Privacy::ShowName, Privacy::RefuseConnections]
    );
}

#[test]
fn session_is_usable_with_a_name_and_two_choices() {
    assert!(Session::new("ada", vec![Privacy::ShowName, Privacy::AcceptConnections]).is_usable());
    assert!(!Session::new("", vec![Privacy::ShowName, Privacy::AcceptConnections]).is_usable());
    assert!(!Session::new("ada", vec![Privacy::ShowName]).is_usable());
    assert!(!Session::new("ada", vec![]).is_usable());
}

#[test]
fn command_table_lists_four_commands() {
    let table = get_commands();
    let names: Vec<&str> = table.iter().map(|command| command.name).collect();
    assert_eq!(names, vec!["help", "exit", "join", "listen"]);
    let kinds: Vec<CommandKind> = table.iter().map(|command| command.kind).collect();
    assert_eq!(
        kinds,
        vec![
            CommandKind::Help,
            CommandKind::Exit,
            CommandKind::Join,
            CommandKind::Listen
        ]
    );
    assert_eq!(table[0].usage, "/help");
    assert_eq!(table[0].description, "Mevcut komutları listeler.");
    assert_eq!(table[0].args, &[""]);
    assert_eq!(table[1].usage, "/exit");
    assert_eq!(table[1].description, "Programı sonlandırır.");
    assert_eq!(table[2].usage, "/join <addr>");
    assert_eq!(table[2].args, &["addr"]);
    assert_eq!(
        table[2].description,
        "Belirli bir sunucuya katılıp sohbet etmek için kullanılır."
    );
    assert_eq!(table[3].usage, "/listen");
    assert_eq!(
        table[3].description,
        "Bir sunucu oluşturup yeni bağlantılar için bekler."
    );
}

#[test]
fn find_command_looks_names_up() {
    assert_eq!(find_command("help"), Some(CommandKind::Help));
    assert_eq!(find_command("exit"), Some(CommandKind::Exit));
    assert_eq!(find_command("join"), Some(CommandKind::Join));
    assert_eq!(find_command("listen"), Some(CommandKind::Listen));
    assert_eq!(find_command("Help"), None);
    assert_eq!(find_command("hel"), None);
    assert_eq!(find_command("helps"), None);
    assert_eq!(find_command(""), None);
}

#[test]
fn input_with_a_slash_names_a_command() {
    assert!(matches!(
        parse_input("/help\n"),
        ShellInput::Command { kind: CommandKind::Help, args } if args.is_empty()
    ));
    assert!(matches!(
        parse_input("  /join   10.0.0.1:80  extra \r\n"),
        ShellInput::Command { kind: CommandKind::Join, args }
            if args == strings(&["10.0.0.1:80", "extra"])
    ));
    assert!(matches!(
        parse_input("/ listen"),
        ShellInput::Command { kind: CommandKind::Listen, args } if args.is_empty()
    ));
    assert!(matches!(
        parse_input("/exit now"),
        ShellInput::Command { kind: CommandKind::Exit, args } if args == strings(&["now"])
    ));
}

#[test]
fn input_with_an_unknown_command() {
    assert!(matches!(
        parse_input("/dance fast\n"),
        ShellInput::UnknownCommand(name) if name == "dance"
    ));
    assert!(matches!(
        parse_input("//help"),
        ShellInput::UnknownCommand(name) if name == "/help"
    ));
}

#[test]
fn input_of_a_bare_slash_does_nothing() {
    assert!(matches!(parse_input("/"), ShellInput::Nothing));
    assert!(matches!(parse_input(" /  \n"), ShellInput::Nothing));
}

#[test]
fn input_without_a_slash() {
    assert!(matches!(parse_input("clear\n"), ShellInput::Clear));
    assert!(matches!(parse_input("  cls "), ShellInput::Clear));
    assert!(matches!(parse_input("exit\r\n"), ShellInput::Exit));
    assert!(matches!(parse_input("help"), ShellInput::Unrecognized));
    assert!(matches!(parse_input("exit now"), ShellInput::Unrecognized));
    assert!(matches!(parse_input(""), ShellInput::Unrecognized));
    assert!(matches!(parse_input("Clear"), ShellInput::Unrecognized));
}

#[test]
fn privacy_choices_are_read_in_order() {
    assert_eq!(
        parse_privacy_choices("a,b\n"),
        Ok(vec![Privacy::ShowName, Privacy::AcceptConnections])
    );
    assert_eq!(
        parse_privacy_choices("  d,c  "),
        Ok(vec![Privacy::RefuseConnections, Privacy::HideName])
    );
    assert_eq!(
        parse_privacy_choices("a,d"),
        Ok(vec![Privacy::ShowName, Privacy::RefuseConnections])
    );
    assert_eq!(
        parse_privacy_choices("c,b"),
        Ok(vec![Privacy::HideName, Privacy::AcceptConnections])
    );
}

#[test]
fn privacy_choices_pass_over_what_they_do_not_know() {
    assert_eq!(
        parse_privacy_choices("a, b"),
        Ok(vec![Privacy::ShowName])
    );
    assert_eq!(
        parse_privacy_choices("x,b,,y"),
        Ok(vec![Privacy::AcceptConnections])
    );
    assert_eq!(
        parse_privacy_choices("a,a"),
        Ok(vec![Privacy::ShowName, Privacy::ShowName])
    );
}

#[test]
fn privacy_choices_need_a_comma() {
    assert_eq!(parse_privacy_choices("a"), Err(ChoiceError::TooFew));
    assert_eq!(parse_privacy_choices(""), Err(ChoiceError::TooFew));
    assert_eq!(parse_privacy_choices("ac"), Err(ChoiceError::TooFew));
    assert_eq!(parse_privacy_choices("a b\n"), Err(ChoiceError::TooFew));
}

#[test]
fn privacy_choices_refuse_opposites() {
    assert_eq!(parse_privacy_choices("a,c"), Err(ChoiceError::Opposed));
    assert_eq!(parse_privacy_choices("d,b"), Err(ChoiceError::Opposed));
    assert_eq!(parse_privacy_choices("a,b,c"), Err(ChoiceError::Opposed));
    assert_eq!(parse_privacy_choices("abc,x"), Err(ChoiceError::Opposed));
}

#[test]
fn privacy_choices_need_a_known_letter() {
    assert_eq!(parse_privacy_choices("x,y"), Err(ChoiceError::NoneKnown));
    assert_eq!(parse_privacy_choices(","), Err(ChoiceError::NoneKnown));
    assert_eq!(parse_privacy_choices("A,B"), Err(ChoiceError::NoneKnown));
    assert_eq!(parse_privacy_choices(" a , b "), Err(ChoiceError::NoneKnown));
}

#[test]
fn join_target_is_cut_at_the_first_colon() {
    assert_eq!(
        parse_join_target(&strings(&["127.0.0.1:33363"])),
        Some((String::from("127.0.0.1"), String::from("33363")))
    );
    assert_eq!(
        parse_join_target(&strings(&["host:1:2", "other:3"])),
        Some((String::from("host"), String::from("1:2")))
    );
    assert_eq!(
        parse_join_target(&strings(&[":"])),
        Some((String::new(), String::new()))
    );
}

#[test]
fn join_target_needs_an_address() {
    assert_eq!(parse_join_target(&strings(&[])), None);
    assert_eq!(parse_join_target(&strings(&["localhost"])), None);
    assert_eq!(parse_join_target(&strings(&["", "a:b"])), None);
}

#[test]
fn username_is_trimmed() {
    assert_eq!(accept_username("  ada \r\n"), Some(String::from("ada")));
    assert_eq!(accept_username("a b"), Some(String::from("a b")));
    assert_eq!(accept_username(""), None);
    assert_eq!(accept_username(" \t\n"), None);
}

#[test]
fn startup_steps() {
    assert_eq!(startup_step(false, false, false), Startup::CreateSettings);
    assert_eq!(startup_step(false, true, true), Startup::CreateSettings);
    assert_eq!(startup_step(true, false, false), Startup::ResetSettings);
    assert_eq!(startup_step(true, false, true), Startup::ResetSettings);
    assert_eq!(startup_step(true, true, false), Startup::CreateSession);
    assert_eq!(startup_step(true, true, true), Startup::RestoreSession);
}

#[test]
fn local_host_has_a_port_in_range() {
    let mut seen = std::collections::BTreeSet::new();
    for _ in 0..200 {
        let host = local_host();
        assert_eq!(host.name, "127.0.0.1");
        assert!(1000 <= host.port && host.port < 65535);
        seen.insert(host.port);
    }
    assert!(seen.len() > 1);
}

#[test]
fn log_labels() {
    assert_eq!(LogType::INFO.label(), "[LOG]");
    assert_eq!(LogType::WARN.label(), "[WARN]");
    assert_eq!(LogType::ERROR.label(), "[ERROR]");
    assert_eq!(LogType::OK.label(), "[OK]");
    assert_eq!(LogType::STATUS.label(), "[STATUS]");
}

#[test]
fn white_space_is_what_the_standard_library_calls_so() {
    let mut code: u32 = 0;
    while code <= 0x10ffff {
        if let Some(c) = char::from_u32(code) {
            let text = c.to_string();
            assert_eq!(
                accept_username(&text).is_none(),
                c.is_whitespace(),
                "U+{:04X}",
                code
            );
        }
        code += 1;
    }
}

#[test]
fn trimming_and_words_follow_the_standard_library() {
    let texts = [
        "",
        " ",
        "a",
        " a",
        "a ",
        "\t a  b\u{a0}\r\n",
        "\u{2003}x\u{3000}y z\u{85}",
        "no-space",
        "  two  words  ",
        "\u{200b}zero width\u{200b}",
        "ünïcödé  çhars ",
    ];
    for text in texts {
        let trimmed = text.trim();
        let expected = if trimmed.is_empty() {
            None
        } else {
            Some(String::from(trimmed))
        };
        assert_eq!(accept_username(text), expected, "{:?}", text);

        let words: Vec<String> = text.split_whitespace().map(String::from).collect();
        let line = format!("/join {}", text);
        assert!(
            matches!(
                parse_input(&line),
                ShellInput::Command { kind: CommandKind::Join, args } if args == words
            ),
            "{:?}",
            text
        );
    }
}

#[test]
fn pieces_follow_the_standard_library() {
    let replies = ["a,b", "b,a,", ",,b", "x,d,y", "a,,a", "d ,a", ",a"];
    for reply in replies {
        let expected: Vec<Privacy> = reply
            .trim()
            .split(',')
            .filter_map(|piece| match piece {
                "a" => Some(Privacy::ShowName),
                "b" => Some(Privacy::AcceptConnections),
                "c" => Some(Privacy::HideName),
                "d" => Some(Privacy::RefuseConnections),
                _ => None,
            })
            .collect();
        assert_eq!(parse_privacy_choices(reply), Ok(expected), "{:?}", reply);
    }
}
