use databroker_cli::command::{
    cli_commands, complete, help_lines, operation, parse_line, plan_connect, print_usage,
    Command, ConnectPlan, LineCompletion,
};
use databroker_cli::metadata::Metadata;
use databroker_cli::trie::{CliCompleter, Completion, Suffix};

fn strings(list: &[&str]) -> Vec<String> {
    list.iter().map(|s| s.to_string()).collect()
}

fn usage(command: &str) -> Command {
    Command::Usage {
        command: command.to_string(),
    }
}

fn completer() -> CliCompleter {
    let names = ["Vehicle.Speed", "Vehicle.Cabin.Light"];
    let mut metadata = Vec::new();
    for name in names {
        metadata.push(Metadata {
            id: 0,
            name: name.to_string(),
            data_type: 1,
            entry_type: 1,
            change_type: 0,
            description: String::new(),
        });
    }
    CliCompleter::from_metadata(&metadata)
}

fn proposed(result: LineCompletion) -> Vec<String> {
    match result {
        LineCompletion::Proposals(list) => list.iter().map(|c| c.completion.clone()).collect(),
        other => panic!("expected proposals, got {:?}", other),
    }
}

#[test]
fn the_commands_in_their_order() {
    let names: Vec<&str> = cli_commands().iter().map(|c| c.name).collect();
    assert_eq!(
        names,
        vec![
            "connect",
            "get",
            "set",
            "subscribe",
            "feed",
            "metadata",
            "token",
            "token-file",
            "help",
            "quit"
        ]
    );
    assert_eq!(cli_commands()[1].usage, "<PATH> [[PATH] ...]");
    assert_eq!(cli_commands()[8].help, "You're looking at it.");
}

#[test]
fn usage_of_each_command() {
    assert_eq!(print_usage("get"), vec!["Usage: get <PATH> [[PATH] ...]"]);
    assert_eq!(print_usage("set"), vec!["Usage: set <PATH> <VALUE>"]);
    assert_eq!(print_usage("feed"), vec!["Usage: feed <PATH> <VALUE>"]);
    assert_eq!(print_usage("subscribe"), vec!["Usage: subscribe <QUERY>"]);
    assert_eq!(print_usage("token"), vec!["Usage: token <TOKEN>"]);
    assert_eq!(print_usage("token-file"), vec!["Usage: token-file <FILE>"]);
    assert_eq!(print_usage("connect"), vec!["Usage: connect [URI]"]);
    assert_eq!(print_usage("metadata"), vec!["Usage: metadata [PATTERN]"]);
    assert_eq!(print_usage("help"), vec!["Usage: help "]);
    assert_eq!(print_usage("quit"), vec!["Usage: quit "]);
    assert_eq!(print_usage("exit").len(), 0);
    assert_eq!(print_usage("Get").len(), 0);
    assert_eq!(print_usage("").len(), 0);
    for info in cli_commands() {
        let cmd = info.name;
        let usage = info.usage;
        assert_eq!(print_usage(cmd), vec![format!("Usage: {cmd} {usage}")]);
    }
}

#[test]
fn help_lists_every_command_between_two_empty_lines() {
    let lines = help_lines();
    assert_eq!(lines.len(), 12);
    assert_eq!(lines[0], "");
    assert_eq!(lines[11], "");
    assert_eq!(lines[1], "  connect [URI]            Connect to server");
    assert_eq!(lines[2], "  get <PATH> [[PATH] ...]  Get signal value(s)");
    assert_eq!(lines[9], "  help                     You're looking at it.");
    for (line, info) in lines[1..11].iter().zip(cli_commands().iter()) {
        let cmd = info.name;
        let args = info.usage;
        let help = info.help;
        assert_eq!(*line, format!("  {:24} {}", format!("{cmd} {args}"), help));
    }
}

#[test]
fn lines_are_read_as_commands() {
    assert_eq!(parse_line("help"), Command::Help);
    assert_eq!(parse_line("  help  me "), Command::Help);
    assert_eq!(parse_line("quit"), Command::Quit);
    assert_eq!(parse_line("exit"), Command::Quit);
    assert_eq!(parse_line(""), Command::Nothing);
    assert_eq!(parse_line(" \t "), Command::Nothing);
    assert_eq!(parse_line("frobnicate"), Command::Unknown);
    assert_eq!(parse_line("GET a"), Command::Unknown);
    assert_eq!(parse_line("gets a"), Command::Unknown);
    assert_eq!(
        parse_line("get Vehicle.Speed   Vehicle.Cabin.Light "),
        Command::Get {
            paths: strings(&["Vehicle.Speed", "Vehicle.Cabin.Light"])
        }
    );
    assert_eq!(
        parse_line("token abc.def.ghi"),
        Command::Token {
            token: "abc.def.ghi".to_string()
        }
    );
    assert_eq!(
        parse_line("token-file  /tmp/my token.jwt  "),
        Command::TokenFile {
            path: "/tmp/my token.jwt".to_string()
        }
    );
    assert_eq!(
        parse_line("set Vehicle.Cabin.Light true"),
        Command::SetValue {
            path: "Vehicle.Cabin.Light".to_string(),
            value: "true".to_string()
        }
    );
    assert_eq!(
        parse_line("set  Vehicle.Levels   [1, 2,  3] "),
        Command::SetValue {
            path: "Vehicle.Levels".to_string(),
            value: "[1, 2,  3]".to_string()
        }
    );
    assert_eq!(
        parse_line("feed Vehicle.Speed 12.5"),
        Command::FeedValue {
            path: "Vehicle.Speed".to_string(),
            value: "12.5".to_string()
        }
    );
    assert_eq!(
        parse_line("subscribe SELECT Vehicle.Speed WHERE Vehicle.Speed > 10"),
        Command::Subscribe {
            query: "SELECT Vehicle.Speed WHERE Vehicle.Speed > 10".to_string()
        }
    );
    assert_eq!(
        parse_line("connect"),
        Command::Connect { uri: String::new() }
    );
    assert_eq!(
        parse_line("connect http://127.0.0.1:55555"),
        Command::Connect {
            uri: "http://127.0.0.1:55555".to_string()
        }
    );
    assert_eq!(parse_line("metadata"), Command::Metadata { patterns: vec![] });
    assert_eq!(
        parse_line("metadata Vehicle.* *.Speed"),
        Command::Metadata {
            patterns: strings(&["Vehicle.*", "*.Speed"])
        }
    );
}

#[test]
fn a_command_without_its_argument_asks_for_its_usage() {
    assert_eq!(parse_line("get"), usage("get"));
    assert_eq!(parse_line(" get  "), usage("get"));
    assert_eq!(parse_line("token"), usage("token"));
    assert_eq!(parse_line("token-file"), usage("token-file"));
    assert_eq!(parse_line("set"), usage("set"));
    assert_eq!(parse_line("set Vehicle.Speed"), usage("set"));
    assert_eq!(parse_line("set Vehicle.Speed  "), usage("set"));
    assert_eq!(parse_line("feed"), usage("feed"));
    assert_eq!(parse_line("feed Vehicle.Speed"), usage("feed"));
    assert_eq!(parse_line("subscribe"), usage("subscribe"));
}

#[test]
fn which_lines_go_into_the_history() {
    for line in ["help", "quit", "exit", "", "   "] {
        assert!(!parse_line(line).is_remembered(), "{:?}", line);
    }
    for line in [
        "get",
        "get a",
        "set a 1",
        "set",
        "feed a 1",
        "subscribe x",
        "connect",
        "metadata",
        "token t",
        "token-file f",
        "nonsense",
    ] {
        assert!(parse_line(line).is_remembered(), "{:?}", line);
    }
}

#[test]
fn connecting_is_skipped_only_when_connected_and_no_address_is_given() {
    assert_eq!(plan_connect(true, ""), ConnectPlan::Stay);
    assert_eq!(plan_connect(false, ""), ConnectPlan::Reconnect);
    assert_eq!(plan_connect(true, "http://host:1"), ConnectPlan::ConnectTo);
    assert_eq!(plan_connect(false, "http://host:1"), ConnectPlan::ConnectTo);
}

#[test]
fn the_first_word_completes_to_a_command() {
    let c = completer();
    assert_eq!(
        proposed(complete(&c, "", "")),
        vec![
            "connect",
            "get",
            "set",
            "subscribe",
            "feed",
            "metadata",
            "token",
            "token-file",
            "help",
            "quit"
        ]
    );
    assert_eq!(proposed(complete(&c, "s", "  ")), vec!["set", "subscribe"]);
    assert_eq!(proposed(complete(&c, "to", "")), vec!["token", "token-file"]);
    assert_eq!(proposed(complete(&c, "token-", "")), vec!["token-file"]);
    assert_eq!(proposed(complete(&c, "x", "")).len(), 0);
    assert_eq!(proposed(complete(&c, "S", "")).len(), 0);
    assert_eq!(
        complete(&c, "q", ""),
        LineCompletion::Proposals(vec![Completion {
            completion: "quit".to_string(),
            display: None,
            suffix: Suffix::Standard
        }])
    );
}

#[test]
fn arguments_complete_to_signal_paths() {
    let c = completer();
    for before in ["get ", "get Vehicle.Speed ", "metadata ", "metadata a b ", "set ", "feed "] {
        assert_eq!(
            proposed(complete(&c, "vehicle.", before)),
            vec!["Vehicle.Cabin.", "Vehicle.Speed"],
            "{:?}",
            before
        );
    }
    // The value of `set` and `feed` is not a path.
    assert_eq!(complete(&c, "v", "set Vehicle.Speed "), LineCompletion::Nothing);
    assert_eq!(complete(&c, "v", "feed Vehicle.Speed "), LineCompletion::Nothing);
    // Without known signals there is nothing to propose.
    assert_eq!(complete(&CliCompleter::new(), "v", "get "), LineCompletion::Nothing);
}

#[test]
fn subscribe_completes_to_select_and_then_to_paths() {
    let c = completer();
    assert_eq!(
        complete(&c, "", "subscribe "),
        LineCompletion::Proposals(vec![Completion::simple("SELECT".to_string())])
    );
    assert_eq!(
        complete(&c, "whatever", "subscribe "),
        LineCompletion::Proposals(vec![Completion::simple("SELECT".to_string())])
    );
    assert_eq!(
        proposed(complete(&c, "vehicle.s", "subscribe SELECT ")),
        vec!["Vehicle.Speed"]
    );
    assert_eq!(
        proposed(complete(&c, "v", "subscribe SELECT Vehicle.Speed WHERE ")),
        vec!["Vehicle."]
    );
    assert_eq!(complete(&c, "v", "subscribe select "), LineCompletion::Nothing);
}

#[test]
fn other_words_complete_to_files_or_nothing() {
    let c = completer();
    assert_eq!(complete(&c, "", "token-file "), LineCompletion::Files);
    assert_eq!(complete(&c, "/tm", "token-file x "), LineCompletion::Files);
    assert_eq!(complete(&c, "v", "token "), LineCompletion::Nothing);
    assert_eq!(complete(&c, "v", "connect "), LineCompletion::Nothing);
    assert_eq!(complete(&c, "v", "help "), LineCompletion::Nothing);
    assert_eq!(complete(&c, "v", "nonsense "), LineCompletion::Nothing);
    assert_eq!(complete(&c, "v", "GET "), LineCompletion::Nothing);
}

#[test]
fn a_line_is_known_by_its_first_word() {
    assert_eq!(operation("set Vehicle.Speed 1"), "set");
    assert_eq!(operation("  token-file   /tmp/t "), "token-file");
    assert_eq!(operation("metadata"), "metadata");
    assert_eq!(operation(""), "");
    assert_eq!(operation("   "), "");
}
