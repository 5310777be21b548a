//! The commands of the client: their names and usage, the reading of an
//! input line as a command, and the completion of a line under the cursor.

use crate::text::{
    append_literal, append_padded, chars_of, fields, first_word, is_literal, padded,
    split_fields, split_first_word, starts_with, string_of, texts, Delimiter,
};
use crate::trie::{
    completions, offered, sorted_by_display, CliCompleter, Completion, CompletionModel, Node,
    Suffix,
};
use crate::value::strings;
use vstd::prelude::*;

verus! {

/// A command's name, the arguments it takes, and what it does.
#[derive(Clone, Copy, Debug, PartialEq, Eq)]
pub struct CommandInfo {
    pub name: &'static str,
    pub usage: &'static str,
    pub help: &'static str,
}

/// What a [`CommandInfo`] holds.
pub ghost struct CommandInfoModel {
    pub name: Seq<char>,
    pub usage: Seq<char>,
    pub help: Seq<char>,
}

impl View for CommandInfo {
    type V = CommandInfoModel;

    open spec fn view(&self) -> CommandInfoModel {
        CommandInfoModel { name: self.name@, usage: self.usage@, help: self.help@ }
    }
}

/// What the entries of `list` hold.
pub open spec fn infos(list: Seq<CommandInfo>) -> Seq<CommandInfoModel> {
    Seq::new(list.len(), |i: int| list[i]@)
}

/// The commands, in the order in which `help` lists them.
pub open spec fn command_table() -> Seq<CommandInfoModel> {
    seq![
        CommandInfoModel { name: "connect"@, usage: "[URI]"@, help: "Connect to server"@ },
        CommandInfoModel {
            name: "get"@,
            usage: "<PATH> [[PATH] ...]"@,
            help: "Get signal value(s)"@,
        },
        CommandInfoModel { name: "set"@, usage: "<PATH> <VALUE>"@, help: "Set actuator signal"@ },
        CommandInfoModel {
            name: "subscribe"@,
            usage: "<QUERY>"@,
            help: "Subscribe to signals with QUERY, if you use kuksa feature comma separated list"@,
        },
        CommandInfoModel {
            name: "feed"@,
            usage: "<PATH> <VALUE>"@,
            help: "Publish signal value"@,
        },
        CommandInfoModel {
            name: "metadata"@,
            usage: "[PATTERN]"@,
            help: "Fetch metadata. Provide PATTERN to list metadata of signals matching pattern."@,
        },
        CommandInfoModel { name: "token"@, usage: "<TOKEN>"@, help: "Use TOKEN as access token"@ },
        CommandInfoModel {
            name: "token-file"@,
            usage: "<FILE>"@,
            help: "Use content of FILE as access token"@,
        },
        CommandInfoModel { name: "help"@, usage: ""@, help: "You're looking at it."@ },
        CommandInfoModel { name: "quit"@, usage: ""@, help: "Quit"@ },
    ]
}

/// The commands, in the order in which `help` lists them.
pub fn cli_commands() -> (r: Vec<CommandInfo>)
    ensures
        infos(r@) == command_table(),
{
    let mut list: Vec<CommandInfo> = Vec::new();
    list.push(CommandInfo { name: "connect", usage: "[URI]", help: "Connect to server" });
    list.push(
        CommandInfo { name: "get", usage: "<PATH> [[PATH] ...]", help: "Get signal value(s)" },
    );
    list.push(CommandInfo { name: "set", usage: "<PATH> <VALUE>", help: "Set actuator signal" });
    list.push(
        CommandInfo {
            name: "subscribe",
            usage: "<QUERY>",
            help: "Subscribe to signals with QUERY, if you use kuksa feature comma separated list",
        },
    );
    list.push(CommandInfo { name: "feed", usage: "<PATH> <VALUE>", help: "Publish signal value" });
    list.push(
        CommandInfo {
            name: "metadata",
            usage: "[PATTERN]",
            help: "Fetch metadata. Provide PATTERN to list metadata of signals matching pattern.",
        },
    );
    list.push(CommandInfo { name: "token", usage: "<TOKEN>", help: "Use TOKEN as access token" });
    list.push(
        CommandInfo {
            name: "token-file",
            usage: "<FILE>",
            help: "Use content of FILE as access token",
        },
    );
    list.push(CommandInfo { name: "help", usage: "", help: "You're looking at it." });
    list.push(CommandInfo { name: "quit", usage: "", help: "Quit" });
    assert(infos(list@) =~= command_table());
    list
}

/// The usage line of a command.
pub open spec fn usage_line(info: CommandInfoModel) -> Seq<char> {
    "Usage: "@ + info.name + " "@ + info.usage
}

/// The usage lines of the entries of `table` that are named `command`.
pub open spec fn usage_lines(table: Seq<CommandInfoModel>, command: Seq<char>) -> Seq<Seq<char>>
    decreases table.len(),
{
    if table.len() == 0 {
        Seq::empty()
    } else {
        let before = usage_lines(table.drop_last(), command);
        if table.last().name == command {
            before.push(usage_line(table.last()))
        } else {
            before
        }
    }
}

/// The usage line of the command named `command`; nothing for any other
/// name.
pub fn print_usage(command: &str) -> (r: Vec<String>)
    ensures
        strings(r@) == usage_lines(command_table(), command@),
{
    let table = cli_commands();
    let wanted = chars_of(command);
    let ghost all = infos(table@);
    let mut lines: Vec<String> = Vec::new();
    let mut i: usize = 0;
    assert(all.take(0) =~= Seq::<CommandInfoModel>::empty());
    assert(strings(lines@) =~= usage_lines(all.take(0), command@));
    while i < table.len()
        invariant
            i <= table.len(),
            all == infos(table@),
            wanted@ == command@,
            strings(lines@) == usage_lines(all.take(i as int), command@),
        decreases table.len() - i,
    {
        let ghost before = strings(lines@);
        proof {
            assert(all.take(i + 1).drop_last() =~= all.take(i as int));
            assert(all.take(i + 1).last() == table@[i as int]@);
        }
        if is_literal(&wanted, table[i].name) {
            let mut line: Vec<char> = Vec::new();
            append_literal(&mut line, "Usage: ");
            append_literal(&mut line, table[i].name);
            append_literal(&mut line, " ");
            append_literal(&mut line, table[i].usage);
            assert(line@ =~= usage_line(table@[i as int]@));
            lines.push(string_of(&line));
            assert(strings(lines@) =~= before.push(usage_line(table@[i as int]@)));
        }
        i += 1;
    }
    assert(all.take(table.len() as int) =~= all);
    lines
}

/// The line of `help` for one command: two spaces, the name and arguments
/// padded to 24 characters, a space, and what the command does.
pub open spec fn help_line(info: CommandInfoModel) -> Seq<char> {
    "  "@ + padded(info.name + " "@ + info.usage, 24) + " "@ + info.help
}

/// What `help` prints: an empty line, a line for each command, an empty
/// line.
pub open spec fn help_text() -> Seq<Seq<char>> {
    seq![Seq::<char>::empty()] + Seq::new(
        command_table().len(),
        |i: int| help_line(command_table()[i]),
    ) + seq![Seq::<char>::empty()]
}

/// What `help` prints.
pub fn help_lines() -> (r: Vec<String>)
    ensures
        strings(r@) == help_text(),
{
    let table = cli_commands();
    let mut lines: Vec<String> = Vec::new();
    lines.push(String::new());
    let mut i: usize = 0;
    while i < table.len()
        invariant
            i <= table.len(),
            infos(table@) == command_table(),
            lines.len() == i + 1,
            lines@[0]@ == Seq::<char>::empty(),
            forall|k: int|
                0 <= k < i ==> (#[trigger] lines@[k + 1])@ == help_line(command_table()[k]),
        decreases table.len() - i,
    {
        assert(infos(table@)[i as int] == table@[i as int]@);
        let mut left = chars_of(table[i].name);
        append_literal(&mut left, " ");
        append_literal(&mut left, table[i].usage);
        let mut line: Vec<char> = Vec::new();
        append_literal(&mut line, "  ");
        append_padded(&mut line, &left, 24);
        append_literal(&mut line, " ");
        append_literal(&mut line, table[i].help);
        assert(line@ =~= help_line(table@[i as int]@));
        lines.push(string_of(&line));
        i += 1;
    }
    lines.push(String::new());
    proof {
        let t = command_table();
        let h = help_text();
        assert(infos(table@).len() == t.len());
        assert(h.len() == t.len() + 2);
        assert forall|k: int| 0 <= k < h.len() implies strings(lines@)[k] == h[k] by {
            if 0 < k && k <= t.len() {
                assert(lines@[(k - 1) + 1]@ == help_line(t[k - 1]));
            }
        }
    }
    assert(strings(lines@) =~= help_text());
    lines
}

/// What an input line asks for.
#[derive(Clone, Debug, PartialEq, Eq)]
pub enum Command {
    /// List the commands.
    Help,
    /// Read the values of the signals at these paths.
    Get { paths: Vec<String> },
    /// Use this access token.
    Token { token: String },
    /// Use the content of this file as access token.
    TokenFile { path: String },
    /// Set the actuator at this path to this value.
    SetValue { path: String, value: String },
    /// Publish this value for the signal at this path.
    FeedValue { path: String, value: String },
    /// Subscribe to this query.
    Subscribe { query: String },
    /// Connect to this address, or to the present one where it is empty.
    Connect { uri: String },
    /// Fetch the metadata, and list the signals that match these patterns.
    Metadata { patterns: Vec<String> },
    /// Leave.
    Quit,
    /// The line was empty.
    Nothing,
    /// The command of this name lacks an argument: show how it is used.
    Usage { command: String },
    /// No such command.
    Unknown,
}

/// What a [`Command`] holds.
pub ghost enum CommandModel {
    Help,
    Get { paths: Seq<Seq<char>> },
    Token { token: Seq<char> },
    TokenFile { path: Seq<char> },
    SetValue { path: Seq<char>, value: Seq<char> },
    FeedValue { path: Seq<char>, value: Seq<char> },
    Subscribe { query: Seq<char> },
    Connect { uri: Seq<char> },
    Metadata { patterns: Seq<Seq<char>> },
    Quit,
    Nothing,
    Usage { command: Seq<char> },
    Unknown,
}

impl View for Command {
    type V = CommandModel;

    open spec fn view(&self) -> CommandModel {
        match self {
            Command::Help => CommandModel::Help,
            Command::Get { paths } => CommandModel::Get { paths: strings(paths@) },
            Command::Token { token } => CommandModel::Token { token: token@ },
            Command::TokenFile { path } => CommandModel::TokenFile { path: path@ },
            Command::SetValue { path, value } => CommandModel::SetValue {
                path: path@,
                value: value@,
            },
            Command::FeedValue { path, value } => CommandModel::FeedValue {
                path: path@,
                value: value@,
            },
            Command::Subscribe { query } => CommandModel::Subscribe { query: query@ },
            Command::Connect { uri } => CommandModel::Connect { uri: uri@ },
            Command::Metadata { patterns } => CommandModel::Metadata {
                patterns: strings(patterns@),
            },
            Command::Quit => CommandModel::Quit,
            Command::Nothing => CommandModel::Nothing,
            Command::Usage { command } => CommandModel::Usage { command: command@ },
            Command::Unknown => CommandModel::Unknown,
        }
    }
}

/// What the line asks for: its first word names the command, the rest are
/// the arguments. A command that needs an argument and has none asks for
/// its usage instead.
pub open spec fn parsed(line: Seq<char>) -> CommandModel {
    let (cmd, args) = first_word(line);
    if cmd == "help"@ {
        CommandModel::Help
    } else if cmd == "get"@ {
        if args.len() == 0 {
            CommandModel::Usage { command: cmd }
        } else {
            CommandModel::Get { paths: fields(args, Delimiter::Whitespace) }
        }
    } else if cmd == "token"@ {
        if args.len() == 0 {
            CommandModel::Usage { command: cmd }
        } else {
            CommandModel::Token { token: args }
        }
    } else if cmd == "token-file"@ {
        if args.len() == 0 {
            CommandModel::Usage { command: cmd }
        } else {
            CommandModel::TokenFile { path: args }
        }
    } else if cmd == "set"@ {
        let (path, value) = first_word(args);
        if value.len() == 0 {
            CommandModel::Usage { command: cmd }
        } else {
            CommandModel::SetValue { path, value }
        }
    } else if cmd == "feed"@ {
        let (path, value) = first_word(args);
        if value.len() == 0 {
            CommandModel::Usage { command: cmd }
        } else {
            CommandModel::FeedValue { path, value }
        }
    } else if cmd == "subscribe"@ {
        if args.len() == 0 {
            CommandModel::Usage { command: cmd }
        } else {
            CommandModel::Subscribe { query: args }
        }
    } else if cmd == "connect"@ {
        CommandModel::Connect { uri: args }
    } else if cmd == "metadata"@ {
        CommandModel::Metadata { patterns: fields(args, Delimiter::Whitespace) }
    } else if cmd == "quit"@ || cmd == "exit"@ {
        CommandModel::Quit
    } else if cmd.len() == 0 {
        CommandModel::Nothing
    } else {
        CommandModel::Unknown
    }
}

/// The name under which a line's command is known: its first word.
pub fn operation(line: &str) -> (r: String)
    ensures
        r@ == first_word(line@).0,
{
    let (cmd, _) = split_first_word(&chars_of(line));
    string_of(&cmd)
}

/// The strings that hold the texts of `items`.
fn to_strings(items: &Vec<Vec<char>>) -> (r: Vec<String>)
    ensures
        strings(r@) == texts(items@),
{
    let mut out: Vec<String> = Vec::new();
    let mut i: usize = 0;
    while i < items.len()
        invariant
            i <= items.len(),
            out.len() == i,
            forall|k: int| 0 <= k < i ==> (#[trigger] out@[k])@ == items@[k]@,
        decreases items.len() - i,
    {
        out.push(string_of(&items[i]));
        i += 1;
    }
    assert(strings(out@) =~= texts(items@));
    out
}

/// Reads an input line as a command.
pub fn parse_line(line: &str) -> (r: Command)
    ensures
        r@ == parsed(line@),
{
    let (cmd, args) = split_first_word(&chars_of(line));
    if is_literal(&cmd, "help") {
        Command::Help
    } else if is_literal(&cmd, "get") {
        if args.len() == 0 {
            Command::Usage { command: string_of(&cmd) }
        } else {
            Command::Get { paths: to_strings(&split_fields(&args, Delimiter::Whitespace)) }
        }
    } else if is_literal(&cmd, "token") {
        if args.len() == 0 {
            Command::Usage { command: string_of(&cmd) }
        } else {
            Command::Token { token: string_of(&args) }
        }
    } else if is_literal(&cmd, "token-file") {
        if args.len() == 0 {
            Command::Usage { command: string_of(&cmd) }
        } else {
            Command::TokenFile { path: string_of(&args) }
        }
    } else if is_literal(&cmd, "set") {
        let (path, value) = split_first_word(&args);
        if value.len() == 0 {
            Command::Usage { command: string_of(&cmd) }
        } else {
            Command::SetValue { path: string_of(&path), value: string_of(&value) }
        }
    } else if is_literal(&cmd, "feed") {
        let (path, value) = split_first_word(&args);
        if value.len() == 0 {
            Command::Usage { command: string_of(&cmd) }
        } else {
            Command::FeedValue { path: string_of(&path), value: string_of(&value) }
        }
    } else if is_literal(&cmd, "subscribe") {
        if args.len() == 0 {
            Command::Usage { command: string_of(&cmd) }
        } else {
            Command::Subscribe { query: string_of(&args) }
        }
    } else if is_literal(&cmd, "connect") {
        Command::Connect { uri: string_of(&args) }
    } else if is_literal(&cmd, "metadata") {
        Command::Metadata { patterns: to_strings(&split_fields(&args, Delimiter::Whitespace)) }
    } else if is_literal(&cmd, "quit") || is_literal(&cmd, "exit") {
        Command::Quit
    } else if cmd.len() == 0 {
        Command::Nothing
    } else {
        Command::Unknown
    }
}

impl Command {
    /// Whether the line that asked for this goes into the history: every
    /// line does but `help`, `quit` and the empty one.
    pub open spec fn remembered(self) -> bool {
        !(self is Help || self is Quit || self is Nothing)
    }

    /// Whether the line that asked for this goes into the history.
    pub fn is_remembered(&self) -> (r: bool)
        ensures
            r == (*self).remembered(),
    {
        match self {
            Command::Help | Command::Quit | Command::Nothing => false,
            _ => true,
        }
    }
}

/// What `connect` is to do.
#[derive(Clone, Copy, Debug, PartialEq, Eq, Structural)]
pub enum ConnectPlan {
    /// Nothing: the client is connected, and no address was given.
    Stay,
    /// Connect to the address that the client has.
    Reconnect,
    /// Connect to the address given.
    ConnectTo,
}

/// What `connect` is to do, given whether the client is connected and
/// whether an address was given.
pub open spec fn connect_plan(connected: bool, uri: Seq<char>) -> ConnectPlan {
    if uri.len() > 0 {
        ConnectPlan::ConnectTo
    } else if connected {
        ConnectPlan::Stay
    } else {
        ConnectPlan::Reconnect
    }
}

/// Decides what `connect` is to do.
pub fn plan_connect(connected: bool, uri: &str) -> (r: ConnectPlan)
    ensures
        r == connect_plan(connected, uri@),
{
    let given = chars_of(uri);
    if given.len() > 0 {
        ConnectPlan::ConnectTo
    } else if connected {
        ConnectPlan::Stay
    } else {
        ConnectPlan::Reconnect
    }
}

/// What is proposed for the word under the cursor.
#[derive(Clone, Debug, PartialEq, Eq)]
pub enum LineCompletion {
    /// These proposals.
    Proposals(Vec<Completion>),
    /// Nothing.
    Nothing,
    /// The names of files: that is the line editor's own business.
    Files,
}

/// What a [`LineCompletion`] holds.
pub ghost enum LineCompletionModel {
    Proposals(Seq<CompletionModel>),
    Nothing,
    Files,
}

impl View for LineCompletion {
    type V = LineCompletionModel;

    open spec fn view(&self) -> LineCompletionModel {
        match self {
            LineCompletion::Proposals(list) => LineCompletionModel::Proposals(completions(list@)),
            LineCompletion::Nothing => LineCompletionModel::Nothing,
            LineCompletion::Files => LineCompletionModel::Files,
        }
    }
}

/// The proposal for a command's name.
pub open spec fn command_proposal(info: CommandInfoModel) -> CompletionModel {
    CompletionModel { completion: info.name, display: None, suffix: Suffix::Standard }
}

/// The proposals for the commands of `table` whose name begins with `word`.
pub open spec fn command_proposals(table: Seq<CommandInfoModel>, word: Seq<char>) -> Seq<
    CompletionModel,
>
    decreases table.len(),
{
    if table.len() == 0 {
        Seq::empty()
    } else {
        let before = command_proposals(table.drop_last(), word);
        if word.is_prefix_of(table.last().name) {
            before.push(command_proposal(table.last()))
        } else {
            before
        }
    }
}

/// Whether `result` completes the signal path `word` from the trie: nothing
/// while no signal is known; else the proposals that the trie offers, in
/// ascending order of the texts shown.
pub open spec fn completes_path(trie: Node, word: Seq<char>, result: LineCompletionModel) -> bool {
    match result {
        LineCompletionModel::Nothing => trie.children.len() == 0,
        LineCompletionModel::Proposals(list) => {
            &&& trie.children.len() > 0
            &&& sorted_by_display(list)
            &&& list.to_multiset() == offered(trie, word).to_multiset()
        },
        LineCompletionModel::Files => false,
    }
}

/// Whether `result` completes `word`, given the words that stand before it
/// on the line.
///
/// With no word before it, `word` is a command's name. After `get` and
/// `metadata` it is a signal path; after `set` and `feed` only the first
/// word is. After `subscribe` comes `SELECT`, and after that signal paths.
/// After `token-file` it is the name of a file.
pub open spec fn completes(
    trie: Node,
    word: Seq<char>,
    before: Seq<Seq<char>>,
    result: LineCompletionModel,
) -> bool {
    if before.len() == 0 {
        result == LineCompletionModel::Proposals(command_proposals(command_table(), word))
    } else if before[0] == "set"@ || before[0] == "feed"@ {
        if before.len() == 1 {
            completes_path(trie, word, result)
        } else {
            result == LineCompletionModel::Nothing
        }
    } else if before[0] == "get"@ || before[0] == "metadata"@ {
        completes_path(trie, word, result)
    } else if before[0] == "subscribe"@ {
        if before.len() == 1 {
            result == LineCompletionModel::Proposals(
                seq![
                    CompletionModel {
                        completion: "SELECT"@,
                        display: None,
                        suffix: Suffix::Standard,
                    },
                ],
            )
        } else if before[1] == "SELECT"@ {
            completes_path(trie, word, result)
        } else {
            result == LineCompletionModel::Nothing
        }
    } else if before[0] == "token-file"@ {
        result == LineCompletionModel::Files
    } else {
        result == LineCompletionModel::Nothing
    }
}

/// The proposals for the commands whose name begins with `word`.
fn complete_command(word: &Vec<char>) -> (r: Vec<Completion>)
    ensures
        completions(r@) == command_proposals(command_table(), word@),
{
    let table = cli_commands();
    let ghost all = infos(table@);
    let mut compls: Vec<Completion> = Vec::new();
    let mut i: usize = 0;
    assert(all.take(0) =~= Seq::<CommandInfoModel>::empty());
    assert(completions(compls@) =~= command_proposals(all.take(0), word@));
    while i < table.len()
        invariant
            i <= table.len(),
            all == infos(table@),
            completions(compls@) == command_proposals(all.take(i as int), word@),
        decreases table.len() - i,
    {
        let ghost before = completions(compls@);
        proof {
            assert(all.take(i + 1).drop_last() =~= all.take(i as int));
            assert(all.take(i + 1).last() == table@[i as int]@);
        }
        let name = chars_of(table[i].name);
        if starts_with(&name, word) {
            let item = Completion {
                completion: string_of(&name),
                display: None,
                suffix: Suffix::Standard,
            };
            compls.push(item);
            assert(completions(compls@) =~= before.push(command_proposal(table@[i as int]@)));
        }
        i += 1;
    }
    assert(all.take(table.len() as int) =~= all);
    compls
}

/// Completes `word` as a signal path.
fn complete_path(completer: &CliCompleter, word: &str) -> (r: LineCompletion)
    ensures
        completes_path(completer.paths@, word@, r@),
{
    match completer.complete_entry_path(word) {
        Some(list) => LineCompletion::Proposals(list),
        None => LineCompletion::Nothing,
    }
}

/// Completes `word`, which stands behind `line` on the input line.
pub fn complete(completer: &CliCompleter, word: &str, line: &str) -> (r: LineCompletion)
    ensures
        completes(completer.paths@, word@, fields(line@, Delimiter::Whitespace), r@),
{
    let words = split_fields(&chars_of(line), Delimiter::Whitespace);
    proof {
        if words.len() > 0 {
            assert(texts(words@)[0] == words@[0]@);
        }
        if words.len() > 1 {
            assert(texts(words@)[1] == words@[1]@);
        }
    }
    if words.len() == 0 {
        LineCompletion::Proposals(complete_command(&chars_of(word)))
    } else if is_literal(&words[0], "set") || is_literal(&words[0], "feed") {
        if words.len() == 1 {
            complete_path(completer, word)
        } else {
            LineCompletion::Nothing
        }
    } else if is_literal(&words[0], "get") || is_literal(&words[0], "metadata") {
        complete_path(completer, word)
    } else if is_literal(&words[0], "subscribe") {
        if words.len() == 1 {
            let only = Completion::simple(string_of(&chars_of("SELECT")));
            let mut list: Vec<Completion> = Vec::new();
            list.push(only);
            assert(completions(list@) =~= seq![only@]);
            LineCompletion::Proposals(list)
        } else if is_literal(&words[1], "SELECT") {
            complete_path(completer, word)
        } else {
            LineCompletion::Nothing
        }
    } else if is_literal(&words[0], "token-file") {
        LineCompletion::Files
    } else {
        LineCompletion::Nothing
    }
}

} // verus!
