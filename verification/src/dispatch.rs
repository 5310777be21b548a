//! The dispatcher: what each command makes the client do, and what the
//! client says when the broker has answered.
//!
//! The dispatcher calls nobody. [`Dispatcher::dispatch`] turns a command into
//! an [`Action`]; whoever runs the read loop carries the action out and
//! hands the broker's answer to the method that belongs to it.

use crate::command::{
    connect_plan, help_lines, help_text, plan_connect, print_usage, usage_lines, command_table,
    Command, CommandModel, ConnectPlan,
};
use crate::display::{metadata_table, table_line, table_row, widest_name};
use crate::metadata::{descriptors, names, Metadata, MetadataModel};
use crate::namespace::{
    keeps_order_of_equals, sorted_by_name, ClientError, ClientErrorModel, NamespaceCache,
};
use crate::pattern::{complaints, referred, select, selected, texts_of, Selection};
use crate::report::{
    error_report, extend, outputs, plan_write, planned, render_error, Output, OutputModel,
    WriteKind, WritePlan, WritePlanModel,
};
use crate::session::Subscriptions;
use crate::text::{append_literal, chars_of, is_literal, string_of};
use crate::trie::{built, root};
use crate::value::{strings, TypedValue, ValueModel};
use vstd::prelude::*;

verus! {

/// What the read loop is to do for a command.
#[derive(Clone, Debug, PartialEq, Eq)]
pub enum Action {
    /// Tell the user this, and nothing else.
    Say(Vec<Output>),
    /// Tell the user this, and end the loop.
    Leave(Vec<Output>),
    /// Read the values of the signals at these paths.
    Read { paths: Vec<String> },
    /// Install this access token, then fetch the metadata.
    UseToken { token: String },
    /// Install the content of this file as access token, then fetch the
    /// metadata.
    UseTokenFile { path: String },
    /// Write this value, with the time of writing, for the signal with this
    /// id and name.
    Write { kind: WriteKind, id: i32, name: String, value: TypedValue },
    /// Open a subscription to this query.
    Subscribe { query: String },
    /// Connect as planned, to this address where one is planned, then fetch
    /// the metadata if the client is connected.
    Connect { plan: ConnectPlan, uri: String },
    /// Fetch the metadata, and list the signals that match these patterns.
    Refresh { patterns: Vec<String> },
}

/// What an [`Action`] holds.
pub ghost enum ActionModel {
    Say(Seq<OutputModel>),
    Leave(Seq<OutputModel>),
    Read { paths: Seq<Seq<char>> },
    UseToken { token: Seq<char> },
    UseTokenFile { path: Seq<char> },
    Write { kind: WriteKind, id: i32, name: Seq<char>, value: ValueModel },
    Subscribe { query: Seq<char> },
    Connect { plan: ConnectPlan, uri: Seq<char> },
    Refresh { patterns: Seq<Seq<char>> },
}

impl View for Action {
    type V = ActionModel;

    open spec fn view(&self) -> ActionModel {
        match self {
            Action::Say(list) => ActionModel::Say(outputs(list@)),
            Action::Leave(list) => ActionModel::Leave(outputs(list@)),
            Action::Read { paths } => ActionModel::Read { paths: strings(paths@) },
            Action::UseToken { token } => ActionModel::UseToken { token: token@ },
            Action::UseTokenFile { path } => ActionModel::UseTokenFile { path: path@ },
            Action::Write { kind, id, name, value } => ActionModel::Write {
                kind: *kind,
                id: *id,
                name: name@,
                value: value@,
            },
            Action::Subscribe { query } => ActionModel::Subscribe { query: query@ },
            Action::Connect { plan, uri } => ActionModel::Connect { plan: *plan, uri: uri@ },
            Action::Refresh { patterns } => ActionModel::Refresh { patterns: strings(patterns@) },
        }
    }
}

/// Each text as a plain line.
pub open spec fn as_lines(lines: Seq<Seq<char>>) -> Seq<OutputModel> {
    Seq::new(lines.len(), |i: int| OutputModel::Line(lines[i]))
}

/// What is said to a command that nobody knows.
pub open spec fn unknown_command_notice() -> Seq<char> {
    "Unknown command. See `help` for a list of available commands."@
}

/// What is said on leaving.
pub open spec fn farewell() -> Seq<char> {
    "Bye bye!"@
}

/// What a writing command comes to, as an action.
pub open spec fn write_action(
    entries: Seq<MetadataModel>,
    kind: WriteKind,
    path: Seq<char>,
    value: Seq<char>,
) -> ActionModel {
    match planned(entries, kind, path, value) {
        WritePlanModel::Reply(list) => ActionModel::Say(list),
        WritePlanModel::Write { id, name, value } => ActionModel::Write { kind, id, name, value },
    }
}

/// What the read loop is to do for `command`, given the snapshot and
/// whether the client is connected.
pub open spec fn action_for(entries: Seq<MetadataModel>, command: CommandModel, connected: bool) -> ActionModel {
    match command {
        CommandModel::Help => ActionModel::Say(as_lines(help_text())),
        CommandModel::Get { paths } => ActionModel::Read { paths },
        CommandModel::Token { token } => ActionModel::UseToken { token },
        CommandModel::TokenFile { path } => ActionModel::UseTokenFile { path },
        CommandModel::SetValue { path, value } => write_action(
            entries,
            WriteKind::Actuate,
            path,
            value,
        ),
        CommandModel::FeedValue { path, value } => write_action(
            entries,
            WriteKind::Provide,
            path,
            value,
        ),
        CommandModel::Subscribe { query } => ActionModel::Subscribe { query },
        CommandModel::Connect { uri } => match connect_plan(connected, uri) {
            ConnectPlan::Stay => ActionModel::Say(Seq::empty()),
            plan => ActionModel::Connect { plan, uri },
        },
        CommandModel::Metadata { patterns } => ActionModel::Refresh { patterns },
        CommandModel::Quit => ActionModel::Leave(seq![OutputModel::Line(farewell())]),
        CommandModel::Nothing => ActionModel::Say(Seq::empty()),
        CommandModel::Usage { command } => ActionModel::Say(
            as_lines(usage_lines(command_table(), command)),
        ),
        CommandModel::Unknown => ActionModel::Say(
            seq![OutputModel::Line(unknown_command_notice())],
        ),
    }
}

/// Each string as a plain line.
fn lines_of(lines: &Vec<String>) -> (r: Vec<Output>)
    ensures
        outputs(r@) == as_lines(strings(lines@)),
{
    let mut out: Vec<Output> = Vec::new();
    let mut i: usize = 0;
    while i < lines.len()
        invariant
            i <= lines.len(),
            out.len() == i,
            forall|k: int| 0 <= k < i ==> (#[trigger] out@[k])@ == OutputModel::Line(lines@[k]@),
        decreases lines.len() - i,
    {
        out.push(Output::Line(lines[i].clone()));
        i += 1;
    }
    assert(outputs(out@) =~= as_lines(strings(lines@)));
    out
}

/// One plain line.
fn line(text: &str) -> (r: Vec<Output>)
    ensures
        outputs(r@) == seq![OutputModel::Line(text@)],
{
    let mut list: Vec<Output> = Vec::new();
    let only = Output::Line(string_of(&chars_of(text)));
    list.push(only);
    assert(outputs(list@) =~= seq![only@]);
    list
}

/// No output.
fn nothing() -> (r: Vec<Output>)
    ensures
        outputs(r@) == Seq::<OutputModel>::empty(),
{
    let list: Vec<Output> = Vec::new();
    assert(outputs(list@) =~= Seq::<OutputModel>::empty());
    list
}

/// What is said when a token was installed, or was refused as malformed.
pub open spec fn token_report(operation: Seq<char>, answer: Result<(), Seq<char>>) -> OutputModel {
    match answer {
        Ok(_) => OutputModel::Info("Access token set."@),
        Err(why) => OutputModel::Error { operation, message: "Malformed token: "@ + why },
    }
}

/// What is said when the token file could not be read.
pub open spec fn token_file_report(operation: Seq<char>, path: Seq<char>, why: Seq<char>) -> OutputModel {
    OutputModel::Error {
        operation,
        message: "Failed to open token file \""@ + path + "\": "@ + why,
    }
}

/// The answer to installing a token, with the complaint as a text.
pub open spec fn token_answer(answer: Result<(), String>) -> Result<(), Seq<char>> {
    match answer {
        Ok(_) => Ok(()),
        Err(why) => Err(why@),
    }
}

/// Says that a token was installed, or was refused as malformed.
pub fn report_token(operation: &str, answer: &Result<(), String>) -> (r: Output)
    ensures
        r@ == token_report(operation@, token_answer(*answer)),
{
    match answer {
        Ok(_) => Output::Info(string_of(&chars_of("Access token set."))),
        Err(why) => {
            let mut message: Vec<char> = Vec::new();
            append_literal(&mut message, "Malformed token: ");
            append_literal(&mut message, why.as_str());
            assert(message@ =~= "Malformed token: "@ + why@);
            Output::Error {
                operation: string_of(&chars_of(operation)),
                message: string_of(&message),
            }
        },
    }
}

/// Says that the token file could not be read.
pub fn report_token_file(operation: &str, path: &str, why: &str) -> (r: Output)
    ensures
        r@ == token_file_report(operation@, path@, why@),
{
    let mut message: Vec<char> = Vec::new();
    append_literal(&mut message, "Failed to open token file \"");
    append_literal(&mut message, path);
    append_literal(&mut message, "\": ");
    append_literal(&mut message, why);
    assert(message@ =~= "Failed to open token file \""@ + path@ + "\": "@ + why@);
    Output::Error { operation: string_of(&chars_of(operation)), message: string_of(&message) }
}

/// How an attempt to connect ended.
#[derive(Clone, Debug, PartialEq, Eq)]
pub enum ConnectOutcome {
    /// The client is connected to this address.
    Connected { uri: String },
    /// The connection failed, for this reason.
    Failed(String),
    /// The address given could not be read, for this reason.
    BadAddress(String),
}

/// What a [`ConnectOutcome`] holds.
pub ghost enum ConnectOutcomeModel {
    Connected { uri: Seq<char> },
    Failed(Seq<char>),
    BadAddress(Seq<char>),
}

impl View for ConnectOutcome {
    type V = ConnectOutcomeModel;

    open spec fn view(&self) -> ConnectOutcomeModel {
        match self {
            ConnectOutcome::Connected { uri } => ConnectOutcomeModel::Connected { uri: uri@ },
            ConnectOutcome::Failed(why) => ConnectOutcomeModel::Failed(why@),
            ConnectOutcome::BadAddress(why) => ConnectOutcomeModel::BadAddress(why@),
        }
    }
}

/// What is said of an attempt to connect. The command's name stands in
/// brackets before the note of success where the user asked for the
/// connection; at start-up, where `operation` is empty, it does not, and a
/// failure is filed under `connect`.
pub open spec fn connect_report(operation: Seq<char>, outcome: ConnectOutcomeModel) -> OutputModel {
    let filed = if operation.len() == 0 {
        "connect"@
    } else {
        operation
    };
    match outcome {
        ConnectOutcomeModel::Connected { uri } => OutputModel::Info(
            if operation.len() == 0 {
                "Successfully connected to "@ + uri
            } else {
                "["@ + operation + "] Successfully connected to "@ + uri
            },
        ),
        ConnectOutcomeModel::Failed(why) => OutputModel::Error { operation: filed, message: why },
        ConnectOutcomeModel::BadAddress(why) => OutputModel::Error {
            operation: filed,
            message: "Failed to parse endpoint address: "@ + why,
        },
    }
}

/// Says how an attempt to connect ended.
pub fn report_connect(operation: &str, outcome: &ConnectOutcome) -> (r: Output)
    ensures
        r@ == connect_report(operation@, outcome@),
{
    let op = chars_of(operation);
    let filed = if op.len() == 0 {
        string_of(&chars_of("connect"))
    } else {
        string_of(&op)
    };
    match outcome {
        ConnectOutcome::Connected { uri } => {
            let mut text: Vec<char> = Vec::new();
            if op.len() == 0 {
                append_literal(&mut text, "Successfully connected to ");
                append_literal(&mut text, uri.as_str());
                assert(text@ =~= "Successfully connected to "@ + uri@);
            } else {
                append_literal(&mut text, "[");
                append_literal(&mut text, operation);
                append_literal(&mut text, "] Successfully connected to ");
                append_literal(&mut text, uri.as_str());
                assert(text@ =~= "["@ + operation@ + "] Successfully connected to "@ + uri@);
            }
            Output::Info(string_of(&text))
        },
        ConnectOutcome::Failed(why) => Output::Error { operation: filed, message: why.clone() },
        ConnectOutcome::BadAddress(why) => {
            let mut message: Vec<char> = Vec::new();
            append_literal(&mut message, "Failed to parse endpoint address: ");
            append_literal(&mut message, why.as_str());
            assert(message@ =~= "Failed to parse endpoint address: "@ + why@);
            Output::Error { operation: filed, message: string_of(&message) }
        },
    }
}

/// The operation under which a failed metadata fetch is filed when it
/// follows `command`: `metadata`, but a failure of the client itself after
/// `token-file` or `connect` is filed under that command.
pub open spec fn refresh_operation(command: Seq<char>, error: ClientErrorModel) -> Seq<char> {
    if error is Function && (command == "token-file"@ || command == "connect"@) {
        command
    } else {
        "metadata"@
    }
}

/// The remark that tells how to list signals.
pub open spec fn listing_hint() -> Seq<char> {
    "If you want to list metadata of signals, use `metadata PATTERN`"@
}

/// The complaints as remarks, then the table of the entries: its head as a
/// remark and a plain line for each entry; no table where there is no entry.
pub open spec fn selection_report(entries: Seq<MetadataModel>, complaints: Seq<Seq<char>>) -> Seq<
    OutputModel,
> {
    let width = widest_name(entries) as int;
    Seq::new(complaints.len(), |i: int| OutputModel::Info(complaints[i])) + (if entries.len()
        == 0 {
        Seq::empty()
    } else {
        seq![OutputModel::Info(table_line(width, "Path"@, "Entry type"@, "Data type"@))]
            + Seq::new(entries.len(), |i: int| OutputModel::Line(table_row(width, entries[i])))
    })
}

/// Reports what filtering the known signals gave.
pub fn report_selection(selection: &Selection) -> (r: Vec<Output>)
    ensures
        outputs(r@) == selection_report(
            referred(selection.entries@),
            texts_of(selection.complaints@),
        ),
{
    let ghost entries = referred(selection.entries@);
    let ghost complaints = texts_of(selection.complaints@);
    let mut list: Vec<Output> = Vec::new();
    let mut i: usize = 0;
    while i < selection.complaints.len()
        invariant
            i <= selection.complaints.len(),
            list.len() == i,
            forall|k: int|
                0 <= k < i ==> (#[trigger] list@[k])@ == OutputModel::Info(
                    selection.complaints@[k]@,
                ),
        decreases selection.complaints.len() - i,
    {
        list.push(Output::Info(selection.complaints[i].clone()));
        i += 1;
    }
    let ghost head = outputs(list@);
    assert(head =~= Seq::new(complaints.len(), |i: int| OutputModel::Info(complaints[i])));
    match metadata_table(&selection.entries) {
        None => {
            assert(outputs(list@) =~= selection_report(entries, complaints));
        },
        Some(table) => {
            let ghost width = widest_name(entries) as int;
            let n = list.len();
            list.push(Output::Info(table.header.clone()));
            let mut k: usize = 0;
            while k < table.rows.len()
                invariant
                    k <= table.rows.len(),
                    table.rows.len() == entries.len(),
                    list.len() == n + 1 + k,
                    n == complaints.len(),
                    forall|j: int| 0 <= j < n ==> (#[trigger] list@[j])@ == head[j],
                    list@[n as int]@ == OutputModel::Info(table.header@),
                    forall|j: int|
                        0 <= j < k ==> (#[trigger] list@[n + 1 + j])@ == OutputModel::Line(
                            table.rows@[j]@,
                        ),
                decreases table.rows.len() - k,
            {
                list.push(Output::Line(table.rows[k].clone()));
                k += 1;
            }
            proof {
                let want = selection_report(entries, complaints);
                assert(outputs(list@).len() == want.len());
                assert forall|j: int| 0 <= j < want.len() implies outputs(list@)[j] == want[j] by {
                    if j < n {
                        assert(list@[j]@ == head[j]);
                    } else if j > n {
                        assert(list@[n + 1 + (j - n - 1)]@ == OutputModel::Line(
                            table.rows@[j - n - 1]@,
                        ));
                    }
                }
                assert(outputs(list@) =~= want);
            }
        },
    }
    list
}

/// The client's state between commands: the namespace snapshot and the
/// numbers of the subscriptions.
#[derive(Debug)]
pub struct Dispatcher {
    pub cache: NamespaceCache,
    pub subscriptions: Subscriptions,
}

impl Dispatcher {
    /// A dispatcher that knows no signal and has opened no subscription.
    pub fn new() -> (r: Dispatcher)
        ensures
            r.cache@.entries.len() == 0,
            r.cache@.trie == root(),
            r.subscriptions.next == 1,
    {
        Dispatcher { cache: NamespaceCache::new(), subscriptions: Subscriptions::new() }
    }

    /// Decides what the read loop is to do for `command`.
    pub fn dispatch(&self, command: Command, connected: bool) -> (r: Action)
        ensures
            r@ == action_for(self.cache@.entries, command@, connected),
    {
        match command {
            Command::Help => Action::Say(lines_of(&help_lines())),
            Command::Get { paths } => Action::Read { paths },
            Command::Token { token } => Action::UseToken { token },
            Command::TokenFile { path } => Action::UseTokenFile { path },
            Command::SetValue { path, value } => {
                match plan_write(&self.cache, WriteKind::Actuate, path.as_str(), value.as_str()) {
                    WritePlan::Reply(list) => Action::Say(list),
                    WritePlan::Write { id, name, value } => Action::Write {
                        kind: WriteKind::Actuate,
                        id,
                        name,
                        value,
                    },
                }
            },
            Command::FeedValue { path, value } => {
                match plan_write(&self.cache, WriteKind::Provide, path.as_str(), value.as_str()) {
                    WritePlan::Reply(list) => Action::Say(list),
                    WritePlan::Write { id, name, value } => Action::Write {
                        kind: WriteKind::Provide,
                        id,
                        name,
                        value,
                    },
                }
            },
            Command::Subscribe { query } => Action::Subscribe { query },
            Command::Connect { uri } => {
                match plan_connect(connected, uri.as_str()) {
                    ConnectPlan::Stay => Action::Say(nothing()),
                    plan => Action::Connect { plan, uri },
                }
            },
            Command::Metadata { patterns } => Action::Refresh { patterns },
            Command::Quit => Action::Leave(line("Bye bye!")),
            Command::Nothing => Action::Say(nothing()),
            Command::Usage { command } => Action::Say(lines_of(&print_usage(command.as_str()))),
            Command::Unknown => Action::Say(
                line("Unknown command. See `help` for a list of available commands."),
            ),
        }
    }

    /// Takes the outcome of the metadata fetch that follows `command`. A
    /// fetch that succeeded replaces the snapshot, and nothing is said; one
    /// that failed leaves the snapshot as it was, and the failure is
    /// reported.
    pub fn on_refresh(&mut self, command: &str, fetched: Result<Vec<Metadata>, ClientError>) -> (r:
        Vec<Output>)
        ensures
            final(self).subscriptions == old(self).subscriptions,
            match fetched {
                Ok(list) => {
                    &&& outputs(r@) == Seq::<OutputModel>::empty()
                    &&& final(self).cache@.entries == descriptors(list@)
                    &&& final(self).cache@.trie == built(names(descriptors(list@)))
                },
                Err(e) => {
                    &&& outputs(r@) == seq![error_report(refresh_operation(command@, e@), e@)]
                    &&& final(self).cache == old(self).cache
                },
            },
    {
        match self.cache.refresh(fetched) {
            None => nothing(),
            Some(e) => {
                let cmd = chars_of(command);
                let only = match &e {
                    ClientError::Function(_) => {
                        if is_literal(&cmd, "token-file") || is_literal(&cmd, "connect") {
                            render_error(command, &e)
                        } else {
                            render_error("metadata", &e)
                        }
                    },
                    _ => render_error("metadata", &e),
                };
                let mut list: Vec<Output> = Vec::new();
                list.push(only);
                assert(outputs(list@) =~= seq![only@]);
                list
            },
        }
    }

    /// Takes the outcome of the metadata fetch of the `metadata` command. A
    /// fetch that failed leaves the snapshot as it was, and the failure is
    /// reported. One that succeeded replaces the snapshot by the signals
    /// fetched, in ascending order of their names; success is noted, and the
    /// signals that match the patterns are listed, or, without a pattern,
    /// the user is told how to list them.
    pub fn on_metadata(
        &mut self,
        operation: &str,
        fetched: Result<Vec<Metadata>, ClientError>,
        patterns: &Vec<String>,
    ) -> (r: Vec<Output>)
        ensures
            final(self).subscriptions == old(self).subscriptions,
            match fetched {
                Ok(list) => {
                    let entries = final(self).cache@.entries;
                    &&& sorted_by_name(entries)
                    &&& entries.to_multiset() == descriptors(list@).to_multiset()
                    &&& keeps_order_of_equals(descriptors(list@), entries)
                    &&& final(self).cache@.trie == built(names(entries))
                    &&& r.len() > 0
                    &&& r@[0]@ == OutputModel::ResponseOk { operation: operation@ }
                    &&& if patterns.len() == 0 {
                        outputs(r@).skip(1) == seq![OutputModel::Info(listing_hint())]
                    } else {
                        outputs(r@).skip(1) == selection_report(
                            selected(entries, strings(patterns@)),
                            complaints(strings(patterns@)),
                        )
                    }
                },
                Err(e) => {
                    &&& outputs(r@) == seq![error_report(operation@, e@)]
                    &&& final(self).cache == old(self).cache
                },
            },
    {
        match self.cache.refresh_sorted(fetched) {
            Some(e) => {
                let only = render_error(operation, &e);
                let mut list: Vec<Output> = Vec::new();
                list.push(only);
                assert(outputs(list@) =~= seq![only@]);
                list
            },
            None => {
                let mut list: Vec<Output> = Vec::new();
                let first = Output::ResponseOk { operation: string_of(&chars_of(operation)) };
                list.push(first);
                if patterns.len() == 0 {
                    let second = Output::Info(
                        string_of(
                            &chars_of(
                                "If you want to list metadata of signals, use `metadata PATTERN`",
                            ),
                        ),
                    );
                    list.push(second);
                    assert(outputs(list@).skip(1) =~= seq![second@]);
                } else {
                    let selection = select(self.cache.properties.as_slice(), patterns);
                    let rest = report_selection(&selection);
                    let ghost tail = outputs(rest@);
                    let ghost head = outputs(list@);
                    extend(&mut list, rest);
                    proof {
                        assert(head =~= seq![first@]);
                        assert(outputs(list@).len() == 1 + tail.len());
                        assert(outputs(list@)[0] == first@);
                        assert(outputs(list@).skip(1) =~= tail);
                        assert(texts_of(patterns@) =~= strings(patterns@));
                    }
                }
                list
            },
        }
    }
}

} // verus!
