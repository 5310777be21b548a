//! What the client says to its user: the kinds of output, the wording of
//! each message, and the rendering of errors and of the broker's answers.
//!
//! Nothing here prints. A command handler hands back a list of [`Output`]s,
//! and whoever runs the terminal writes them in that order.

use crate::decimal::{decimal_text, signed_text};
use crate::display::{data_type_text, model_of, shown_value, value_text, DisplayDataType};
use crate::metadata::{DatapointError, MetadataModel};
use crate::namespace::{
    last_named, lemma_last_named, ClientError, ClientErrorModel, NamespaceCache,
};
use crate::text::{append_chars, append_literal, chars_of, string_of};
use crate::value::{
    coerced_for_code, try_into_data_value_for_code, DataType, TypedValue, ValueModel,
};
use vstd::prelude::*;

verus! {

/// One thing to tell the user.
#[derive(Clone, Debug, PartialEq, Eq)]
pub enum Output {
    /// A remark, shown dimmed.
    Info(String),
    /// A failure of the client, shown with the operation it belongs to.
    Error { operation: String, message: String },
    /// The operation succeeded.
    ResponseOk { operation: String },
    /// The operation succeeded, with something to add.
    ResponseOkWith { operation: String, detail: String },
    /// The broker refused the operation, with its status code and message.
    ResponseErr { operation: String, code: String, message: String },
    /// The operation failed, with something to add.
    ResponseErrWith { operation: String, detail: String },
    /// A plain line.
    Line(String),
}

/// What an [`Output`] holds.
pub ghost enum OutputModel {
    Info(Seq<char>),
    Error { operation: Seq<char>, message: Seq<char> },
    ResponseOk { operation: Seq<char> },
    ResponseOkWith { operation: Seq<char>, detail: Seq<char> },
    ResponseErr { operation: Seq<char>, code: Seq<char>, message: Seq<char> },
    ResponseErrWith { operation: Seq<char>, detail: Seq<char> },
    Line(Seq<char>),
}

impl View for Output {
    type V = OutputModel;

    open spec fn view(&self) -> OutputModel {
        match self {
            Output::Info(t) => OutputModel::Info(t@),
            Output::Error { operation, message } => OutputModel::Error {
                operation: operation@,
                message: message@,
            },
            Output::ResponseOk { operation } => OutputModel::ResponseOk { operation: operation@ },
            Output::ResponseOkWith { operation, detail } => OutputModel::ResponseOkWith {
                operation: operation@,
                detail: detail@,
            },
            Output::ResponseErr { operation, code, message } => OutputModel::ResponseErr {
                operation: operation@,
                code: code@,
                message: message@,
            },
            Output::ResponseErrWith { operation, detail } => OutputModel::ResponseErrWith {
                operation: operation@,
                detail: detail@,
            },
            Output::Line(t) => OutputModel::Line(t@),
        }
    }
}

/// What the outputs of `list` hold.
pub open spec fn outputs(list: Seq<Output>) -> Seq<OutputModel> {
    Seq::new(list.len(), |i: int| list[i]@)
}

/// The styles in which text is painted.
#[derive(Clone, Copy, Debug, PartialEq, Eq, Structural)]
pub enum Tint {
    WhiteDimmed,
    RedDimmed,
    Red,
}

impl Tint {
    /// The escape sequence that turns the style on.
    pub open spec fn prefix(self) -> Seq<char> {
        match self {
            Tint::WhiteDimmed => "\x1b[2;37m"@,
            Tint::RedDimmed => "\x1b[2;31m"@,
            Tint::Red => "\x1b[31m"@,
        }
    }
}

/// `text` between the escape sequence that turns the style on and the one
/// that resets every style.
pub open spec fn painted(tint: Tint, text: Seq<char>) -> Seq<char> {
    tint.prefix() + text + "\x1b[0m"@
}

/// `text` in dimmed white.
pub open spec fn white_dimmed(text: Seq<char>) -> Seq<char> {
    painted(Tint::WhiteDimmed, text)
}

/// `text` in dimmed red.
pub open spec fn red_dimmed(text: Seq<char>) -> Seq<char> {
    painted(Tint::RedDimmed, text)
}

/// `text` in red.
pub open spec fn red(text: Seq<char>) -> Seq<char> {
    painted(Tint::Red, text)
}

/// Calls `ansi_term`'s `Style::paint` with the style that the tint stands
/// for, and writes the painted string out. `ansi_term` writes `ESC [`, then
/// `2` and `;` for a dimmed style, then the colour's number, `31` for red and
/// `37` for white, then `m`; then the text; then the reset sequence
/// `ESC [ 0 m`.
#[verifier::external_body]
pub(crate) fn paint(tint: Tint, text: &str) -> (r: String)
    ensures
        r@ == painted(tint, text@),
{
    let style = match tint {
        Tint::WhiteDimmed => ansi_term::Colour::White.dimmed(),
        Tint::RedDimmed => ansi_term::Colour::Red.dimmed(),
        Tint::Red => ansi_term::Colour::Red.normal(),
    };
    style.paint(text).to_string()
}

/// How a failed call is reported for the operation it belongs to: what the
/// broker refused, with the broker's code and message; what the transport or
/// the client failed at, with the failure's text.
pub open spec fn error_report(operation: Seq<char>, error: ClientErrorModel) -> OutputModel {
    match error {
        ClientErrorModel::Status { code, message } => OutputModel::ResponseErr {
            operation,
            code,
            message,
        },
        ClientErrorModel::Connection(message) => OutputModel::Error { operation, message },
        ClientErrorModel::Function(message) => OutputModel::ResponseErrWith {
            operation,
            detail: "Error "@ + message,
        },
    }
}

/// Reports a failed call for the operation it belongs to.
pub fn render_error(operation: &str, error: &ClientError) -> (r: Output)
    ensures
        r@ == error_report(operation@, error@),
{
    let operation = string_of(&chars_of(operation));
    match error {
        ClientError::Status { code, message } => Output::ResponseErr {
            operation,
            code: code.clone(),
            message: message.clone(),
        },
        ClientError::Connection(message) => Output::Error { operation, message: message.clone() },
        ClientError::Function(message) => {
            let mut detail: Vec<char> = Vec::new();
            append_literal(&mut detail, "Error ");
            append_literal(&mut detail, message.as_str());
            assert(detail@ =~= "Error "@ + message@);
            Output::ResponseErrWith { operation, detail: string_of(&detail) }
        },
    }
}

/// The remark that a path is not in the snapshot.
pub open spec fn unknown_path_notice(path: Seq<char>) -> Seq<char> {
    "No metadata available for "@ + path
        + ". Needed to determine data type for serialization."@
}

/// The line that a text is no value of a type.
pub open spec fn could_not_parse(value: Seq<char>, declared: Seq<char>) -> Seq<char> {
    "Could not parse \""@ + value + "\" as "@ + declared
}

/// The message that a signal is no actuator.
pub open spec fn not_an_actuator(name: Seq<char>) -> Seq<char> {
    name + " is not an actuator."@
}

/// The remark that points from `set` to `feed`.
pub open spec fn feed_hint() -> Seq<char> {
    "If you want to provide the signal value, use `feed`."@
}

/// Which of the two writing commands is meant.
#[derive(Clone, Copy, Debug, PartialEq, Eq, Structural)]
pub enum WriteKind {
    /// `set`: the target value of an actuator, written by name.
    Actuate,
    /// `feed`: the current value of any signal, written by id.
    Provide,
}

impl WriteKind {
    /// The command's name.
    pub open spec fn label(self) -> Seq<char> {
        match self {
            WriteKind::Actuate => "set"@,
            WriteKind::Provide => "feed"@,
        }
    }

    /// The command's name.
    pub fn name(&self) -> (r: &'static str)
        ensures
            r@ == self.label(),
    {
        match self {
            WriteKind::Actuate => "set",
            WriteKind::Provide => "feed",
        }
    }
}

/// What a writing command comes to before anything is sent.
#[derive(Clone, Debug, PartialEq, Eq)]
pub enum WritePlan {
    /// Nothing is sent; the user is told why.
    Reply(Vec<Output>),
    /// The value is to be sent for the signal with this id and name.
    Write { id: i32, name: String, value: TypedValue },
}

/// What a [`WritePlan`] holds.
pub ghost enum WritePlanModel {
    Reply(Seq<OutputModel>),
    Write { id: i32, name: Seq<char>, value: ValueModel },
}

impl View for WritePlan {
    type V = WritePlanModel;

    open spec fn view(&self) -> WritePlanModel {
        match self {
            WritePlan::Reply(list) => WritePlanModel::Reply(outputs(list@)),
            WritePlan::Write { id, name, value } => WritePlanModel::Write {
                id: *id,
                name: name@,
                value: value@,
            },
        }
    }
}

/// The wire code of the actuator kind.
pub open spec fn actuator_code() -> i32 {
    2
}

/// What `set` or `feed` comes to for the signal `path` and the text `value`,
/// given the snapshot.
///
/// A path that the snapshot does not hold is answered with a remark. `set`
/// on a signal that is no actuator is answered with an error and a pointer
/// to `feed`, whatever the text. Only then is the text read: one that is no
/// value of the signal's declared type is answered with a line that says so.
/// Otherwise the value is to be written.
pub open spec fn planned(
    entries: Seq<MetadataModel>,
    kind: WriteKind,
    path: Seq<char>,
    value: Seq<char>,
) -> WritePlanModel {
    let i = last_named(entries, path);
    if i < 0 {
        WritePlanModel::Reply(seq![OutputModel::Info(unknown_path_notice(path))])
    } else {
        let entry = entries[i];
        if kind == WriteKind::Actuate && entry.entry_type != actuator_code() {
            WritePlanModel::Reply(
                seq![
                    OutputModel::Error {
                        operation: kind.label(),
                        message: not_an_actuator(entry.name),
                    },
                    OutputModel::Info(feed_hint()),
                ],
            )
        } else {
            match coerced_for_code(value, entry.data_type) {
                None => WritePlanModel::Reply(
                    seq![
                        OutputModel::Line(
                            could_not_parse(value, data_type_text(entry.data_type)),
                        ),
                    ],
                ),
                Some(v) => WritePlanModel::Write { id: entry.id, name: entry.name, value: v },
            }
        }
    }
}

/// `set` on a signal that is no actuator is never written, whatever the
/// text: the answer is the error that points to `feed`.
pub proof fn lemma_set_asks_for_an_actuator(
    entries: Seq<MetadataModel>,
    path: Seq<char>,
    value: Seq<char>,
)
    requires
        last_named(entries, path) >= 0,
        entries[last_named(entries, path)].entry_type != actuator_code(),
    ensures
        planned(entries, WriteKind::Actuate, path, value) == WritePlanModel::Reply(
            seq![
                OutputModel::Error {
                    operation: "set"@,
                    message: not_an_actuator(entries[last_named(entries, path)].name),
                },
                OutputModel::Info(feed_hint()),
            ],
        ),
{
}

/// A path that the snapshot does not hold is never written to, whatever the
/// value: the answer is a remark, and no error.
pub proof fn lemma_unknown_path_is_not_written(
    entries: Seq<MetadataModel>,
    kind: WriteKind,
    path: Seq<char>,
    value: Seq<char>,
)
    requires
        forall|i: int| 0 <= i < entries.len() ==> (#[trigger] entries[i]).name != path,
    ensures
        planned(entries, kind, path, value) == WritePlanModel::Reply(
            seq![OutputModel::Info(unknown_path_notice(path))],
        ),
{
    lemma_last_named(entries, path);
}

/// A value is written only for a path that the snapshot holds, and `set`
/// writes only to actuators.
pub proof fn lemma_written_paths_are_known(
    entries: Seq<MetadataModel>,
    kind: WriteKind,
    path: Seq<char>,
    value: Seq<char>,
)
    requires
        planned(entries, kind, path, value) is Write,
    ensures
        exists|i: int|
            0 <= i < entries.len() && (#[trigger] entries[i]).name == path && (kind
                == WriteKind::Actuate ==> entries[i].entry_type == actuator_code()),
{
    lemma_last_named(entries, path);
    let i = last_named(entries, path);
    assert(entries[i].name == path);
}

/// A list with one output.
fn one(output: Output) -> (r: Vec<Output>)
    ensures
        outputs(r@) == seq![output@],
{
    let mut list: Vec<Output> = Vec::new();
    list.push(output);
    assert(outputs(list@) =~= seq![output@]);
    list
}

/// Decides what `set` or `feed` comes to for the signal `path` and the text
/// `value`.
pub fn plan_write(cache: &NamespaceCache, kind: WriteKind, path: &str, value: &str) -> (r:
    WritePlan)
    ensures
        r@ == planned(cache@.entries, kind, path@, value@),
{
    match cache.lookup(path) {
        None => {
            let mut notice: Vec<char> = Vec::new();
            append_literal(&mut notice, "No metadata available for ");
            append_literal(&mut notice, path);
            append_literal(&mut notice, ". Needed to determine data type for serialization.");
            assert(notice@ =~= unknown_path_notice(path@));
            WritePlan::Reply(one(Output::Info(string_of(&notice))))
        },
        Some(entry) => {
            if kind == WriteKind::Actuate && entry.entry_type != 2 {
                let mut message = chars_of(entry.name.as_str());
                append_literal(&mut message, " is not an actuator.");
                let first = Output::Error {
                    operation: string_of(&chars_of(kind.name())),
                    message: string_of(&message),
                };
                let second = Output::Info(
                    string_of(&chars_of("If you want to provide the signal value, use `feed`.")),
                );
                let mut list: Vec<Output> = Vec::new();
                list.push(first);
                list.push(second);
                assert(outputs(list@) =~= seq![first@, second@]);
                return WritePlan::Reply(list);
            }
            match try_into_data_value_for_code(value, entry.data_type) {
                Err(_) => {
                    let shown = DisplayDataType::from(DataType::from_i32(entry.data_type));
                    let mut line: Vec<char> = Vec::new();
                    append_literal(&mut line, "Could not parse \"");
                    append_literal(&mut line, value);
                    append_literal(&mut line, "\" as ");
                    append_literal(&mut line, shown.text());
                    assert(line@ =~= could_not_parse(value@, data_type_text(entry.data_type)));
                    WritePlan::Reply(one(Output::Line(string_of(&line))))
                },
                Ok(v) => WritePlan::Write { id: entry.id, name: entry.name.clone(), value: v },
            }
        },
    }
}

/// What is said of one refused item of a `set`: a known reason is named in
/// red behind a note of success, an unknown one is left out.
pub open spec fn set_item_report(operation: Seq<char>, id: Seq<char>, code: i32) -> Seq<
    OutputModel,
> {
    match DatapointError::of_code(code) {
        Some(e) => seq![
            OutputModel::ResponseOk { operation },
            OutputModel::Line("Error setting "@ + id + ": "@ + red(e.label())),
        ],
        None => seq![
            OutputModel::ResponseOkWith { operation, detail: "Error setting id "@ + id },
        ],
    }
}

/// What is said of the refused items of a `set`, one after another.
pub open spec fn set_items_report(operation: Seq<char>, errors: Seq<(Seq<char>, i32)>) -> Seq<
    OutputModel,
>
    decreases errors.len(),
{
    if errors.len() == 0 {
        Seq::empty()
    } else {
        set_items_report(operation, errors.drop_last()) + set_item_report(
            operation,
            errors.last().0,
            errors.last().1,
        )
    }
}

/// What is said of the broker's answer to a `set`: success where no item was
/// refused, else a report on each refused item, in the order given.
pub open spec fn set_report(operation: Seq<char>, errors: Seq<(Seq<char>, i32)>) -> Seq<
    OutputModel,
> {
    if errors.len() == 0 {
        seq![OutputModel::ResponseOk { operation }]
    } else {
        set_items_report(operation, errors)
    }
}

/// The refused items with their names as texts.
pub open spec fn named_errors(errors: Seq<(String, i32)>) -> Seq<(Seq<char>, i32)> {
    Seq::new(errors.len(), |i: int| (errors[i].0@, errors[i].1))
}

/// Appends the outputs of `more` to `list`.
pub(crate) fn extend(list: &mut Vec<Output>, more: Vec<Output>)
    ensures
        outputs(final(list)@) == outputs(old(list)@) + outputs(more@),
{
    let ghost added = outputs(more@);
    let mut more = more;
    list.append(&mut more);
    assert(outputs(list@) =~= outputs(old(list)@) + added);
}

/// Reports one refused item of a `set`.
fn report_set_item(operation: &str, id: &str, code: i32) -> (r: Vec<Output>)
    ensures
        outputs(r@) == set_item_report(operation@, id@, code),
{
    let op = string_of(&chars_of(operation));
    let mut list: Vec<Output> = Vec::new();
    match DatapointError::from_i32(code) {
        Some(e) => {
            let mut line: Vec<char> = Vec::new();
            append_literal(&mut line, "Error setting ");
            append_literal(&mut line, id);
            append_literal(&mut line, ": ");
            let alert = paint(Tint::Red, e.name());
            append_literal(&mut line, alert.as_str());
            assert(line@ =~= "Error setting "@ + id@ + ": "@ + red(e.label()));
            let first = Output::ResponseOk { operation: op };
            let second = Output::Line(string_of(&line));
            list.push(first);
            list.push(second);
            assert(outputs(list@) =~= seq![first@, second@]);
        },
        None => {
            let mut detail: Vec<char> = Vec::new();
            append_literal(&mut detail, "Error setting id ");
            append_literal(&mut detail, id);
            assert(detail@ =~= "Error setting id "@ + id@);
            let only = Output::ResponseOkWith { operation: op, detail: string_of(&detail) };
            list.push(only);
            assert(outputs(list@) =~= seq![only@]);
        },
    }
    list
}

/// Reports the broker's answer to a `set`.
pub fn report_set(operation: &str, errors: &Vec<(String, i32)>) -> (r: Vec<Output>)
    ensures
        outputs(r@) == set_report(operation@, named_errors(errors@)),
{
    let ghost all = named_errors(errors@);
    if errors.len() == 0 {
        return one(Output::ResponseOk { operation: string_of(&chars_of(operation)) });
    }
    let mut list: Vec<Output> = Vec::new();
    let mut i: usize = 0;
    assert(all.take(0) =~= Seq::<(Seq<char>, i32)>::empty());
    assert(outputs(list@) =~= set_items_report(operation@, all.take(0)));
    while i < errors.len()
        invariant
            i <= errors.len(),
            all == named_errors(errors@),
            outputs(list@) == set_items_report(operation@, all.take(i as int)),
        decreases errors.len() - i,
    {
        proof {
            assert(all.take(i + 1).drop_last() =~= all.take(i as int));
            assert(all.take(i + 1).last() == (errors@[i as int].0@, errors@[i as int].1));
        }
        let item = report_set_item(operation, errors[i].0.as_str(), errors[i].1);
        extend(&mut list, item);
        i += 1;
    }
    assert(all.take(errors.len() as int) =~= all);
    list
}

/// How a refused item of a `feed` is called: by the signal's name where it
/// is the signal that was fed, else by its id.
pub open spec fn fed_identifier(id: i32, fed_id: i32, fed_name: Seq<char>) -> Seq<char> {
    if id == fed_id {
        fed_name
    } else {
        "id "@ + decimal_text(id as int)
    }
}

/// What is said of one refused item of a `feed`.
pub open spec fn feed_item_report(
    operation: Seq<char>,
    fed_id: i32,
    fed_name: Seq<char>,
    id: i32,
    code: i32,
) -> OutputModel {
    let identifier = fed_identifier(id, fed_id, fed_name);
    match DatapointError::of_code(code) {
        Some(e) => OutputModel::ResponseOkWith {
            operation,
            detail: "Error providing "@ + identifier + ": "@ + e.label(),
        },
        None => OutputModel::ResponseOkWith { operation, detail: "Error providing "@ + identifier },
    }
}

/// What is said of the broker's answer to a `feed`: success where no item
/// was refused, else a report on each refused item, in the order given.
pub open spec fn feed_report(
    operation: Seq<char>,
    fed_id: i32,
    fed_name: Seq<char>,
    errors: Seq<(i32, i32)>,
) -> Seq<OutputModel> {
    if errors.len() == 0 {
        seq![OutputModel::ResponseOk { operation }]
    } else {
        Seq::new(
            errors.len(),
            |i: int| feed_item_report(operation, fed_id, fed_name, errors[i].0, errors[i].1),
        )
    }
}

/// Reports one refused item of a `feed`.
fn report_feed_item(operation: &str, fed_id: i32, fed_name: &str, id: i32, code: i32) -> (r:
    Output)
    ensures
        r@ == feed_item_report(operation@, fed_id, fed_name@, id, code),
{
    let mut detail: Vec<char> = Vec::new();
    append_literal(&mut detail, "Error providing ");
    if id == fed_id {
        append_literal(&mut detail, fed_name);
    } else {
        append_literal(&mut detail, "id ");
        append_chars(&mut detail, &signed_text(id as i64));
    }
    let ghost identifier = fed_identifier(id, fed_id, fed_name@);
    assert(detail@ =~= "Error providing "@ + identifier);
    match DatapointError::from_i32(code) {
        Some(e) => {
            append_literal(&mut detail, ": ");
            append_literal(&mut detail, e.name());
            assert(detail@ =~= "Error providing "@ + identifier + ": "@ + e.label());
        },
        None => {},
    }
    Output::ResponseOkWith {
        operation: string_of(&chars_of(operation)),
        detail: string_of(&detail),
    }
}

/// Reports the broker's answer to a `feed` of the signal with the given id
/// and name.
pub fn report_feed(operation: &str, fed_id: i32, fed_name: &str, errors: &Vec<(i32, i32)>) -> (r:
    Vec<Output>)
    ensures
        outputs(r@) == feed_report(operation@, fed_id, fed_name@, errors@),
{
    if errors.len() == 0 {
        return one(Output::ResponseOk { operation: string_of(&chars_of(operation)) });
    }
    let mut list: Vec<Output> = Vec::new();
    let mut i: usize = 0;
    while i < errors.len()
        invariant
            i <= errors.len(),
            list.len() == i,
            forall|k: int|
                0 <= k < i ==> (#[trigger] list@[k])@ == feed_item_report(
                    operation@,
                    fed_id,
                    fed_name@,
                    errors@[k].0,
                    errors@[k].1,
                ),
        decreases errors.len() - i,
    {
        list.push(report_feed_item(operation, fed_id, fed_name, errors[i].0, errors[i].1));
        i += 1;
    }
    assert(outputs(list@) =~= feed_report(operation@, fed_id, fed_name@, errors@));
    list
}

/// The line for one signal and its value.
pub open spec fn value_line(name: Seq<char>, value: Option<ValueModel>) -> Seq<char> {
    name + ": "@ + shown_value(value)
}

/// The signals read, each with its value as a model.
pub open spec fn readings(datapoints: Seq<(String, Option<TypedValue>)>) -> Seq<
    (Seq<char>, Option<ValueModel>),
> {
    Seq::new(datapoints.len(), |i: int| (datapoints[i].0@, model_of(datapoints[i].1)))
}

/// One line for each signal read, in the order given.
pub open spec fn value_lines(readings: Seq<(Seq<char>, Option<ValueModel>)>) -> Seq<OutputModel> {
    Seq::new(readings.len(), |i: int| OutputModel::Line(value_line(readings[i].0, readings[i].1)))
}

/// The line for one signal and its value.
pub fn write_value_line(name: &str, value: &Option<TypedValue>) -> (r: String)
    ensures
        r@ == value_line(name@, model_of(*value)),
{
    let mut line = chars_of(name);
    append_literal(&mut line, ": ");
    append_chars(&mut line, &value_text(value));
    assert(line@ =~= value_line(name@, model_of(*value)));
    string_of(&line)
}

/// One line for each signal read.
pub fn report_values(datapoints: &Vec<(String, Option<TypedValue>)>) -> (r: Vec<Output>)
    ensures
        outputs(r@) == value_lines(readings(datapoints@)),
{
    let mut list: Vec<Output> = Vec::new();
    let mut i: usize = 0;
    while i < datapoints.len()
        invariant
            i <= datapoints.len(),
            list.len() == i,
            forall|k: int|
                0 <= k < i ==> (#[trigger] list@[k])@ == OutputModel::Line(
                    value_line(datapoints@[k].0@, model_of(datapoints@[k].1)),
                ),
        decreases datapoints.len() - i,
    {
        list.push(Output::Line(write_value_line(datapoints[i].0.as_str(), &datapoints[i].1)));
        i += 1;
    }
    assert(outputs(list@) =~= value_lines(readings(datapoints@)));
    list
}

/// Reports the broker's answer to a `get`: a note of success, then one line
/// for each signal read.
pub fn report_get(operation: &str, datapoints: &Vec<(String, Option<TypedValue>)>) -> (r: Vec<
    Output,
>)
    ensures
        outputs(r@) == seq![OutputModel::ResponseOk { operation: operation@ }] + value_lines(
            readings(datapoints@),
        ),
{
    let mut list = one(Output::ResponseOk { operation: string_of(&chars_of(operation)) });
    extend(&mut list, report_values(datapoints));
    list
}

} // verus!
