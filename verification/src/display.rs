//! How values, kinds and types are written out for the user, and how the
//! known signals are laid out as a table.
//!
//! A value with a fraction is held as text (see [`crate::value`]) and is
//! written out as that text.

use crate::decimal::{decimal_text, signed_text, unsigned_text};
use crate::metadata::{ChangeType, EntryType, Metadata, MetadataModel};
use crate::pattern::referred;
use crate::text::{append_chars, append_literal, append_padded, chars_of, padded, string_of, texts};
use crate::value::{strings, DataType, TypedValue, ValueModel};
use vstd::prelude::*;
use vstd::utf8::encode_utf8;

verus! {

/// The items with `, ` between them.
pub open spec fn comma_separated(items: Seq<Seq<char>>) -> Seq<char>
    decreases items.len(),
{
    if items.len() == 0 {
        Seq::empty()
    } else if items.len() == 1 {
        items[0]
    } else {
        comma_separated(items.drop_last()) + ", "@ + items.last()
    }
}

/// The items as a list in square brackets.
pub open spec fn listed(items: Seq<Seq<char>>) -> Seq<char> {
    "["@ + comma_separated(items) + "]"@
}

/// How a truth value is written.
pub open spec fn bool_text(b: bool) -> Seq<char> {
    if b {
        "true"@
    } else {
        "false"@
    }
}

/// How a value is written; a signal without one is written `None`.
pub open spec fn shown_value(value: Option<ValueModel>) -> Seq<char> {
    match value {
        None => "None"@,
        Some(ValueModel::BoolValue(b)) => bool_text(b),
        Some(ValueModel::FailureValue(f)) => "( "@ + f.label() + " )"@,
        Some(ValueModel::Int32Value(n)) => decimal_text(n as int),
        Some(ValueModel::Int64Value(n)) => decimal_text(n as int),
        Some(ValueModel::Uint32Value(n)) => decimal_text(n as int),
        Some(ValueModel::Uint64Value(n)) => decimal_text(n as int),
        Some(ValueModel::FloatValue(t)) => t,
        Some(ValueModel::DoubleValue(t)) => t,
        Some(ValueModel::StringValue(s)) => "'"@ + s + "'"@,
        Some(ValueModel::StringArray(a)) => listed(a),
        Some(ValueModel::BoolArray(a)) => listed(Seq::new(a.len(), |i: int| bool_text(a[i]))),
        Some(ValueModel::Int32Array(a)) => listed(
            Seq::new(a.len(), |i: int| decimal_text(a[i] as int)),
        ),
        Some(ValueModel::Int64Array(a)) => listed(
            Seq::new(a.len(), |i: int| decimal_text(a[i] as int)),
        ),
        Some(ValueModel::Uint32Array(a)) => listed(
            Seq::new(a.len(), |i: int| decimal_text(a[i] as int)),
        ),
        Some(ValueModel::Uint64Array(a)) => listed(
            Seq::new(a.len(), |i: int| decimal_text(a[i] as int)),
        ),
        Some(ValueModel::FloatArray(a)) => listed(a),
        Some(ValueModel::DoubleArray(a)) => listed(a),
    }
}

/// The value of an optional typed value.
pub open spec fn model_of(value: Option<TypedValue>) -> Option<ValueModel> {
    match value {
        Some(v) => Some(v@),
        None => None,
    }
}

/// The items as a list in square brackets.
pub fn display_array(array: &Vec<Vec<char>>) -> (r: Vec<char>)
    ensures
        r@ == listed(texts(array@)),
{
    let ghost items = texts(array@);
    let mut out: Vec<char> = Vec::new();
    append_literal(&mut out, "[");
    let mut i: usize = 0;
    assert(items.take(0) =~= Seq::<Seq<char>>::empty());
    assert(out@ =~= "["@ + comma_separated(items.take(0)));
    while i < array.len()
        invariant
            i <= array.len(),
            items == texts(array@),
            out@ == "["@ + comma_separated(items.take(i as int)),
        decreases array.len() - i,
    {
        let ghost before = out@;
        proof {
            assert(items.take(i + 1).drop_last() =~= items.take(i as int));
            assert(items.take(i + 1).last() == array@[i as int]@);
            assert(items.take(i + 1)[0] == items[0]);
        }
        if i > 0 {
            append_literal(&mut out, ", ");
        }
        append_chars(&mut out, &array[i]);
        assert(out@ =~= "["@ + comma_separated(items.take(i + 1)));
        i += 1;
    }
    assert(items.take(array.len() as int) =~= items);
    append_literal(&mut out, "]");
    out
}

/// The characters of each string.
fn all_chars(v: &Vec<String>) -> (r: Vec<Vec<char>>)
    ensures
        texts(r@) == strings(v@),
{
    let mut out: Vec<Vec<char>> = Vec::new();
    let mut i: usize = 0;
    while i < v.len()
        invariant
            i <= v.len(),
            out.len() == i,
            forall|k: int| 0 <= k < i ==> (#[trigger] out@[k])@ == v@[k]@,
        decreases v.len() - i,
    {
        out.push(chars_of(v[i].as_str()));
        i += 1;
    }
    assert(texts(out@) =~= strings(v@));
    out
}

/// How each truth value is written.
fn bool_texts(v: &Vec<bool>) -> (r: Vec<Vec<char>>)
    ensures
        texts(r@) == Seq::new(v.len() as nat, |i: int| bool_text(v@[i])),
{
    let mut out: Vec<Vec<char>> = Vec::new();
    let mut i: usize = 0;
    while i < v.len()
        invariant
            i <= v.len(),
            out.len() == i,
            forall|k: int| 0 <= k < i ==> (#[trigger] out@[k])@ == bool_text(v@[k]),
        decreases v.len() - i,
    {
        out.push(
            chars_of(
                if v[i] {
                    "true"
                } else {
                    "false"
                },
            ),
        );
        i += 1;
    }
    assert(texts(out@) =~= Seq::new(v.len() as nat, |i: int| bool_text(v@[i])));
    out
}

/// How each number is written.
fn i32_texts(v: &Vec<i32>) -> (r: Vec<Vec<char>>)
    ensures
        texts(r@) == Seq::new(v.len() as nat, |i: int| decimal_text(v@[i] as int)),
{
    let mut out: Vec<Vec<char>> = Vec::new();
    let mut i: usize = 0;
    while i < v.len()
        invariant
            i <= v.len(),
            out.len() == i,
            forall|k: int| 0 <= k < i ==> (#[trigger] out@[k])@ == decimal_text(v@[k] as int),
        decreases v.len() - i,
    {
        out.push(signed_text(v[i] as i64));
        i += 1;
    }
    assert(texts(out@) =~= Seq::new(v.len() as nat, |i: int| decimal_text(v@[i] as int)));
    out
}

/// How each number is written.
fn i64_texts(v: &Vec<i64>) -> (r: Vec<Vec<char>>)
    ensures
        texts(r@) == Seq::new(v.len() as nat, |i: int| decimal_text(v@[i] as int)),
{
    let mut out: Vec<Vec<char>> = Vec::new();
    let mut i: usize = 0;
    while i < v.len()
        invariant
            i <= v.len(),
            out.len() == i,
            forall|k: int| 0 <= k < i ==> (#[trigger] out@[k])@ == decimal_text(v@[k] as int),
        decreases v.len() - i,
    {
        out.push(signed_text(v[i]));
        i += 1;
    }
    assert(texts(out@) =~= Seq::new(v.len() as nat, |i: int| decimal_text(v@[i] as int)));
    out
}

/// How each number is written.
fn u32_texts(v: &Vec<u32>) -> (r: Vec<Vec<char>>)
    ensures
        texts(r@) == Seq::new(v.len() as nat, |i: int| decimal_text(v@[i] as int)),
{
    let mut out: Vec<Vec<char>> = Vec::new();
    let mut i: usize = 0;
    while i < v.len()
        invariant
            i <= v.len(),
            out.len() == i,
            forall|k: int| 0 <= k < i ==> (#[trigger] out@[k])@ == decimal_text(v@[k] as int),
        decreases v.len() - i,
    {
        out.push(unsigned_text(v[i] as u64));
        i += 1;
    }
    assert(texts(out@) =~= Seq::new(v.len() as nat, |i: int| decimal_text(v@[i] as int)));
    out
}

/// How each number is written.
fn u64_texts(v: &Vec<u64>) -> (r: Vec<Vec<char>>)
    ensures
        texts(r@) == Seq::new(v.len() as nat, |i: int| decimal_text(v@[i] as int)),
{
    let mut out: Vec<Vec<char>> = Vec::new();
    let mut i: usize = 0;
    while i < v.len()
        invariant
            i <= v.len(),
            out.len() == i,
            forall|k: int| 0 <= k < i ==> (#[trigger] out@[k])@ == decimal_text(v@[k] as int),
        decreases v.len() - i,
    {
        out.push(unsigned_text(v[i]));
        i += 1;
    }
    assert(texts(out@) =~= Seq::new(v.len() as nat, |i: int| decimal_text(v@[i] as int)));
    out
}

/// How a value is written.
pub fn value_text(value: &Option<TypedValue>) -> (r: Vec<char>)
    ensures
        r@ == shown_value(model_of(*value)),
{
    match value {
        None => chars_of("None"),
        Some(TypedValue::BoolValue(b)) => chars_of(
            if *b {
                "true"
            } else {
                "false"
            },
        ),
        Some(TypedValue::FailureValue(f)) => {
            let mut out: Vec<char> = Vec::new();
            append_literal(&mut out, "( ");
            append_literal(&mut out, f.name());
            append_literal(&mut out, " )");
            assert(out@ =~= "( "@ + f.label() + " )"@);
            out
        },
        Some(TypedValue::Int32Value(n)) => signed_text(*n as i64),
        Some(TypedValue::Int64Value(n)) => signed_text(*n),
        Some(TypedValue::Uint32Value(n)) => unsigned_text(*n as u64),
        Some(TypedValue::Uint64Value(n)) => unsigned_text(*n),
        Some(TypedValue::FloatValue(t)) => chars_of(t.as_str()),
        Some(TypedValue::DoubleValue(t)) => chars_of(t.as_str()),
        Some(TypedValue::StringValue(s)) => {
            let mut out: Vec<char> = Vec::new();
            append_literal(&mut out, "'");
            append_literal(&mut out, s.as_str());
            append_literal(&mut out, "'");
            assert(out@ =~= "'"@ + s@ + "'"@);
            out
        },
        Some(TypedValue::StringArray(a)) => display_array(&all_chars(a)),
        Some(TypedValue::BoolArray(a)) => display_array(&bool_texts(a)),
        Some(TypedValue::Int32Array(a)) => display_array(&i32_texts(a)),
        Some(TypedValue::Int64Array(a)) => display_array(&i64_texts(a)),
        Some(TypedValue::Uint32Array(a)) => display_array(&u32_texts(a)),
        Some(TypedValue::Uint64Array(a)) => display_array(&u64_texts(a)),
        Some(TypedValue::FloatArray(a)) => display_array(&all_chars(a)),
        Some(TypedValue::DoubleArray(a)) => display_array(&all_chars(a)),
    }
}

/// A signal's value, or the lack of one, as it is written out.
#[derive(Clone, Debug, PartialEq, Eq)]
pub struct DisplayDatapoint(pub Option<TypedValue>);

impl DisplayDatapoint {
    /// How the value is written.
    pub fn text(&self) -> (r: String)
        ensures
            r@ == shown_value(model_of(self.0)),
    {
        string_of(&value_text(&self.0))
    }
}

/// How the kind with the given code is written; a code that stands for no
/// kind is written `Unknown`.
pub open spec fn entry_type_text(code: i32) -> Seq<char> {
    match EntryType::of_code(code) {
        Some(t) => t.label(),
        None => "Unknown"@,
    }
}

/// How the type with the given code is written; a code that stands for no
/// type is written `Unknown`.
pub open spec fn data_type_text(code: i32) -> Seq<char> {
    match DataType::of_code(code) {
        Some(t) => t.label(),
        None => "Unknown"@,
    }
}

/// An entry kind, or the lack of one, as it is written out.
#[derive(Clone, Copy, Debug, PartialEq, Eq)]
pub struct DisplayEntryType(pub Option<EntryType>);

/// A data type, or the lack of one, as it is written out.
#[derive(Clone, Copy, Debug, PartialEq, Eq)]
pub struct DisplayDataType(pub Option<DataType>);

/// A change type, or the lack of one, as it is written out.
#[derive(Clone, Copy, Debug, PartialEq, Eq)]
pub struct DisplayChangeType(pub Option<ChangeType>);

impl DisplayEntryType {
    pub fn from(input: Option<EntryType>) -> (r: DisplayEntryType)
        ensures
            r.0 == input,
    {
        DisplayEntryType(input)
    }

    /// The kind's name, or `Unknown`.
    pub fn text(&self) -> (r: &'static str)
        ensures
            r@ == match self.0 {
                Some(t) => t.label(),
                None => "Unknown"@,
            },
    {
        match &self.0 {
            Some(entry_type) => entry_type.name(),
            None => "Unknown",
        }
    }
}

impl DisplayDataType {
    pub fn from(input: Option<DataType>) -> (r: DisplayDataType)
        ensures
            r.0 == input,
    {
        DisplayDataType(input)
    }

    /// The type's name, or `Unknown`.
    pub fn text(&self) -> (r: &'static str)
        ensures
            r@ == match self.0 {
                Some(t) => t.label(),
                None => "Unknown"@,
            },
    {
        match &self.0 {
            Some(data_type) => data_type.name(),
            None => "Unknown",
        }
    }
}

impl DisplayChangeType {
    pub fn from(input: Option<ChangeType>) -> (r: DisplayChangeType)
        ensures
            r.0 == input,
    {
        DisplayChangeType(input)
    }

    /// The change type's name, or `Unknown`.
    pub fn text(&self) -> (r: &'static str)
        ensures
            r@ == match self.0 {
                Some(t) => t.label(),
                None => "Unknown"@,
            },
    {
        match &self.0 {
            Some(change_type) => change_type.name(),
            None => "Unknown",
        }
    }
}

/// The greatest length in bytes of the names of the entries, in UTF-8.
pub open spec fn widest_name(entries: Seq<MetadataModel>) -> nat
    decreases entries.len(),
{
    if entries.len() == 0 {
        0
    } else {
        let rest = widest_name(entries.drop_last());
        let last = encode_utf8(entries.last().name).len();
        if last > rest {
            last
        } else {
            rest
        }
    }
}

/// A line of three columns: the first padded to `width` characters, the
/// second to ten, the third to nine, with one space between them.
pub open spec fn table_line(width: int, path: Seq<char>, kind: Seq<char>, data: Seq<char>) -> Seq<
    char,
> {
    padded(path, width) + " "@ + padded(kind, 10) + " "@ + padded(data, 9)
}

/// The line of the table for one entry.
pub open spec fn table_row(width: int, entry: MetadataModel) -> Seq<char> {
    table_line(
        width,
        entry.name,
        entry_type_text(entry.entry_type),
        data_type_text(entry.data_type),
    )
}

/// The known signals laid out for reading.
#[derive(Clone, Debug, PartialEq, Eq)]
pub struct Table {
    /// The line that names the columns.
    pub header: String,
    /// One line for each signal.
    pub rows: Vec<String>,
}

/// Writes a line of three columns.
fn write_line(width: usize, path: &str, kind: &str, data: &str) -> (r: String)
    ensures
        r@ == table_line(width as int, path@, kind@, data@),
{
    let mut out: Vec<char> = Vec::new();
    append_padded(&mut out, &chars_of(path), width);
    append_literal(&mut out, " ");
    append_padded(&mut out, &chars_of(kind), 10);
    append_literal(&mut out, " ");
    append_padded(&mut out, &chars_of(data), 9);
    assert(out@ =~= table_line(width as int, path@, kind@, data@));
    string_of(&out)
}

/// The table of the selected entries: none where nothing was selected. The
/// first column is as wide as the longest name is in bytes.
pub fn metadata_table(selection: &Vec<&Metadata>) -> (r: Option<Table>)
    ensures
        match r {
            None => selection.len() == 0,
            Some(table) => {
                let entries = referred(selection@);
                let width = widest_name(entries) as int;
                &&& selection.len() > 0
                &&& table.header@ == table_line(width, "Path"@, "Entry type"@, "Data type"@)
                &&& table.rows.len() == entries.len()
                &&& forall|i: int|
                    0 <= i < entries.len() ==> (#[trigger] table.rows@[i])@ == table_row(
                        width,
                        entries[i],
                    )
            },
        },
{
    if selection.len() == 0 {
        return None;
    }
    let ghost entries = referred(selection@);
    let mut width: usize = 0;
    let mut i: usize = 0;
    assert(entries.take(0) =~= Seq::<MetadataModel>::empty());
    while i < selection.len()
        invariant
            i <= selection.len(),
            entries == referred(selection@),
            width == widest_name(entries.take(i as int)),
        decreases selection.len() - i,
    {
        proof {
            assert(entries.take(i + 1).drop_last() =~= entries.take(i as int));
            assert(entries.take(i + 1).last() == selection@[i as int]@);
        }
        let n = selection[i].name.as_str().as_bytes().len();
        if n > width {
            width = n;
        }
        i += 1;
    }
    assert(entries.take(selection.len() as int) =~= entries);
    let header = write_line(width, "Path", "Entry type", "Data type");
    let mut rows: Vec<String> = Vec::new();
    let mut k: usize = 0;
    while k < selection.len()
        invariant
            k <= selection.len(),
            entries == referred(selection@),
            rows.len() == k,
            forall|j: int|
                0 <= j < k ==> (#[trigger] rows@[j])@ == table_row(width as int, entries[j]),
        decreases selection.len() - k,
    {
        let entry = selection[k];
        let kind = DisplayEntryType::from(EntryType::from_i32(entry.entry_type));
        let data = DisplayDataType::from(DataType::from_i32(entry.data_type));
        assert(entries[k as int] == entry@);
        rows.push(write_line(width, entry.name.as_str(), kind.text(), data.text()));
        k += 1;
    }
    Some(Table { header, rows })
}

} // verus!
