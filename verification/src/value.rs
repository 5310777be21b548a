//! Typed signal values, and the reading of free text as a value of a
//! declared type.
//!
//! A value with a fraction is carried as the text of its literal (see
//! [`crate::fractional`]); every other value is carried as itself.

use crate::decimal::{literal_in_range, parse_signed, parse_unsigned};
use crate::fractional::{is_fractional, is_fractional_literal};
use crate::text::{
    chars_of, fields, is_literal, slice_of, split_fields, string_of, texts, trim, trimmed,
    Delimiter,
};
use vstd::prelude::*;

verus! {

/// The declared type of a signal: twelve scalar types and an array of each.
#[derive(Clone, Copy, Debug, PartialEq, Eq, Structural)]
pub enum DataType {
    String,
    Bool,
    Int8,
    Int16,
    Int32,
    Int64,
    Uint8,
    Uint16,
    Uint32,
    Uint64,
    Float,
    Double,
    StringArray,
    BoolArray,
    Int8Array,
    Int16Array,
    Int32Array,
    Int64Array,
    Uint8Array,
    Uint16Array,
    Uint32Array,
    Uint64Array,
    FloatArray,
    DoubleArray,
}

/// Why a signal has no value.
#[derive(Clone, Copy, Debug, PartialEq, Eq, Structural)]
pub enum Failure {
    InvalidValue,
    NotAvailable,
    UnknownDatapoint,
    AccessDenied,
    InternalError,
}

/// The text did not denote a value of the declared type.
#[derive(Clone, Copy, Debug, PartialEq, Eq, Structural)]
pub struct ParseError {}

/// A signal's value. The narrow integer types travel in a 32-bit carrier.
/// `FloatValue`, `DoubleValue` and their arrays hold the text of a literal.
#[derive(Clone, Debug, PartialEq, Eq)]
pub enum TypedValue {
    FailureValue(Failure),
    StringValue(String),
    BoolValue(bool),
    Int32Value(i32),
    Int64Value(i64),
    Uint32Value(u32),
    Uint64Value(u64),
    FloatValue(String),
    DoubleValue(String),
    StringArray(Vec<String>),
    BoolArray(Vec<bool>),
    Int32Array(Vec<i32>),
    Int64Array(Vec<i64>),
    Uint32Array(Vec<u32>),
    Uint64Array(Vec<u64>),
    FloatArray(Vec<String>),
    DoubleArray(Vec<String>),
}

/// What a [`TypedValue`] holds, with every text as a sequence of characters.
pub ghost enum ValueModel {
    FailureValue(Failure),
    StringValue(Seq<char>),
    BoolValue(bool),
    Int32Value(i32),
    Int64Value(i64),
    Uint32Value(u32),
    Uint64Value(u64),
    FloatValue(Seq<char>),
    DoubleValue(Seq<char>),
    StringArray(Seq<Seq<char>>),
    BoolArray(Seq<bool>),
    Int32Array(Seq<i32>),
    Int64Array(Seq<i64>),
    Uint32Array(Seq<u32>),
    Uint64Array(Seq<u64>),
    FloatArray(Seq<Seq<char>>),
    DoubleArray(Seq<Seq<char>>),
}

/// The texts that the strings of `v` hold.
pub open spec fn strings(v: Seq<String>) -> Seq<Seq<char>> {
    Seq::new(v.len(), |i: int| v[i]@)
}

impl View for TypedValue {
    type V = ValueModel;

    open spec fn view(&self) -> ValueModel {
        match self {
            TypedValue::FailureValue(f) => ValueModel::FailureValue(*f),
            TypedValue::StringValue(s) => ValueModel::StringValue(s@),
            TypedValue::BoolValue(b) => ValueModel::BoolValue(*b),
            TypedValue::Int32Value(n) => ValueModel::Int32Value(*n),
            TypedValue::Int64Value(n) => ValueModel::Int64Value(*n),
            TypedValue::Uint32Value(n) => ValueModel::Uint32Value(*n),
            TypedValue::Uint64Value(n) => ValueModel::Uint64Value(*n),
            TypedValue::FloatValue(s) => ValueModel::FloatValue(s@),
            TypedValue::DoubleValue(s) => ValueModel::DoubleValue(s@),
            TypedValue::StringArray(v) => ValueModel::StringArray(strings(v@)),
            TypedValue::BoolArray(v) => ValueModel::BoolArray(v@),
            TypedValue::Int32Array(v) => ValueModel::Int32Array(v@),
            TypedValue::Int64Array(v) => ValueModel::Int64Array(v@),
            TypedValue::Uint32Array(v) => ValueModel::Uint32Array(v@),
            TypedValue::Uint64Array(v) => ValueModel::Uint64Array(v@),
            TypedValue::FloatArray(v) => ValueModel::FloatArray(strings(v@)),
            TypedValue::DoubleArray(v) => ValueModel::DoubleArray(strings(v@)),
        }
    }
}

impl Failure {
    /// The failure that a wire code stands for.
    pub open spec fn of_code(code: i32) -> Option<Failure> {
        if code == 0 {
            Some(Failure::InvalidValue)
        } else if code == 1 {
            Some(Failure::NotAvailable)
        } else if code == 2 {
            Some(Failure::UnknownDatapoint)
        } else if code == 3 {
            Some(Failure::AccessDenied)
        } else if code == 4 {
            Some(Failure::InternalError)
        } else {
            None
        }
    }

    /// The failure that a wire code stands for, if any.
    pub fn from_i32(code: i32) -> (r: Option<Failure>)
        ensures
            r == Failure::of_code(code),
    {
        match code {
            0 => Some(Failure::InvalidValue),
            1 => Some(Failure::NotAvailable),
            2 => Some(Failure::UnknownDatapoint),
            3 => Some(Failure::AccessDenied),
            4 => Some(Failure::InternalError),
            _ => None,
        }
    }

    /// The failure's name.
    pub open spec fn label(self) -> Seq<char> {
        match self {
            Failure::InvalidValue => "InvalidValue"@,
            Failure::NotAvailable => "NotAvailable"@,
            Failure::UnknownDatapoint => "UnknownDatapoint"@,
            Failure::AccessDenied => "AccessDenied"@,
            Failure::InternalError => "InternalError"@,
        }
    }

    /// The failure's name.
    pub fn name(&self) -> (r: &'static str)
        ensures
            r@ == self.label(),
    {
        match self {
            Failure::InvalidValue => "InvalidValue",
            Failure::NotAvailable => "NotAvailable",
            Failure::UnknownDatapoint => "UnknownDatapoint",
            Failure::AccessDenied => "AccessDenied",
            Failure::InternalError => "InternalError",
        }
    }
}

impl DataType {
    /// The wire code of the type.
    pub open spec fn code_of(self) -> i32 {
        match self {
            DataType::String => 0,
            DataType::Bool => 1,
            DataType::Int8 => 2,
            DataType::Int16 => 3,
            DataType::Int32 => 4,
            DataType::Int64 => 5,
            DataType::Uint8 => 6,
            DataType::Uint16 => 7,
            DataType::Uint32 => 8,
            DataType::Uint64 => 9,
            DataType::Float => 10,
            DataType::Double => 11,
            DataType::StringArray => 20,
            DataType::BoolArray => 21,
            DataType::Int8Array => 22,
            DataType::Int16Array => 23,
            DataType::Int32Array => 24,
            DataType::Int64Array => 25,
            DataType::Uint8Array => 26,
            DataType::Uint16Array => 27,
            DataType::Uint32Array => 28,
            DataType::Uint64Array => 29,
            DataType::FloatArray => 30,
            DataType::DoubleArray => 31,
        }
    }

    /// The wire code of the type.
    pub fn code(&self) -> (r: i32)
        ensures
            r == self.code_of(),
            DataType::of_code(r) == Some(*self),
    {
        match self {
            DataType::String => 0,
            DataType::Bool => 1,
            DataType::Int8 => 2,
            DataType::Int16 => 3,
            DataType::Int32 => 4,
            DataType::Int64 => 5,
            DataType::Uint8 => 6,
            DataType::Uint16 => 7,
            DataType::Uint32 => 8,
            DataType::Uint64 => 9,
            DataType::Float => 10,
            DataType::Double => 11,
            DataType::StringArray => 20,
            DataType::BoolArray => 21,
            DataType::Int8Array => 22,
            DataType::Int16Array => 23,
            DataType::Int32Array => 24,
            DataType::Int64Array => 25,
            DataType::Uint8Array => 26,
            DataType::Uint16Array => 27,
            DataType::Uint32Array => 28,
            DataType::Uint64Array => 29,
            DataType::FloatArray => 30,
            DataType::DoubleArray => 31,
        }
    }

    /// The type's name.
    pub open spec fn label(self) -> Seq<char> {
        match self {
            DataType::String => "String"@,
            DataType::Bool => "Bool"@,
            DataType::Int8 => "Int8"@,
            DataType::Int16 => "Int16"@,
            DataType::Int32 => "Int32"@,
            DataType::Int64 => "Int64"@,
            DataType::Uint8 => "Uint8"@,
            DataType::Uint16 => "Uint16"@,
            DataType::Uint32 => "Uint32"@,
            DataType::Uint64 => "Uint64"@,
            DataType::Float => "Float"@,
            DataType::Double => "Double"@,
            DataType::StringArray => "StringArray"@,
            DataType::BoolArray => "BoolArray"@,
            DataType::Int8Array => "Int8Array"@,
            DataType::Int16Array => "Int16Array"@,
            DataType::Int32Array => "Int32Array"@,
            DataType::Int64Array => "Int64Array"@,
            DataType::Uint8Array => "Uint8Array"@,
            DataType::Uint16Array => "Uint16Array"@,
            DataType::Uint32Array => "Uint32Array"@,
            DataType::Uint64Array => "Uint64Array"@,
            DataType::FloatArray => "FloatArray"@,
            DataType::DoubleArray => "DoubleArray"@,
        }
    }

    /// The type's name.
    pub fn name(&self) -> (r: &'static str)
        ensures
            r@ == self.label(),
    {
        match self {
            DataType::String => "String",
            DataType::Bool => "Bool",
            DataType::Int8 => "Int8",
            DataType::Int16 => "Int16",
            DataType::Int32 => "Int32",
            DataType::Int64 => "Int64",
            DataType::Uint8 => "Uint8",
            DataType::Uint16 => "Uint16",
            DataType::Uint32 => "Uint32",
            DataType::Uint64 => "Uint64",
            DataType::Float => "Float",
            DataType::Double => "Double",
            DataType::StringArray => "StringArray",
            DataType::BoolArray => "BoolArray",
            DataType::Int8Array => "Int8Array",
            DataType::Int16Array => "Int16Array",
            DataType::Int32Array => "Int32Array",
            DataType::Int64Array => "Int64Array",
            DataType::Uint8Array => "Uint8Array",
            DataType::Uint16Array => "Uint16Array",
            DataType::Uint32Array => "Uint32Array",
            DataType::Uint64Array => "Uint64Array",
            DataType::FloatArray => "FloatArray",
            DataType::DoubleArray => "DoubleArray",
        }
    }

    /// The type that a wire code stands for: 0 to 11 for the scalar types, 20
    /// to 31 for their arrays; no other code stands for a type.
    pub open spec fn of_code(code: i32) -> Option<DataType> {
        if code == 0 {
            Some(DataType::String)
        } else if code == 1 {
            Some(DataType::Bool)
        } else if code == 2 {
            Some(DataType::Int8)
        } else if code == 3 {
            Some(DataType::Int16)
        } else if code == 4 {
            Some(DataType::Int32)
        } else if code == 5 {
            Some(DataType::Int64)
        } else if code == 6 {
            Some(DataType::Uint8)
        } else if code == 7 {
            Some(DataType::Uint16)
        } else if code == 8 {
            Some(DataType::Uint32)
        } else if code == 9 {
            Some(DataType::Uint64)
        } else if code == 10 {
            Some(DataType::Float)
        } else if code == 11 {
            Some(DataType::Double)
        } else if code == 20 {
            Some(DataType::StringArray)
        } else if code == 21 {
            Some(DataType::BoolArray)
        } else if code == 22 {
            Some(DataType::Int8Array)
        } else if code == 23 {
            Some(DataType::Int16Array)
        } else if code == 24 {
            Some(DataType::Int32Array)
        } else if code == 25 {
            Some(DataType::Int64Array)
        } else if code == 26 {
            Some(DataType::Uint8Array)
        } else if code == 27 {
            Some(DataType::Uint16Array)
        } else if code == 28 {
            Some(DataType::Uint32Array)
        } else if code == 29 {
            Some(DataType::Uint64Array)
        } else if code == 30 {
            Some(DataType::FloatArray)
        } else if code == 31 {
            Some(DataType::DoubleArray)
        } else {
            None
        }
    }

    /// The type that a wire code stands for, if any.
    pub fn from_i32(code: i32) -> (r: Option<DataType>)
        ensures
            r == DataType::of_code(code),
    {
        match code {
            0 => Some(DataType::String),
            1 => Some(DataType::Bool),
            2 => Some(DataType::Int8),
            3 => Some(DataType::Int16),
            4 => Some(DataType::Int32),
            5 => Some(DataType::Int64),
            6 => Some(DataType::Uint8),
            7 => Some(DataType::Uint16),
            8 => Some(DataType::Uint32),
            9 => Some(DataType::Uint64),
            10 => Some(DataType::Float),
            11 => Some(DataType::Double),
            20 => Some(DataType::StringArray),
            21 => Some(DataType::BoolArray),
            22 => Some(DataType::Int8Array),
            23 => Some(DataType::Int16Array),
            24 => Some(DataType::Int32Array),
            25 => Some(DataType::Int64Array),
            26 => Some(DataType::Uint8Array),
            27 => Some(DataType::Uint16Array),
            28 => Some(DataType::Uint32Array),
            29 => Some(DataType::Uint64Array),
            30 => Some(DataType::FloatArray),
            31 => Some(DataType::DoubleArray),
            _ => None,
        }
    }

    /// Whether the type is an array type.
    pub open spec fn is_array(self) -> bool {
        match self {
            DataType::StringArray
            | DataType::BoolArray
            | DataType::Int8Array
            | DataType::Int16Array
            | DataType::Int32Array
            | DataType::Int64Array
            | DataType::Uint8Array
            | DataType::Uint16Array
            | DataType::Uint32Array
            | DataType::Uint64Array
            | DataType::FloatArray
            | DataType::DoubleArray => true,
            _ => false,
        }
    }

    /// Whether the type, or the element type of the array type, is an integer
    /// type.
    pub open spec fn is_integer(self) -> bool {
        match self {
            DataType::String
            | DataType::Bool
            | DataType::Float
            | DataType::Double
            | DataType::StringArray
            | DataType::BoolArray
            | DataType::FloatArray
            | DataType::DoubleArray => false,
            _ => true,
        }
    }

    /// Whether the integer type admits negative numbers.
    pub open spec fn is_signed(self) -> bool {
        match self {
            DataType::Int8
            | DataType::Int16
            | DataType::Int32
            | DataType::Int64
            | DataType::Int8Array
            | DataType::Int16Array
            | DataType::Int32Array
            | DataType::Int64Array => true,
            _ => false,
        }
    }

    /// The least number of the integer type.
    pub open spec fn min_value(self) -> int {
        match self {
            DataType::Int8 | DataType::Int8Array => -0x80,
            DataType::Int16 | DataType::Int16Array => -0x8000,
            DataType::Int32 | DataType::Int32Array => -0x8000_0000,
            DataType::Int64 | DataType::Int64Array => -0x8000_0000_0000_0000,
            _ => 0,
        }
    }

    /// The greatest number of the integer type.
    pub open spec fn max_value(self) -> int {
        match self {
            DataType::Int8 | DataType::Int8Array => 0x7f,
            DataType::Int16 | DataType::Int16Array => 0x7fff,
            DataType::Int32 | DataType::Int32Array => 0x7fff_ffff,
            DataType::Int64 | DataType::Int64Array => 0x7fff_ffff_ffff_ffff,
            DataType::Uint8 | DataType::Uint8Array => 0xff,
            DataType::Uint16 | DataType::Uint16Array => 0xffff,
            DataType::Uint32 | DataType::Uint32Array => 0xffff_ffff,
            DataType::Uint64 | DataType::Uint64Array => 0xffff_ffff_ffff_ffff,
            _ => 0,
        }
    }

    /// The number that `s` denotes as a literal of the integer type: `None`
    /// where `s` is no decimal literal or denotes a number outside the type's
    /// range.
    pub open spec fn number(self, s: Seq<char>) -> Option<int> {
        literal_in_range(s, self.is_signed(), self.min_value(), self.max_value())
    }

    /// The value that carries the number `n` of a scalar integer type.
    pub open spec fn carry(self, n: int) -> ValueModel {
        match self {
            DataType::Int8 | DataType::Int16 | DataType::Int32 => ValueModel::Int32Value(n as i32),
            DataType::Int64 => ValueModel::Int64Value(n as i64),
            DataType::Uint8 | DataType::Uint16 | DataType::Uint32 => ValueModel::Uint32Value(
                n as u32,
            ),
            _ => ValueModel::Uint64Value(n as u64),
        }
    }

    /// The value that carries the numbers `ns` of an integer array type.
    pub open spec fn carry_all(self, ns: Seq<int>) -> ValueModel {
        match self {
            DataType::Int8Array | DataType::Int16Array | DataType::Int32Array => {
                ValueModel::Int32Array(Seq::new(ns.len(), |i: int| ns[i] as i32))
            },
            DataType::Int64Array => ValueModel::Int64Array(
                Seq::new(ns.len(), |i: int| ns[i] as i64),
            ),
            DataType::Uint8Array | DataType::Uint16Array | DataType::Uint32Array => {
                ValueModel::Uint32Array(Seq::new(ns.len(), |i: int| ns[i] as u32))
            },
            _ => ValueModel::Uint64Array(Seq::new(ns.len(), |i: int| ns[i] as u64)),
        }
    }
}

/// The truth value that `s` spells: only `true` and `false` spell one.
pub open spec fn bool_literal(s: Seq<char>) -> Option<bool> {
    if s == "true"@ {
        Some(true)
    } else if s == "false"@ {
        Some(false)
    } else {
        None
    }
}

/// The items of an array literal: the text between `[` and `]` is cut at its
/// commas, empty pieces are dropped, and each piece left is trimmed.
pub open spec fn array_items(input: Seq<char>) -> Option<Seq<Seq<char>>> {
    if input.len() >= 2 && input[0] == '[' && input.last() == ']' {
        let inner = fields(input.subrange(1, input.len() - 1), Delimiter::Char(','));
        Some(Seq::new(inner.len(), |i: int| trim(inner[i])))
    } else {
        None
    }
}

/// Whether every item spells a truth value.
pub open spec fn all_bools(items: Seq<Seq<char>>) -> bool {
    forall|i: int| 0 <= i < items.len() ==> bool_literal(#[trigger] items[i]) is Some
}

/// The truth values that the items spell.
pub open spec fn bools_of(items: Seq<Seq<char>>) -> Seq<bool> {
    Seq::new(items.len(), |i: int| bool_literal(items[i]).unwrap())
}

/// Whether every item is a literal of the integer type `t`.
pub open spec fn all_numbers(items: Seq<Seq<char>>, t: DataType) -> bool {
    forall|i: int| 0 <= i < items.len() ==> t.number(#[trigger] items[i]) is Some
}

/// The numbers that the items denote.
pub open spec fn numbers_of(items: Seq<Seq<char>>, t: DataType) -> Seq<int> {
    Seq::new(items.len(), |i: int| t.number(items[i]).unwrap())
}

/// Whether every item is a literal with a fraction.
pub open spec fn all_fractional(items: Seq<Seq<char>>) -> bool {
    forall|i: int| 0 <= i < items.len() ==> is_fractional_literal(#[trigger] items[i])
}

/// The value that `input` denotes as a scalar of type `t`.
pub open spec fn scalar_of(input: Seq<char>, t: DataType) -> Option<ValueModel> {
    match t {
        DataType::String => Some(ValueModel::StringValue(input)),
        DataType::Bool => match bool_literal(input) {
            Some(b) => Some(ValueModel::BoolValue(b)),
            None => None,
        },
        DataType::Float => if is_fractional_literal(input) {
            Some(ValueModel::FloatValue(input))
        } else {
            None
        },
        DataType::Double => if is_fractional_literal(input) {
            Some(ValueModel::DoubleValue(input))
        } else {
            None
        },
        _ => match t.number(input) {
            Some(n) => Some(t.carry(n)),
            None => None,
        },
    }
}

/// The value that the items denote as an array of type `t`: none unless every
/// item denotes an element.
pub open spec fn array_of(items: Seq<Seq<char>>, t: DataType) -> Option<ValueModel> {
    match t {
        DataType::StringArray => Some(ValueModel::StringArray(items)),
        DataType::BoolArray => if all_bools(items) {
            Some(ValueModel::BoolArray(bools_of(items)))
        } else {
            None
        },
        DataType::FloatArray => if all_fractional(items) {
            Some(ValueModel::FloatArray(items))
        } else {
            None
        },
        DataType::DoubleArray => if all_fractional(items) {
            Some(ValueModel::DoubleArray(items))
        } else {
            None
        },
        _ => if all_numbers(items, t) {
            Some(t.carry_all(numbers_of(items, t)))
        } else {
            None
        },
    }
}

/// The value that `input` denotes for a signal of declared type `t`, if any.
/// The text `NotAvailable` denotes the absence of a value, whatever the type.
pub open spec fn coerced(input: Seq<char>, t: DataType) -> Option<ValueModel> {
    if input == "NotAvailable"@ {
        Some(ValueModel::FailureValue(Failure::NotAvailable))
    } else if t.is_array() {
        match array_items(input) {
            Some(items) => array_of(items, t),
            None => None,
        }
    } else {
        scalar_of(input, t)
    }
}

/// The value that `input` denotes for a signal whose declared type has the
/// wire code `code`.
///
/// The text `NotAvailable` is looked at before the type is: it denotes the
/// absence of a value whatever the code, also for a code that stands for no
/// type. Every other text fails for such a code.
pub open spec fn coerced_for_code(input: Seq<char>, code: i32) -> Option<ValueModel> {
    if input == "NotAvailable"@ {
        Some(ValueModel::FailureValue(Failure::NotAvailable))
    } else {
        match DataType::of_code(code) {
            Some(t) => coerced(input, t),
            None => None,
        }
    }
}

/// A literal within the range of a scalar integer type is read as the number
/// it denotes, in the type's carrier; a text that is no literal, or denotes a
/// number outside the declared range, is not read at all, even where the
/// carrier could hold the number.
pub proof fn lemma_integer_literals(input: Seq<char>, t: DataType)
    requires
        t.is_integer(),
        !t.is_array(),
        input != "NotAvailable"@,
    ensures
        match crate::decimal::literal_value(input, t.is_signed()) {
            Some(n) => if t.min_value() <= n <= t.max_value() {
                coerced(input, t) == Some(t.carry(n))
            } else {
                coerced(input, t) is None
            },
            None => coerced(input, t) is None,
        },
{
}

/// The text `NotAvailable` denotes the absence of a value for every type,
/// and for every wire code.
pub proof fn lemma_not_available(t: DataType, code: i32)
    ensures
        coerced("NotAvailable"@, t) == Some(ValueModel::FailureValue(Failure::NotAvailable)),
        coerced_for_code("NotAvailable"@, code) == Some(
            ValueModel::FailureValue(Failure::NotAvailable),
        ),
{
}

/// For a wire code that stands for no type every text fails but
/// `NotAvailable`.
pub proof fn lemma_unknown_code_fails(input: Seq<char>, code: i32)
    requires
        DataType::of_code(code) is None,
        input != "NotAvailable"@,
    ensures
        coerced_for_code(input, code) is None,
{
}

/// Reads the items of an array literal.
fn read_items(v: &Vec<char>) -> (r: Option<Vec<Vec<char>>>)
    ensures
        match r {
            Some(items) => array_items(v@) == Some(texts(items@)),
            None => array_items(v@) is None,
        },
{
    let n = v.len();
    if n < 2 || v[0] != '[' || v[n - 1] != ']' {
        return None;
    }
    let inner = slice_of(v, 1, n - 1);
    let pieces = split_fields(&inner, Delimiter::Char(','));
    let mut items: Vec<Vec<char>> = Vec::new();
    let mut i: usize = 0;
    while i < pieces.len()
        invariant
            i <= pieces.len(),
            items.len() == i,
            forall|k: int| 0 <= k < i ==> (#[trigger] items@[k])@ == trim(pieces@[k]@),
        decreases pieces.len() - i,
    {
        let item = trimmed(&pieces[i]);
        items.push(item);
        i += 1;
    }
    proof {
        let f = fields(v@.subrange(1, n - 1), Delimiter::Char(','));
        assert(texts(pieces@) == f);
        assert forall|k: int| 0 <= k < f.len() implies texts(items@)[k] == trim(f[k]) by {
            assert(texts(pieces@)[k] == pieces@[k]@);
        }
        assert(texts(items@) =~= Seq::new(f.len(), |i: int| trim(f[i])));
    }
    Some(items)
}

/// The strings that hold the texts of `items`.
fn to_strings(items: &Vec<Vec<char>>) -> (r: Vec<String>)
    ensures
        strings(r@) == texts(items@),
{
    let mut out: Vec<String> = Vec::new();
    let mut i: usize = 0;
    while i < items.len()
        invariant
            i <= items.len(),
            out.len() == i,
            forall|k: int| 0 <= k < i ==> (#[trigger] out@[k])@ == items@[k]@,
        decreases items.len() - i,
    {
        out.push(string_of(&items[i]));
        i += 1;
    }
    assert(strings(out@) =~= texts(items@));
    out
}

/// Reads a truth value.
fn read_bool(v: &Vec<char>) -> (r: Option<bool>)
    ensures
        r == bool_literal(v@),
{
    if is_literal(v, "true") {
        Some(true)
    } else if is_literal(v, "false") {
        Some(false)
    } else {
        None
    }
}

/// Reads every item as a truth value.
fn read_bools(items: &Vec<Vec<char>>) -> (r: Option<Vec<bool>>)
    ensures
        match r {
            Some(b) => all_bools(texts(items@)) && b@ == bools_of(texts(items@)),
            None => !all_bools(texts(items@)),
        },
{
    let mut out: Vec<bool> = Vec::new();
    let mut i: usize = 0;
    while i < items.len()
        invariant
            i <= items.len(),
            out.len() == i,
            forall|k: int| 0 <= k < i ==> bool_literal(#[trigger] texts(items@)[k]) == Some(out@[k]),
        decreases items.len() - i,
    {
        assert(texts(items@)[i as int] == items@[i as int]@);
        match read_bool(&items[i]) {
            Some(b) => out.push(b),
            None => {
                return None;
            },
        }
        i += 1;
    }
    assert(out@ =~= bools_of(texts(items@)));
    Some(out)
}

/// Whether every item is a literal with a fraction.
fn check_fractional(items: &Vec<Vec<char>>) -> (r: bool)
    ensures
        r == all_fractional(texts(items@)),
{
    let mut i: usize = 0;
    while i < items.len()
        invariant
            i <= items.len(),
            forall|k: int| 0 <= k < i ==> is_fractional_literal(#[trigger] texts(items@)[k]),
        decreases items.len() - i,
    {
        assert(texts(items@)[i as int] == items@[i as int]@);
        if !is_fractional(&items[i]) {
            return false;
        }
        i += 1;
    }
    true
}

/// Reads every item as a signed number within `min ..= max`.
fn read_signed(items: &Vec<Vec<char>>, min: i64, max: i64, Ghost(t): Ghost<DataType>) -> (r:
    Option<Vec<i64>>)
    requires
        t.is_signed(),
        t.min_value() == min,
        t.max_value() == max,
    ensures
        match r {
            Some(ns) => {
                &&& all_numbers(texts(items@), t)
                &&& ns.len() == items.len()
                &&& forall|k: int|
                    0 <= k < ns.len() ==> #[trigger] ns@[k] as int == numbers_of(
                        texts(items@),
                        t,
                    )[k]
            },
            None => !all_numbers(texts(items@), t),
        },
{
    let mut out: Vec<i64> = Vec::new();
    let mut i: usize = 0;
    while i < items.len()
        invariant
            i <= items.len(),
            out.len() == i,
            t.is_signed(),
            t.min_value() == min,
            t.max_value() == max,
            forall|k: int|
                0 <= k < i ==> t.number(#[trigger] texts(items@)[k]) == Some(out@[k] as int),
        decreases items.len() - i,
    {
        assert(texts(items@)[i as int] == items@[i as int]@);
        match parse_signed(&items[i], min, max) {
            Some(n) => out.push(n),
            None => {
                return None;
            },
        }
        i += 1;
    }
    Some(out)
}

/// Reads every item as an unsigned number no greater than `max`.
fn read_unsigned(items: &Vec<Vec<char>>, max: u64, Ghost(t): Ghost<DataType>) -> (r: Option<
    Vec<u64>,
>)
    requires
        t.is_integer(),
        !t.is_signed(),
        t.max_value() == max,
    ensures
        match r {
            Some(ns) => {
                &&& all_numbers(texts(items@), t)
                &&& ns.len() == items.len()
                &&& forall|k: int|
                    0 <= k < ns.len() ==> #[trigger] ns@[k] as int == numbers_of(
                        texts(items@),
                        t,
                    )[k]
            },
            None => !all_numbers(texts(items@), t),
        },
{
    let mut out: Vec<u64> = Vec::new();
    let mut i: usize = 0;
    while i < items.len()
        invariant
            i <= items.len(),
            out.len() == i,
            t.is_integer(),
            !t.is_signed(),
            t.max_value() == max,
            forall|k: int|
                0 <= k < i ==> t.number(#[trigger] texts(items@)[k]) == Some(out@[k] as int),
        decreases items.len() - i,
    {
        assert(texts(items@)[i as int] == items@[i as int]@);
        match parse_unsigned(&items[i], max) {
            Some(n) => out.push(n),
            None => {
                return None;
            },
        }
        i += 1;
    }
    Some(out)
}

/// The same numbers in the 32-bit signed carrier.
fn narrow_signed(ns: &Vec<i64>) -> (r: Vec<i32>)
    requires
        forall|k: int| 0 <= k < ns.len() ==> i32::MIN <= #[trigger] ns@[k] <= i32::MAX,
    ensures
        r.len() == ns.len(),
        forall|k: int| 0 <= k < r.len() ==> #[trigger] r@[k] as int == ns@[k] as int,
{
    let mut out: Vec<i32> = Vec::new();
    let mut i: usize = 0;
    while i < ns.len()
        invariant
            i <= ns.len(),
            out.len() == i,
            forall|k: int| 0 <= k < ns.len() ==> i32::MIN <= #[trigger] ns@[k] <= i32::MAX,
            forall|k: int| 0 <= k < i ==> #[trigger] out@[k] as int == ns@[k] as int,
        decreases ns.len() - i,
    {
        let n: i64 = ns[i];
        assert(i32::MIN <= ns@[i as int] <= i32::MAX);
        out.push(n as i32);
        i += 1;
    }
    out
}

/// The same numbers in the 32-bit unsigned carrier.
fn narrow_unsigned(ns: &Vec<u64>) -> (r: Vec<u32>)
    requires
        forall|k: int| 0 <= k < ns.len() ==> #[trigger] ns@[k] <= u32::MAX,
    ensures
        r.len() == ns.len(),
        forall|k: int| 0 <= k < r.len() ==> #[trigger] r@[k] as int == ns@[k] as int,
{
    let mut out: Vec<u32> = Vec::new();
    let mut i: usize = 0;
    while i < ns.len()
        invariant
            i <= ns.len(),
            out.len() == i,
            forall|k: int| 0 <= k < ns.len() ==> #[trigger] ns@[k] <= u32::MAX,
            forall|k: int| 0 <= k < i ==> #[trigger] out@[k] as int == ns@[k] as int,
        decreases ns.len() - i,
    {
        let n: u64 = ns[i];
        assert(ns@[i as int] <= u32::MAX);
        out.push(n as u32);
        i += 1;
    }
    out
}

/// Reads `v` as a scalar of a signed type narrower than 64 bits.
fn read_narrow_signed(v: &Vec<char>, min: i64, max: i64, Ghost(t): Ghost<DataType>) -> (r: Result<
    TypedValue,
    ParseError,
>)
    requires
        t == DataType::Int8 || t == DataType::Int16 || t == DataType::Int32,
        t.min_value() == min,
        t.max_value() == max,
    ensures
        match r {
            Ok(value) => scalar_of(v@, t) == Some(value@),
            Err(_) => scalar_of(v@, t) is None,
        },
{
    match parse_signed(v, min, max) {
        Some(n) => Ok(TypedValue::Int32Value(n as i32)),
        None => Err(ParseError {  }),
    }
}

/// Reads `v` as a scalar of an unsigned type narrower than 64 bits.
fn read_narrow_unsigned(v: &Vec<char>, max: u64, Ghost(t): Ghost<DataType>) -> (r: Result<
    TypedValue,
    ParseError,
>)
    requires
        t == DataType::Uint8 || t == DataType::Uint16 || t == DataType::Uint32,
        t.max_value() == max,
    ensures
        match r {
            Ok(value) => scalar_of(v@, t) == Some(value@),
            Err(_) => scalar_of(v@, t) is None,
        },
{
    match parse_unsigned(v, max) {
        Some(n) => Ok(TypedValue::Uint32Value(n as u32)),
        None => Err(ParseError {  }),
    }
}

/// Reads the items as an array of a signed type narrower than 64 bits.
fn read_narrow_signed_array(
    items: &Vec<Vec<char>>,
    min: i64,
    max: i64,
    Ghost(t): Ghost<DataType>,
) -> (r: Result<TypedValue, ParseError>)
    requires
        t == DataType::Int8Array || t == DataType::Int16Array || t == DataType::Int32Array,
        t.min_value() == min,
        t.max_value() == max,
    ensures
        match r {
            Ok(value) => array_of(texts(items@), t) == Some(value@),
            Err(_) => array_of(texts(items@), t) is None,
        },
{
    match read_signed(items, min, max, Ghost(t)) {
        Some(ns) => {
            let ghost want = numbers_of(texts(items@), t);
            assert forall|k: int| 0 <= k < ns.len() implies i32::MIN <= #[trigger] ns@[k]
                <= i32::MAX by {
                assert(ns@[k] as int == want[k]);
                assert(t.number(texts(items@)[k]) is Some);
            }
            let narrow = narrow_signed(&ns);
            assert(narrow@ =~= Seq::new(want.len(), |i: int| want[i] as i32)) by {
                assert forall|k: int| 0 <= k < narrow.len() implies narrow@[k] == want[k] as i32 by {
                    assert(narrow@[k] as int == ns@[k] as int);
                    assert(ns@[k] as int == want[k]);
                }
            }
            Ok(TypedValue::Int32Array(narrow))
        },
        None => Err(ParseError {  }),
    }
}

/// Reads the items as an array of an unsigned type narrower than 64 bits.
fn read_narrow_unsigned_array(items: &Vec<Vec<char>>, max: u64, Ghost(t): Ghost<DataType>) -> (r:
    Result<TypedValue, ParseError>)
    requires
        t == DataType::Uint8Array || t == DataType::Uint16Array || t == DataType::Uint32Array,
        t.max_value() == max,
    ensures
        match r {
            Ok(value) => array_of(texts(items@), t) == Some(value@),
            Err(_) => array_of(texts(items@), t) is None,
        },
{
    match read_unsigned(items, max, Ghost(t)) {
        Some(ns) => {
            let ghost want = numbers_of(texts(items@), t);
            assert forall|k: int| 0 <= k < ns.len() implies #[trigger] ns@[k] <= u32::MAX by {
                assert(ns@[k] as int == want[k]);
                assert(t.number(texts(items@)[k]) is Some);
            }
            let narrow = narrow_unsigned(&ns);
            assert(narrow@ =~= Seq::new(want.len(), |i: int| want[i] as u32)) by {
                assert forall|k: int| 0 <= k < narrow.len() implies narrow@[k] == want[k] as u32 by {
                    assert(narrow@[k] as int == ns@[k] as int);
                    assert(ns@[k] as int == want[k]);
                }
            }
            Ok(TypedValue::Uint32Array(narrow))
        },
        None => Err(ParseError {  }),
    }
}

/// Reads `v` as a scalar of type `t`.
fn read_scalar(v: &Vec<char>, t: DataType) -> (r: Result<TypedValue, ParseError>)
    requires
        !t.is_array(),
    ensures
        match r {
            Ok(value) => scalar_of(v@, t) == Some(value@),
            Err(_) => scalar_of(v@, t) is None,
        },
{
    match t {
        DataType::String => Ok(TypedValue::StringValue(string_of(v))),
        DataType::Bool => match read_bool(v) {
            Some(b) => Ok(TypedValue::BoolValue(b)),
            None => Err(ParseError {  }),
        },
        DataType::Int8 => read_narrow_signed(v, -0x80, 0x7f, Ghost(t)),
        DataType::Int16 => read_narrow_signed(v, -0x8000, 0x7fff, Ghost(t)),
        DataType::Int32 => read_narrow_signed(v, -0x8000_0000, 0x7fff_ffff, Ghost(t)),
        DataType::Int64 => match parse_signed(v, i64::MIN, i64::MAX) {
            Some(n) => Ok(TypedValue::Int64Value(n)),
            None => Err(ParseError {  }),
        },
        DataType::Uint8 => read_narrow_unsigned(v, 0xff, Ghost(t)),
        DataType::Uint16 => read_narrow_unsigned(v, 0xffff, Ghost(t)),
        DataType::Uint32 => read_narrow_unsigned(v, 0xffff_ffff, Ghost(t)),
        DataType::Uint64 => match parse_unsigned(v, u64::MAX) {
            Some(n) => Ok(TypedValue::Uint64Value(n)),
            None => Err(ParseError {  }),
        },
        DataType::Float => if is_fractional(v) {
            Ok(TypedValue::FloatValue(string_of(v)))
        } else {
            Err(ParseError {  })
        },
        _ => if is_fractional(v) {
            Ok(TypedValue::DoubleValue(string_of(v)))
        } else {
            Err(ParseError {  })
        },
    }
}

/// Reads the items as an array of type `t`.
fn read_array(items: &Vec<Vec<char>>, t: DataType) -> (r: Result<TypedValue, ParseError>)
    requires
        t.is_array(),
    ensures
        match r {
            Ok(value) => array_of(texts(items@), t) == Some(value@),
            Err(_) => array_of(texts(items@), t) is None,
        },
{
    match t {
        DataType::StringArray => Ok(TypedValue::StringArray(to_strings(items))),
        DataType::BoolArray => match read_bools(items) {
            Some(b) => Ok(TypedValue::BoolArray(b)),
            None => Err(ParseError {  }),
        },
        DataType::Int8Array => read_narrow_signed_array(items, -0x80, 0x7f, Ghost(t)),
        DataType::Int16Array => read_narrow_signed_array(items, -0x8000, 0x7fff, Ghost(t)),
        DataType::Int32Array => read_narrow_signed_array(
            items,
            -0x8000_0000,
            0x7fff_ffff,
            Ghost(t),
        ),
        DataType::Int64Array => match read_signed(items, i64::MIN, i64::MAX, Ghost(t)) {
            Some(ns) => {
                let ghost want = numbers_of(texts(items@), t);
                assert(ns@ =~= Seq::new(want.len(), |i: int| want[i] as i64)) by {
                    assert forall|k: int| 0 <= k < ns.len() implies ns@[k] == want[k] as i64 by {
                        assert(ns@[k] as int == want[k]);
                    }
                }
                Ok(TypedValue::Int64Array(ns))
            },
            None => Err(ParseError {  }),
        },
        DataType::Uint8Array => read_narrow_unsigned_array(items, 0xff, Ghost(t)),
        DataType::Uint16Array => read_narrow_unsigned_array(items, 0xffff, Ghost(t)),
        DataType::Uint32Array => read_narrow_unsigned_array(items, 0xffff_ffff, Ghost(t)),
        DataType::Uint64Array => match read_unsigned(items, u64::MAX, Ghost(t)) {
            Some(ns) => {
                let ghost want = numbers_of(texts(items@), t);
                assert(ns@ =~= Seq::new(want.len(), |i: int| want[i] as u64)) by {
                    assert forall|k: int| 0 <= k < ns.len() implies ns@[k] == want[k] as u64 by {
                        assert(ns@[k] as int == want[k]);
                    }
                }
                Ok(TypedValue::Uint64Array(ns))
            },
            None => Err(ParseError {  }),
        },
        DataType::FloatArray => if check_fractional(items) {
            Ok(TypedValue::FloatArray(to_strings(items)))
        } else {
            Err(ParseError {  })
        },
        _ => if check_fractional(items) {
            Ok(TypedValue::DoubleArray(to_strings(items)))
        } else {
            Err(ParseError {  })
        },
    }
}

/// Whether the type is an array type.
fn is_array_type(t: DataType) -> (r: bool)
    ensures
        r == t.is_array(),
{
    match t {
        DataType::StringArray
        | DataType::BoolArray
        | DataType::Int8Array
        | DataType::Int16Array
        | DataType::Int32Array
        | DataType::Int64Array
        | DataType::Uint8Array
        | DataType::Uint16Array
        | DataType::Uint32Array
        | DataType::Uint64Array
        | DataType::FloatArray
        | DataType::DoubleArray => true,
        _ => false,
    }
}

/// Reads `input` as a value for a signal of declared type `data_type`.
///
/// The text `NotAvailable` gives the absence of a value, whatever the type.
/// Otherwise a scalar type takes the whole text as one literal, and an array
/// type takes a bracketed list of literals of its element type; the text
/// fails as a whole where any part of it fails.
pub fn try_into_data_value(input: &str, data_type: DataType) -> (r: Result<TypedValue, ParseError>)
    ensures
        match r {
            Ok(value) => coerced(input@, data_type) == Some(value@),
            Err(_) => coerced(input@, data_type) is None,
        },
{
    let v = chars_of(input);
    if is_literal(&v, "NotAvailable") {
        return Ok(TypedValue::FailureValue(Failure::NotAvailable));
    }
    if is_array_type(data_type) {
        match read_items(&v) {
            Some(items) => read_array(&items, data_type),
            None => Err(ParseError {  }),
        }
    } else {
        read_scalar(&v, data_type)
    }
}

/// Reads `input` as a value for a signal whose declared type has the wire
/// code `code`. The text `NotAvailable` gives the absence of a value
/// whatever the code; for a code that stands for no type every other text
/// fails.
pub fn try_into_data_value_for_code(input: &str, code: i32) -> (r: Result<TypedValue, ParseError>)
    ensures
        match r {
            Ok(value) => coerced_for_code(input@, code) == Some(value@),
            Err(_) => coerced_for_code(input@, code) is None,
        },
{
    match DataType::from_i32(code) {
        Some(t) => try_into_data_value(input, t),
        None => {
            let v = chars_of(input);
            if is_literal(&v, "NotAvailable") {
                Ok(TypedValue::FailureValue(Failure::NotAvailable))
            } else {
                Err(ParseError {  })
            }
        },
    }
}

} // verus!
