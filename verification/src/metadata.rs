//! Signal descriptors as the broker reports them, and the enumerations whose
//! wire codes they carry.

use vstd::prelude::*;

verus! {

/// What kind of entry a signal is.
#[derive(Clone, Copy, Debug, PartialEq, Eq, Structural)]
pub enum EntryType {
    Unspecified,
    Sensor,
    Actuator,
    Attribute,
}

/// When the broker reports a change of a signal.
#[derive(Clone, Copy, Debug, PartialEq, Eq, Structural)]
pub enum ChangeType {
    Static,
    OnChange,
    Continuous,
}

/// Why the broker refused one item of a write.
#[derive(Clone, Copy, Debug, PartialEq, Eq, Structural)]
pub enum DatapointError {
    UnknownDatapoint,
    InvalidType,
    AccessDenied,
    InternalError,
    OutOfBounds,
}

/// One signal of the broker's namespace. `data_type`, `entry_type` and
/// `change_type` hold wire codes, which may stand for nothing this client
/// knows.
#[derive(Clone, Debug, PartialEq, Eq)]
pub struct Metadata {
    pub id: i32,
    pub name: String,
    pub data_type: i32,
    pub entry_type: i32,
    pub change_type: i32,
    pub description: String,
}

/// The part of a descriptor that commands read.
pub ghost struct MetadataModel {
    pub id: i32,
    pub name: Seq<char>,
    pub data_type: i32,
    pub entry_type: i32,
}

impl View for Metadata {
    type V = MetadataModel;

    open spec fn view(&self) -> MetadataModel {
        MetadataModel {
            id: self.id,
            name: self.name@,
            data_type: self.data_type,
            entry_type: self.entry_type,
        }
    }
}

/// The descriptors that `entries` hold.
pub open spec fn descriptors(entries: Seq<Metadata>) -> Seq<MetadataModel> {
    Seq::new(entries.len(), |i: int| entries[i]@)
}

/// The names of the descriptors, in order.
pub open spec fn names(entries: Seq<MetadataModel>) -> Seq<Seq<char>> {
    Seq::new(entries.len(), |i: int| entries[i].name)
}

impl EntryType {
    /// The wire code of the kind.
    pub open spec fn code_of(self) -> i32 {
        match self {
            EntryType::Unspecified => 0,
            EntryType::Sensor => 1,
            EntryType::Actuator => 2,
            EntryType::Attribute => 3,
        }
    }

    /// The wire code of the kind.
    pub fn code(&self) -> (r: i32)
        ensures
            r == self.code_of(),
            EntryType::of_code(r) == Some(*self),
    {
        match self {
            EntryType::Unspecified => 0,
            EntryType::Sensor => 1,
            EntryType::Actuator => 2,
            EntryType::Attribute => 3,
        }
    }

    /// The kind that a wire code stands for.
    pub open spec fn of_code(code: i32) -> Option<EntryType> {
        if code == 0 {
            Some(EntryType::Unspecified)
        } else if code == 1 {
            Some(EntryType::Sensor)
        } else if code == 2 {
            Some(EntryType::Actuator)
        } else if code == 3 {
            Some(EntryType::Attribute)
        } else {
            None
        }
    }

    /// The kind that a wire code stands for, if any.
    pub fn from_i32(code: i32) -> (r: Option<EntryType>)
        ensures
            r == EntryType::of_code(code),
    {
        match code {
            0 => Some(EntryType::Unspecified),
            1 => Some(EntryType::Sensor),
            2 => Some(EntryType::Actuator),
            3 => Some(EntryType::Attribute),
            _ => None,
        }
    }

    /// The kind's name.
    pub open spec fn label(self) -> Seq<char> {
        match self {
            EntryType::Unspecified => "Unspecified"@,
            EntryType::Sensor => "Sensor"@,
            EntryType::Actuator => "Actuator"@,
            EntryType::Attribute => "Attribute"@,
        }
    }

    /// The kind's name.
    pub fn name(&self) -> (r: &'static str)
        ensures
            r@ == self.label(),
    {
        match self {
            EntryType::Unspecified => "Unspecified",
            EntryType::Sensor => "Sensor",
            EntryType::Actuator => "Actuator",
            EntryType::Attribute => "Attribute",
        }
    }
}

impl ChangeType {
    /// The wire code of the change type.
    pub open spec fn code_of(self) -> i32 {
        match self {
            ChangeType::Static => 0,
            ChangeType::OnChange => 1,
            ChangeType::Continuous => 2,
        }
    }

    /// The wire code of the change type.
    pub fn code(&self) -> (r: i32)
        ensures
            r == self.code_of(),
            ChangeType::of_code(r) == Some(*self),
    {
        match self {
            ChangeType::Static => 0,
            ChangeType::OnChange => 1,
            ChangeType::Continuous => 2,
        }
    }

    /// The change type that a wire code stands for.
    pub open spec fn of_code(code: i32) -> Option<ChangeType> {
        if code == 0 {
            Some(ChangeType::Static)
        } else if code == 1 {
            Some(ChangeType::OnChange)
        } else if code == 2 {
            Some(ChangeType::Continuous)
        } else {
            None
        }
    }

    /// The change type that a wire code stands for, if any.
    pub fn from_i32(code: i32) -> (r: Option<ChangeType>)
        ensures
            r == ChangeType::of_code(code),
    {
        match code {
            0 => Some(ChangeType::Static),
            1 => Some(ChangeType::OnChange),
            2 => Some(ChangeType::Continuous),
            _ => None,
        }
    }

    /// The change type's name.
    pub open spec fn label(self) -> Seq<char> {
        match self {
            ChangeType::Static => "Static"@,
            ChangeType::OnChange => "OnChange"@,
            ChangeType::Continuous => "Continuous"@,
        }
    }

    /// The change type's name.
    pub fn name(&self) -> (r: &'static str)
        ensures
            r@ == self.label(),
    {
        match self {
            ChangeType::Static => "Static",
            ChangeType::OnChange => "OnChange",
            ChangeType::Continuous => "Continuous",
        }
    }
}

impl DatapointError {
    /// The error that a wire code stands for.
    pub open spec fn of_code(code: i32) -> Option<DatapointError> {
        if code == 0 {
            Some(DatapointError::UnknownDatapoint)
        } else if code == 1 {
            Some(DatapointError::InvalidType)
        } else if code == 2 {
            Some(DatapointError::AccessDenied)
        } else if code == 3 {
            Some(DatapointError::InternalError)
        } else if code == 4 {
            Some(DatapointError::OutOfBounds)
        } else {
            None
        }
    }

    /// The error that a wire code stands for, if any.
    pub fn from_i32(code: i32) -> (r: Option<DatapointError>)
        ensures
            r == DatapointError::of_code(code),
    {
        match code {
            0 => Some(DatapointError::UnknownDatapoint),
            1 => Some(DatapointError::InvalidType),
            2 => Some(DatapointError::AccessDenied),
            3 => Some(DatapointError::InternalError),
            4 => Some(DatapointError::OutOfBounds),
            _ => None,
        }
    }

    /// The error's name.
    pub open spec fn label(self) -> Seq<char> {
        match self {
            DatapointError::UnknownDatapoint => "UnknownDatapoint"@,
            DatapointError::InvalidType => "InvalidType"@,
            DatapointError::AccessDenied => "AccessDenied"@,
            DatapointError::InternalError => "InternalError"@,
            DatapointError::OutOfBounds => "OutOfBounds"@,
        }
    }

    /// The error's name.
    pub fn name(&self) -> (r: &'static str)
        ensures
            r@ == self.label(),
    {
        match self {
            DatapointError::UnknownDatapoint => "UnknownDatapoint",
            DatapointError::InvalidType => "InvalidType",
            DatapointError::AccessDenied => "AccessDenied",
            DatapointError::InternalError => "InternalError",
            DatapointError::OutOfBounds => "OutOfBounds",
        }
    }
}

} // verus!
