//! The error of setting a field, and its message.
use vstd::prelude::*;
use vstd::string::*;
use crate::descriptor::{FieldDescriptor, Kind};
use crate::format::hiding_unknown;
use crate::render::render_value;
use crate::value::Value;

verus! {

/// Why a field of a message could not be set.
#[derive(Debug)]
pub enum SetFieldError {
    /// The message has no such field.
    NotFound,
    /// The value is not of the type of the field.
    InvalidType {
        /// The field that was to be set.
        field: FieldDescriptor,
        /// The value that was offered.
        value: Value,
    },
}

/// The type that a field expects, as schemas write it: `map<K, V>` for a map
/// field whose kind is a map entry type, `repeated` and the kind for a list,
/// and else the kind alone.
pub open spec fn expected_type(field: &FieldDescriptor) -> Seq<char> {
    match field.kind {
        Kind::Message(desc) if field.is_map && desc.map_entry is Some => "map<"@
            + desc.map_entry->Some_0.key.name() + ", "@ + desc.map_entry->Some_0.value.name()
            + ">"@,
        _ => if field.is_list {
            "repeated "@ + field.kind.name()
        } else {
            field.kind.name()
        },
    }
}

impl SetFieldError {
    /// The message of the error. For a value of the wrong type it names the
    /// type that the field expects and shows the value in compact text.
    pub open spec fn message(&self) -> Seq<char> {
        match self {
            SetFieldError::NotFound => "field not found"@,
            SetFieldError::InvalidType { field, value } => "expected a value of type '"@
                + expected_type(field) + "', but found '"@ + render_value(
                value,
                None,
                hiding_unknown(false),
                0,
            ) + "'"@,
        }
    }

    /// The message of the error, as [`SetFieldError::message`] gives it.
    pub fn to_text(&self) -> (text: String)
        ensures
            text@ == self.message(),
    {
        match self {
            SetFieldError::NotFound => String::from_str("field not found"),
            SetFieldError::InvalidType { field, value } => {
                let mut out = String::from_str("expected a value of type '");
                match &field.kind {
                    Kind::Message(desc) if field.is_map && desc.map_entry.is_some() => {
                        let entry = desc.map_entry.as_ref().unwrap();
                        out.append("map<");
                        out.append(entry.key.kind_name());
                        out.append(", ");
                        out.append(entry.value.kind_name());
                        out.append(">");
                    },
                    _ => {
                        if field.is_list {
                            out.append("repeated ");
                        }
                        out.append(field.kind.kind_name());
                    },
                }
                out.append("', but found '");
                out.append(value.to_text(false).as_str());
                out.append("'");
                out
            },
        }
    }
}

} // verus!
