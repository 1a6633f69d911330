//! What the renderer reads of a schema: names, kinds and flags of fields.
use vstd::prelude::*;

verus! {

/// One named constant of an enum type.
#[derive(Debug)]
pub struct EnumValueDescriptor {
    pub name: String,
    pub number: i32,
}

/// An enum type: its qualified name and its constants in declaration order.
#[derive(Debug)]
pub struct EnumDescriptor {
    pub full_name: String,
    pub values: Vec<EnumValueDescriptor>,
}

/// A message type: its short and qualified names and, for the entry type of
/// a map field, the kinds of its key and value.
#[derive(Debug)]
pub struct MessageDescriptor {
    pub name: String,
    pub full_name: String,
    pub map_entry: Option<Box<MapEntry>>,
}

/// The kinds of the two fields of a map entry type.
#[derive(Debug)]
pub struct MapEntry {
    pub key: Kind,
    pub value: Kind,
}

/// The declared type of a field.
#[derive(Debug)]
pub enum Kind {
    Double,
    Float,
    Int32,
    Int64,
    Uint32,
    Uint64,
    Sint32,
    Sint64,
    Fixed32,
    Fixed64,
    Sfixed32,
    Sfixed64,
    Bool,
    String,
    Bytes,
    Message(MessageDescriptor),
    Enum(EnumDescriptor),
}

/// A declared field of a message.
#[derive(Debug)]
pub struct FieldDescriptor {
    pub name: String,
    pub number: u32,
    pub kind: Kind,
    pub is_group: bool,
    pub is_list: bool,
    pub is_map: bool,
}

/// An extension field.
#[derive(Debug)]
pub struct ExtensionDescriptor {
    pub full_name: String,
    pub number: u32,
    pub kind: Kind,
    pub is_group: bool,
    pub is_list: bool,
    pub is_map: bool,
}

/// The index of the first constant with the number `number` at or behind
/// index `from`, if there is one.
pub open spec fn first_with_number(values: Seq<EnumValueDescriptor>, number: i32, from: int) -> Option<
    int,
>
    decreases values.len() - from,
{
    if from < 0 || from >= values.len() {
        None
    } else if values[from].number == number {
        Some(from)
    } else {
        first_with_number(values, number, from + 1)
    }
}

impl EnumDescriptor {
    /// The name of the first constant declared with the number `number`.
    pub open spec fn value_name(&self, number: i32) -> Option<Seq<char>> {
        match first_with_number(self.values@, number, 0) {
            Some(i) => Some(self.values@[i].name@),
            None => None,
        }
    }

    /// The first constant declared with the number `number`, if any.
    pub fn get_value(&self, number: i32) -> (r: Option<&EnumValueDescriptor>)
        ensures
            match self.value_name(number) {
                Some(name) => r matches Some(v) && v.name@ == name && v.number == number,
                None => r is None,
            },
    {
        let mut i: usize = 0;
        while i < self.values.len()
            invariant
                i <= self.values@.len(),
                first_with_number(self.values@, number, 0) == first_with_number(
                    self.values@,
                    number,
                    i as int,
                ),
            decreases self.values@.len() - i,
        {
            if self.values[i].number == number {
                return Some(&self.values[i]);
            }
            i += 1;
        }
        None
    }
}

impl Kind {
    /// The name of the kind as schemas write it: the keyword of a scalar
    /// kind, the qualified name of a message or enum type.
    pub open spec fn name(&self) -> Seq<char> {
        match self {
            Kind::Double => "double"@,
            Kind::Float => "float"@,
            Kind::Int32 => "int32"@,
            Kind::Int64 => "int64"@,
            Kind::Uint32 => "uint32"@,
            Kind::Uint64 => "uint64"@,
            Kind::Sint32 => "sint32"@,
            Kind::Sint64 => "sint64"@,
            Kind::Fixed32 => "fixed32"@,
            Kind::Fixed64 => "fixed64"@,
            Kind::Sfixed32 => "sfixed32"@,
            Kind::Sfixed64 => "sfixed64"@,
            Kind::Bool => "bool"@,
            Kind::String => "string"@,
            Kind::Bytes => "bytes"@,
            Kind::Message(desc) => desc.full_name@,
            Kind::Enum(desc) => desc.full_name@,
        }
    }

    /// The name of the kind, as [`Kind::name`] gives it.
    pub fn kind_name(&self) -> (r: &str)
        ensures
            r@ == self.name(),
    {
        match self {
            Kind::Double => "double",
            Kind::Float => "float",
            Kind::Int32 => "int32",
            Kind::Int64 => "int64",
            Kind::Uint32 => "uint32",
            Kind::Uint64 => "uint64",
            Kind::Sint32 => "sint32",
            Kind::Sint64 => "sint64",
            Kind::Fixed32 => "fixed32",
            Kind::Fixed64 => "fixed64",
            Kind::Sfixed32 => "sfixed32",
            Kind::Sfixed64 => "sfixed64",
            Kind::Bool => "bool",
            Kind::String => "string",
            Kind::Bytes => "bytes",
            Kind::Message(desc) => desc.full_name.as_str(),
            Kind::Enum(desc) => desc.full_name.as_str(),
        }
    }

    /// The message type of a message kind.
    pub fn as_message(&self) -> (r: Option<&MessageDescriptor>)
        ensures
            r == self.message(),
    {
        match self {
            Kind::Message(desc) => Some(desc),
            _ => None,
        }
    }

    /// The message type of a message kind.
    pub open spec fn message(&self) -> Option<&MessageDescriptor> {
        match self {
            Kind::Message(desc) => Some(desc),
            _ => None,
        }
    }
}

/// The kind that the values of a map have, where the kind of the map field
/// is at hand and is a map entry type.
pub open spec fn map_value_kind(kind: Option<&Kind>) -> Option<&Kind> {
    match kind {
        Some(Kind::Message(desc)) => match &desc.map_entry {
            Some(entry) => Some(&entry.value),
            None => None,
        },
        _ => None,
    }
}

/// The kind that the values of a map have, as [`map_value_kind`] gives it.
pub fn map_entry_value_kind<'a>(kind: Option<&'a Kind>) -> (r: Option<&'a Kind>)
    ensures
        r == map_value_kind(kind),
{
    match kind {
        Some(Kind::Message(desc)) => match &desc.map_entry {
            Some(entry) => Some(&entry.value),
            None => None,
        },
        _ => None,
    }
}

impl FieldDescriptor {
    /// The token that names the field in text: the name of the field, or for
    /// a group the name of its message type.
    pub open spec fn token(&self) -> Seq<char> {
        match self.kind {
            Kind::Message(desc) if self.is_group => desc.name@,
            _ => self.name@,
        }
    }
}

impl ExtensionDescriptor {
    /// The name that stands between square brackets in text: the qualified
    /// name of the extension, or for a group that of its message type.
    pub open spec fn token(&self) -> Seq<char> {
        match self.kind {
            Kind::Message(desc) if self.is_group => desc.full_name@,
            _ => self.full_name@,
        }
    }
}

} // verus!
