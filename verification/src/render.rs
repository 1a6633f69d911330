//! The text format, as a function of the value that is rendered.
//!
//! Every function here gives the exact text of one construct. `indent` is the
//! number of spaces that a new line starts with at the place where the
//! construct stands; it matters in pretty mode only.
use vstd::prelude::*;
use vstd::utf8::encode_utf8;
use crate::any::any_expansion;
use crate::descriptor::{map_value_kind, Kind};
use crate::escape::quoted;
use crate::number::{decimal, hex, le_value, signed_decimal};
use crate::options::FormatOptions;
use crate::unknown::{
    field_weight, fields_weight, lemma_parse_fields_weight, parse_set, FieldModel,
};
use crate::value::{
    entries_weight, message_weight, numbered, present_weight, presents_weight, value_weight,
    values_weight, DynamicMessage, MapKey, Value, ValueAndDescriptor,
};

verus! {

/// `n` spaces.
pub open spec fn spaces(n: nat) -> Seq<char> {
    Seq::new(n, |i: int| ' ')
}

/// The space that pretty mode puts before a value.
pub open spec fn padding(pretty: bool) -> Seq<char> {
    if pretty {
        seq![' ']
    } else {
        Seq::empty()
    }
}

/// A line break and the indentation of the new line.
pub open spec fn newline(indent: nat) -> Seq<char> {
    seq!['\n'] + spaces(indent)
}

/// What stands between two sibling fields: a new line in pretty mode, a
/// comma in compact mode.
pub open spec fn separator(pretty: bool, indent: nat) -> Seq<char> {
    if pretty {
        newline(indent)
    } else {
        seq![',']
    }
}

/// What stands between two elements of a bracketed list: a comma, and a
/// space in pretty mode.
pub open spec fn list_separator(pretty: bool) -> Seq<char> {
    seq![','] + padding(pretty)
}

/// The indentation inside a braced block that stands at `indent`.
pub open spec fn inner(pretty: bool, indent: nat) -> nat {
    if pretty {
        indent + 2
    } else {
        indent
    }
}

/// A braced block around `body`, which was rendered at the indentation
/// [`inner`]: in pretty mode the body stands on lines of its own.
pub open spec fn braced(body: Seq<char>, pretty: bool, indent: nat) -> Seq<char> {
    if pretty {
        seq!['{'] + newline(indent + 2) + body + newline(indent) + seq!['}']
    } else {
        seq!['{'] + body + seq!['}']
    }
}

/// The parts, with `sep` between each two.
pub open spec fn join(parts: Seq<Seq<char>>, sep: Seq<char>) -> Seq<char>
    decreases parts.len(),
{
    if parts.len() == 0 {
        Seq::empty()
    } else if parts.len() == 1 {
        parts[0]
    } else {
        join(parts.drop_last(), sep) + sep + parts.last()
    }
}

/// `true` or `false`.
pub open spec fn render_bool(b: bool) -> Seq<char> {
    if b {
        "true"@
    } else {
        "false"@
    }
}

/// A string as a quoted literal: its UTF-8 bytes, escaped.
pub open spec fn render_string(s: Seq<char>) -> Seq<char> {
    quoted(encode_utf8(s))
}

/// The value of an unknown field. A varint is a colon and a decimal
/// numeral, a fixed-width value a colon and a hexadecimal numeral; a group
/// is a braced set; a length-delimited value is a braced set where its
/// bytes are not empty and read as a set of fields, and else a colon and a
/// quoted literal.
pub open spec fn render_unknown_value(field: FieldModel, pretty: bool, indent: nat) -> Seq<char>
    decreases field_weight(field), 0nat, 0nat,
{
    match field {
        FieldModel::Varint(value) => seq![':'] + padding(pretty) + decimal(value as nat),
        FieldModel::ThirtyTwoBit(bytes) => seq![':'] + padding(pretty) + hex(le_value(bytes), 8),
        FieldModel::SixtyFourBit(bytes) => seq![':'] + padding(pretty) + hex(le_value(bytes), 16),
        FieldModel::LengthDelimited(bytes) => match parse_set(bytes) {
            Ok(fields) if bytes.len() > 0 => {
                proof {
                    lemma_parse_fields_weight(bytes);
                }
                padding(pretty) + render_unknown_set(fields, pretty, indent)
            },
            _ => seq![':'] + padding(pretty) + quoted(bytes),
        },
        FieldModel::Group(fields) => padding(pretty) + render_unknown_set(fields, pretty, indent),
    }
}

/// One unknown field: its number, then its value.
pub open spec fn render_unknown_field(number: u32, field: FieldModel, pretty: bool, indent: nat) -> Seq<
    char,
>
    decreases field_weight(field), 0nat, 1nat,
{
    decimal(number as nat) + render_unknown_value(field, pretty, indent)
}

/// Unknown fields one after the other, with the separator between them.
pub open spec fn render_unknown_fields(fields: Seq<(u32, FieldModel)>, pretty: bool, indent: nat) -> Seq<
    char,
>
    decreases fields_weight(fields), fields.len(), 1nat,
{
    if fields.len() == 0 {
        Seq::empty()
    } else if fields.len() == 1 {
        render_unknown_field(fields.last().0, fields.last().1, pretty, indent)
    } else {
        render_unknown_fields(fields.drop_last(), pretty, indent) + separator(pretty, indent)
            + render_unknown_field(fields.last().0, fields.last().1, pretty, indent)
    }
}

/// A set of unknown fields as a value: `{}` for the empty set, else the
/// fields in a braced block.
pub open spec fn render_unknown_set(fields: Seq<(u32, FieldModel)>, pretty: bool, indent: nat) -> Seq<
    char,
>
    decreases fields_weight(fields), fields.len() + 1, 2nat,
{
    if fields.len() == 0 {
        "{}"@
    } else {
        braced(render_unknown_fields(fields, pretty, inner(pretty, indent)), pretty, indent)
    }
}

/// The key of a map entry.
pub open spec fn render_map_key(key: &MapKey) -> Seq<char> {
    match key {
        MapKey::Bool(b) => render_bool(*b),
        MapKey::I32(n) => signed_decimal(*n as int),
        MapKey::I64(n) => signed_decimal(*n as int),
        MapKey::U32(n) => decimal(*n as nat),
        MapKey::U64(n) => decimal(*n as nat),
        MapKey::String(s) => render_string(s@),
    }
}

/// An enum number under the kind `kind`: the name of its constant where the
/// kind is an enum type that declares one, else the number.
pub open spec fn render_enum(number: i32, kind: Option<&Kind>) -> Seq<char> {
    match kind {
        Some(Kind::Enum(desc)) => match desc.value_name(number) {
            Some(name) => name,
            None => signed_decimal(number as int),
        },
        _ => signed_decimal(number as int),
    }
}

/// Whether a field is left out of the text: an unknown field, where the
/// options skip those.
pub open spec fn is_hidden(field: &ValueAndDescriptor, options: FormatOptions) -> bool {
    options.skip_unknown_fields && field is Unknown
}

/// Whether every field is left out of the text.
pub open spec fn all_hidden(fields: Seq<ValueAndDescriptor>, options: FormatOptions) -> bool {
    forall|i: int| 0 <= i < fields.len() ==> is_hidden(&#[trigger] fields[i], options)
}

/// A value under the static kind `kind`, which may be absent.
pub open spec fn render_value(
    value: &Value,
    kind: Option<&Kind>,
    options: FormatOptions,
    indent: nat,
) -> Seq<char>
    decreases value_weight(value), 0nat, 0nat,
{
    match value {
        Value::Bool(b) => render_bool(*b),
        Value::I32(n) => signed_decimal(*n as int),
        Value::I64(n) => signed_decimal(*n as int),
        Value::U32(n) => decimal(*n as nat),
        Value::U64(n) => decimal(*n as nat),
        Value::F32(text) => text@,
        Value::F64(text) => text@,
        Value::String(s) => render_string(s@),
        Value::Bytes(bytes) => quoted(bytes@),
        Value::EnumNumber(n) => render_enum(*n, kind),
        Value::Message(message) => render_message_value(message, options, indent),
        Value::List(list) => seq!['['] + render_values(list@, kind, options, indent) + seq![']'],
        Value::Mapping(entries) => seq!['['] + render_entries(
            entries@,
            map_value_kind(kind),
            options,
            indent,
        ) + seq![']'],
    }
}

/// A value behind the token of its field: a message follows the token
/// directly, any other value follows a colon; in pretty mode a space stands
/// before the value.
pub open spec fn render_field_value(
    value: &Value,
    kind: Option<&Kind>,
    options: FormatOptions,
    indent: nat,
) -> Seq<char>
    decreases value_weight(value), 0nat, 1nat,
{
    (if value is Message {
        Seq::empty()
    } else {
        seq![':']
    }) + padding(options.pretty) + render_value(value, kind, options, indent)
}

/// The elements of a list, in order, with the list separator between them.
pub open spec fn render_values(
    values: Seq<Value>,
    kind: Option<&Kind>,
    options: FormatOptions,
    indent: nat,
) -> Seq<char>
    decreases values_weight(values), values.len(), 2nat,
{
    if values.len() == 0 {
        Seq::empty()
    } else if values.len() == 1 {
        render_value(&values.last(), kind, options, indent)
    } else {
        render_values(values.drop_last(), kind, options, indent) + list_separator(options.pretty)
            + render_value(&values.last(), kind, options, indent)
    }
}

/// One entry of a map: a braced block with the key and the value, named
/// `key` and `value`.
pub open spec fn render_entry(
    key: &MapKey,
    value: &Value,
    kind: Option<&Kind>,
    options: FormatOptions,
    indent: nat,
) -> Seq<char>
    decreases value_weight(value), 0nat, 2nat,
{
    if options.pretty {
        seq!['{'] + newline(indent + 2) + "key: "@ + render_map_key(key) + newline(indent + 2)
            + "value"@ + render_field_value(value, kind, options, indent + 2) + newline(indent)
            + seq!['}']
    } else {
        "{key:"@ + render_map_key(key) + ",value"@ + render_field_value(
            value,
            kind,
            options,
            indent,
        ) + seq!['}']
    }
}

/// The entries of a map, in order, with the list separator between them.
pub open spec fn render_entries(
    entries: Seq<(MapKey, Value)>,
    kind: Option<&Kind>,
    options: FormatOptions,
    indent: nat,
) -> Seq<char>
    decreases entries_weight(entries), entries.len(), 3nat,
{
    if entries.len() == 0 {
        Seq::empty()
    } else if entries.len() == 1 {
        render_entry(&entries.last().0, &entries.last().1, kind, options, indent)
    } else {
        render_entries(entries.drop_last(), kind, options, indent) + list_separator(
            options.pretty,
        ) + render_entry(&entries.last().0, &entries.last().1, kind, options, indent)
    }
}

/// One present field of a message: the token of the field and its value, or
/// for an unknown field number its raw values one after the other.
pub open spec fn render_field(field: &ValueAndDescriptor, options: FormatOptions, indent: nat) -> Seq<
    char,
>
    decreases present_weight(field), 0nat, 2nat,
{
    match field {
        ValueAndDescriptor::Field(value, desc) => desc.token() + render_field_value(
            value,
            Some(&desc.kind),
            options,
            indent,
        ),
        ValueAndDescriptor::Extension(value, desc) => seq!['['] + desc.token() + seq![']']
            + render_field_value(value, Some(&desc.kind), options, indent),
        ValueAndDescriptor::Unknown(number, values) => render_unknown_fields(
            numbered(*number, values@),
            options.pretty,
            indent,
        ),
    }
}

/// The fields of a message that are not hidden, in order, with the separator
/// between them.
pub open spec fn render_fields(fields: Seq<ValueAndDescriptor>, options: FormatOptions, indent: nat) -> Seq<
    char,
>
    decreases presents_weight(fields), fields.len(), 3nat,
{
    if fields.len() == 0 {
        Seq::empty()
    } else if is_hidden(&fields.last(), options) {
        render_fields(fields.drop_last(), options, indent)
    } else if all_hidden(fields.drop_last(), options) {
        render_field(&fields.last(), options, indent)
    } else {
        render_fields(fields.drop_last(), options, indent) + separator(options.pretty, indent)
            + render_field(&fields.last(), options, indent)
    }
}

/// The content of a message. A `google.protobuf.Any` wrapper that can be
/// expanded, where the options ask for it, is its type URL in square
/// brackets and the embedded message as a field value. Any other message
/// is its fields.
pub open spec fn render_message(message: &DynamicMessage, options: FormatOptions, indent: nat) -> Seq<
    char,
>
    decreases message_weight(message), 0nat, 4nat,
{
    match any_expansion(message) {
        Some((url, body)) if options.expand_any => seq!['['] + url + seq![']'] + padding(
            options.pretty,
        ) + render_message_value(&body, options, indent),
        _ => render_fields(message.fields@, options, indent),
    }
}

/// A message as a value: `{}` where no field of it is rendered, else its
/// content in a braced block.
pub open spec fn render_message_value(
    message: &DynamicMessage,
    options: FormatOptions,
    indent: nat,
) -> Seq<char>
    decreases message_weight(message), 0nat, 5nat,
{
    if all_hidden(message.fields@, options) {
        "{}"@
    } else {
        braced(
            render_message(message, options, inner(options.pretty, indent)),
            options.pretty,
            indent,
        )
    }
}


/// Where every field is hidden, the fields render as nothing.
pub proof fn lemma_hidden_fields_are_empty(
    fields: Seq<ValueAndDescriptor>,
    options: FormatOptions,
    indent: nat,
)
    requires
        all_hidden(fields, options),
    ensures
        render_fields(fields, options, indent) =~= Seq::empty(),
    decreases fields.len(),
{
    if fields.len() > 0 {
        assert(is_hidden(&fields[fields.len() - 1], options));
        assert forall|j: int| 0 <= j < fields.drop_last().len() implies is_hidden(
            &#[trigger] fields.drop_last()[j],
            options,
        ) by {
            assert(fields.drop_last()[j] == fields[j]);
        }
        lemma_hidden_fields_are_empty(fields.drop_last(), options, indent);
    }
}

/// The first `i + 1` fields are all hidden where the first `i` are and the
/// next one is.
pub proof fn lemma_all_hidden_step(fields: Seq<ValueAndDescriptor>, options: FormatOptions, i: int)
    requires
        0 <= i < fields.len(),
    ensures
        all_hidden(fields.take(i + 1), options) == (all_hidden(fields.take(i), options)
            && is_hidden(&fields[i], options)),
{
    let shorter = fields.take(i);
    let longer = fields.take(i + 1);
    if all_hidden(longer, options) {
        assert(longer[i] == fields[i]);
        assert forall|j: int| 0 <= j < shorter.len() implies is_hidden(
            &#[trigger] shorter[j],
            options,
        ) by {
            assert(longer[j] == shorter[j]);
        }
    }
    if all_hidden(shorter, options) && is_hidden(&fields[i], options) {
        assert forall|j: int| 0 <= j < longer.len() implies is_hidden(
            &#[trigger] longer[j],
            options,
        ) by {
            if j < i {
                assert(longer[j] == shorter[j]);
            }
        }
    }
}

} // verus!
