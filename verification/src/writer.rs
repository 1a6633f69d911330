//! The renderer: appends the text of a value to a string.
use vstd::prelude::*;
use vstd::string::*;
use vstd::utf8::encode_utf8;
use crate::any::as_any;
use crate::descriptor::{map_entry_value_kind, Kind};
use crate::escape::{escape, lemma_escape_push, quoted};
use crate::number::{hex, le_value, push_decimal, push_fixed_width, push_signed_decimal};
use crate::options::FormatOptions;
use crate::render::{
    all_hidden, braced, inner, is_hidden, lemma_all_hidden_step, lemma_hidden_fields_are_empty,
    newline, padding, render_bool,
    render_entries, render_entry, render_field, render_field_value, render_fields,
    render_map_key, render_message, render_message_value, render_unknown_field,
    render_unknown_fields, render_unknown_set, render_unknown_value, render_value,
    render_values, separator, spaces,
};
use crate::unknown::{
    field_weight, fields_model, fields_weight, lemma_field_weight_within,
    lemma_parse_fields_weight, FieldModel, UnknownField, UnknownFieldSet,
};
use crate::value::{
    entries_weight, lemma_entry_weight_within, lemma_present_weight_within,
    lemma_value_weight_within, message_weight, numbered, present_weight, presents_weight,
    value_weight, values_weight, DynamicMessage, MapKey, Value, ValueAndDescriptor,
};

verus! {

/// `String::len` gives the length of the string in bytes, which are the
/// bytes of its UTF-8 encoding.
pub assume_specification[ std::string::String::len ](s: &std::string::String) -> (n: usize)
    ensures
        n == encode_utf8(s@).len(),
;

/// Text takes at least one byte for each character.
pub proof fn lemma_encoding_length(chars: Seq<char>)
    ensures
        chars.len() <= encode_utf8(chars).len(),
    decreases chars.len(),
{
    if chars.len() > 0 {
        lemma_encoding_length(chars.drop_first());
    }
}

/// The state of one rendering: the options, the sink that the text goes
/// to, and the indentation of the line that is being written.
///
/// Every method appends to the sink and leaves the options and, in the end,
/// the indentation as they were: its contract says so with
/// [`Writer::wrote`], and adds that `f` still borrows the same string.
pub struct Writer<'a> {
    pub options: FormatOptions,
    pub f: &'a mut String,
    pub indent_level: usize,
}

impl<'a> Writer<'a> {
    /// The text that the sink holds.
    pub open spec fn text(&self) -> Seq<char> {
        self.f@
    }

    /// The indentation never exceeds what has been written: every level of
    /// it was written out at least once. This bounds the counter.
    pub open spec fn wf(&self) -> bool {
        self.indent_level == 0 || self.indent_level < self.text().len()
    }

    /// Since the state `before`, `text` was appended to the sink and nothing
    /// else changed.
    pub open spec fn wrote(&self, before: &Self, text: Seq<char>) -> bool {
        &&& self.options == before.options
        &&& self.indent_level == before.indent_level
        &&& self.text() =~= before.text() + text
    }

    /// A writer on the sink `f`, at the start of a line without indentation.
    pub fn new(options: FormatOptions, f: &'a mut String) -> (w: Self)
        ensures
            w.options == options,
            w.indent_level == 0,
            w.text() == old(f)@,
            *final(w.f) == *final(f),
            w.wf(),
    {
        Writer { options, f, indent_level: 0 }
    }

    /// Appends the space that pretty mode puts before a value.
    pub fn fmt_padding(&mut self)
        ensures
            final(self).wrote(old(self), padding(old(self).options.pretty)),
            *final(final(self).f) == *final(old(self).f),
    {
        if self.options.pretty {
            self.f.push(' ');
        }
    }

    /// Appends a line break and the indentation of the new line.
    pub fn fmt_newline(&mut self)
        ensures
            final(self).wrote(old(self), newline(old(self).indent_level as nat)),
            *final(final(self).f) == *final(old(self).f),
    {
        self.f.push('\n');
        let mut i: usize = 0;
        while i < self.indent_level
            invariant
                i <= self.indent_level,
                self.wrote(old(self), seq!['\n'] + spaces(i as nat)),
                *final(self.f) == *final(old(self).f),
            decreases self.indent_level - i,
        {
            self.f.push(' ');
            i += 1;
            assert(spaces(i as nat) =~= spaces((i - 1) as nat).push(' '));
        }
    }

    /// Appends a byte string as a quoted literal.
    #[verifier::rlimit(50)]
    pub fn fmt_string(&mut self, bytes: &[u8])
        ensures
            final(self).wrote(old(self), quoted(bytes@)),
            *final(final(self).f) == *final(old(self).f),
    {
        self.f.push('"');
        let mut i: usize = 0;
        while i < bytes.len()
            invariant
                i <= bytes@.len(),
                self.wrote(old(self), seq!['"'] + escape(bytes@.take(i as int))),
                *final(self.f) == *final(old(self).f),
            decreases bytes@.len() - i,
        {
            let ch = bytes[i];
            proof {
                lemma_escape_push(bytes@, i as int);
            }
            if ch == 0x09 {
                self.f.push('\\');
                self.f.push('t');
            } else if ch == 0x0d {
                self.f.push('\\');
                self.f.push('r');
            } else if ch == 0x0a {
                self.f.push('\\');
                self.f.push('n');
            } else if ch == 0x5c {
                self.f.push('\\');
                self.f.push('\\');
            } else if ch == 0x27 {
                self.f.push('\\');
                self.f.push('\'');
            } else if ch == 0x22 {
                self.f.push('\\');
                self.f.push('"');
            } else if 0x20 <= ch && ch <= 0x7e {
                self.f.push(ch as char);
            } else {
                self.f.push('\\');
                push_fixed_width(self.f, ch as u64, 8, 3);
            }
            assert(self.text() =~= old(self).text() + (seq!['"'] + escape(bytes@.take(i + 1))));
            i += 1;
        }
        assert(bytes@.take(i as int) =~= bytes@);
        self.f.push('"');
        assert(self.text() =~= old(self).text() + quoted(bytes@));
    }

    /// Appends the key of a map entry.
    pub fn fmt_map_key(&mut self, value: &MapKey)
        ensures
            final(self).wrote(old(self), render_map_key(value)),
            *final(final(self).f) == *final(old(self).f),
    {
        match value {
            MapKey::Bool(b) => self.fmt_bool(*b),
            MapKey::I32(n) => push_signed_decimal(self.f, *n as i64),
            MapKey::I64(n) => push_signed_decimal(self.f, *n),
            MapKey::U32(n) => push_decimal(self.f, *n as u64),
            MapKey::U64(n) => push_decimal(self.f, *n),
            MapKey::String(s) => self.fmt_string(s.as_str().as_bytes()),
        }
    }

    /// Appends `true` or `false`.
    pub fn fmt_bool(&mut self, b: bool)
        ensures
            final(self).wrote(old(self), render_bool(b)),
            *final(final(self).f) == *final(old(self).f),
    {
        if b {
            self.f.append("true");
        } else {
            self.f.append("false");
        }
    }
}


/// What is rendered with the separator between siblings.
#[derive(Clone, Copy)]
pub enum Delimited<'a> {
    /// The present fields of a message.
    Fields(&'a Vec<ValueAndDescriptor>),
    /// The fields of a set of unknown fields.
    Unknown(&'a Vec<(u32, UnknownField)>),
    /// The raw values read under one unknown field number.
    Values(u32, &'a Vec<UnknownField>),
}

impl<'a> Delimited<'a> {
    /// The text of the items, with the separator between them.
    pub open spec fn text(&self, options: FormatOptions, indent: nat) -> Seq<char> {
        match self {
            Delimited::Fields(fields) => render_fields(fields@, options, indent),
            Delimited::Unknown(fields) => render_unknown_fields(
                fields_model(fields@),
                options.pretty,
                indent,
            ),
            Delimited::Values(number, values) => render_unknown_fields(
                numbered(*number, values@),
                options.pretty,
                indent,
            ),
        }
    }

    /// The size of the items.
    pub open spec fn weight(&self) -> nat {
        match self {
            Delimited::Fields(fields) => presents_weight(fields@),
            Delimited::Unknown(fields) => fields_weight(fields_model(fields@)),
            Delimited::Values(number, values) => fields_weight(numbered(*number, values@)),
        }
    }

    /// The number of items.
    pub open spec fn len(&self) -> nat {
        match self {
            Delimited::Fields(fields) => fields@.len(),
            Delimited::Unknown(fields) => fields@.len(),
            Delimited::Values(_, values) => values@.len(),
        }
    }
}

/// What is rendered as a bracketed list.
#[derive(Clone, Copy)]
pub enum Bracketed<'a> {
    /// The elements of a list, with their static kind.
    Values(&'a Vec<Value>, Option<&'a Kind>),
    /// The entries of a map, with the static kind of their values.
    Entries(&'a Vec<(MapKey, Value)>, Option<&'a Kind>),
}

impl<'a> Bracketed<'a> {
    /// The text of the items, with the list separator between them.
    pub open spec fn text(&self, options: FormatOptions, indent: nat) -> Seq<char> {
        match self {
            Bracketed::Values(values, kind) => render_values(values@, *kind, options, indent),
            Bracketed::Entries(entries, kind) => render_entries(entries@, *kind, options, indent),
        }
    }

    /// The size of the items.
    pub open spec fn weight(&self) -> nat {
        match self {
            Bracketed::Values(values, _) => values_weight(values@),
            Bracketed::Entries(entries, _) => entries_weight(entries@),
        }
    }

    /// The number of items.
    pub open spec fn len(&self) -> nat {
        match self {
            Bracketed::Values(values, _) => values@.len(),
            Bracketed::Entries(entries, _) => entries@.len(),
        }
    }
}

/// Whether every field is left out of the text, as [`all_hidden`] states it.
pub fn nothing_to_show(fields: &Vec<ValueAndDescriptor>, options: FormatOptions) -> (r: bool)
    ensures
        r == all_hidden(fields@, options),
{
    let mut i: usize = 0;
    while i < fields.len()
        invariant
            i <= fields@.len(),
            forall|j: int| 0 <= j < i ==> is_hidden(&#[trigger] fields@[j], options),
        decreases fields@.len() - i,
    {
        let hidden = options.skip_unknown_fields && matches!(fields[i], ValueAndDescriptor::Unknown(..));
        if !hidden {
            assert(!is_hidden(&fields@[i as int], options));
            return false;
        }
        i += 1;
    }
    true
}

/// The little-endian value of four bytes.
pub fn le_u32(bytes: &[u8; 4]) -> (r: u64)
    ensures
        r == le_value(bytes@),
        r <= u32::MAX,
{
    proof {
        reveal_with_fuel(le_value, 5);
        let s = bytes@;
        assert(s.skip(1)[0] == s[1]);
        assert(s.skip(1).skip(1) =~= s.skip(2));
        assert(s.skip(2).skip(1) =~= s.skip(3));
        assert(s.skip(3).skip(1) =~= s.skip(4));
    }
    bytes[0] as u64 + 256 * (bytes[1] as u64 + 256 * (bytes[2] as u64 + 256 * (bytes[3] as u64)))
}

/// The little-endian value of eight bytes.
pub fn le_u64(bytes: &[u8; 8]) -> (r: u64)
    ensures
        r == le_value(bytes@),
{
    proof {
        reveal_with_fuel(le_value, 9);
        let s = bytes@;
        assert(s.skip(1).skip(1) =~= s.skip(2));
        assert(s.skip(2).skip(1) =~= s.skip(3));
        assert(s.skip(3).skip(1) =~= s.skip(4));
        assert(s.skip(4).skip(1) =~= s.skip(5));
        assert(s.skip(5).skip(1) =~= s.skip(6));
        assert(s.skip(6).skip(1) =~= s.skip(7));
        assert(s.skip(7).skip(1) =~= s.skip(8));
    }
    let high: u64 = bytes[4] as u64 + 256 * (bytes[5] as u64 + 256 * (bytes[6] as u64 + 256 * (
    bytes[7] as u64)));
    let low: u64 = bytes[0] as u64 + 256 * (bytes[1] as u64 + 256 * (bytes[2] as u64 + 256 * (
    bytes[3] as u64)));
    low + 4294967296 * high
}

impl<'a> Writer<'a> {
    /// Opens a braced block: a brace and, in pretty mode, a new line that is
    /// indented two spaces deeper.
    pub fn fmt_open(&mut self)
        requires
            old(self).wf(),
        ensures
            final(self).options == old(self).options,
            final(self).indent_level == inner(
                old(self).options.pretty,
                old(self).indent_level as nat,
            ),
            final(self).text() =~= old(self).text() + seq!['{'] + (if old(self).options.pretty {
                newline(old(self).indent_level as nat + 2)
            } else {
                Seq::empty()
            }),
            final(self).wf(),
            *final(final(self).f) == *final(old(self).f),
    {
        self.f.push('{');
        if self.options.pretty {
            // Behind the brace the sink is longer than a non-zero
            // indentation by two at least, and its length is a `usize`: the
            // counter has room for two more.
            let written = self.f.len();
            proof {
                lemma_encoding_length(self.text());
                assert(self.indent_level == 0 || self.indent_level + 2 <= written);
            }
            self.indent_level = self.indent_level + 2;
            self.fmt_newline();
        }
    }

    /// Closes a braced block: in pretty mode a new line at the indentation
    /// of the block, then the brace.
    pub fn fmt_close(&mut self)
        requires
            old(self).options.pretty ==> old(self).indent_level >= 2,
        ensures
            final(self).options == old(self).options,
            inner(final(self).options.pretty, final(self).indent_level as nat) == old(
                self,
            ).indent_level,
            final(self).text() =~= old(self).text() + (if old(self).options.pretty {
                newline((old(self).indent_level - 2) as nat)
            } else {
                Seq::empty()
            }) + seq!['}'],
            *final(final(self).f) == *final(old(self).f),
    {
        if self.options.pretty {
            self.indent_level = self.indent_level - 2;
            self.fmt_newline();
        }
        self.f.push('}');
    }

    /// Appends what stands between two sibling fields.
    pub fn fmt_separator(&mut self)
        ensures
            final(self).wrote(
                old(self),
                separator(old(self).options.pretty, old(self).indent_level as nat),
            ),
            *final(final(self).f) == *final(old(self).f),
    {
        if self.options.pretty {
            self.fmt_newline();
        } else {
            self.f.push(',');
        }
    }

    /// Appends the content of a message.
    #[verifier::rlimit(50)]
    pub fn fmt_message(&mut self, message: &DynamicMessage)
        requires
            old(self).wf(),
        ensures
            final(self).wrote(
                old(self),
                render_message(message, old(self).options, old(self).indent_level as nat),
            ),
            *final(final(self).f) == *final(old(self).f),
        decreases message_weight(message), 0nat, 4nat,
    {
        if self.options.expand_any {
            if let Some((type_url, body)) = as_any(message) {
                self.f.push('[');
                self.f.append(type_url.as_str());
                self.f.push(']');
                self.fmt_padding();
                self.fmt_message_value(body);
                return ;
            }
        }
        self.fmt_delimited(Delimited::Fields(&message.fields));
    }

    /// Appends a message as a value: `{}` or its content in a braced block.
    pub fn fmt_message_value(&mut self, message: &DynamicMessage)
        requires
            old(self).wf(),
        ensures
            final(self).wrote(
                old(self),
                render_message_value(message, old(self).options, old(self).indent_level as nat),
            ),
            *final(final(self).f) == *final(old(self).f),
        decreases message_weight(message), 0nat, 5nat,
    {
        if nothing_to_show(&message.fields, self.options) {
            self.f.append("{}");
        } else {
            self.fmt_open();
            self.fmt_message(message);
            self.fmt_close();
        }
    }

    /// Appends a value under the static kind `kind`, which may be absent.
    #[verifier::rlimit(50)]
    pub fn fmt_value(&mut self, value: &Value, kind: Option<&Kind>)
        requires
            old(self).wf(),
        ensures
            final(self).wrote(
                old(self),
                render_value(value, kind, old(self).options, old(self).indent_level as nat),
            ),
            *final(final(self).f) == *final(old(self).f),
        decreases value_weight(value), 0nat, 0nat,
    {
        match value {
            Value::Bool(b) => self.fmt_bool(*b),
            Value::I32(n) => push_signed_decimal(self.f, *n as i64),
            Value::I64(n) => push_signed_decimal(self.f, *n),
            Value::U32(n) => push_decimal(self.f, *n as u64),
            Value::U64(n) => push_decimal(self.f, *n),
            Value::F32(text) => self.f.append(text.as_str()),
            Value::F64(text) => self.f.append(text.as_str()),
            Value::String(s) => self.fmt_string(s.as_str().as_bytes()),
            Value::Bytes(bytes) => self.fmt_string(bytes.as_slice()),
            Value::EnumNumber(n) => {
                if let Some(Kind::Enum(desc)) = kind {
                    if let Some(constant) = desc.get_value(*n) {
                        self.f.append(constant.name.as_str());
                        return ;
                    }
                }
                push_signed_decimal(self.f, *n as i64);
            },
            Value::Message(message) => self.fmt_message_value(message),
            Value::List(list) => self.fmt_list(Bracketed::Values(list, kind)),
            Value::Mapping(entries) => {
                let value_kind = map_entry_value_kind(kind);
                self.fmt_list(Bracketed::Entries(entries, value_kind));
            },
        }
    }

    /// Appends one entry of a map.
    #[verifier::rlimit(50)]
    pub fn fmt_map_entry(&mut self, key: &MapKey, value: &Value, kind: Option<&Kind>)
        requires
            old(self).wf(),
        ensures
            final(self).wrote(
                old(self),
                render_entry(key, value, kind, old(self).options, old(self).indent_level as nat),
            ),
            *final(final(self).f) == *final(old(self).f),
        decreases value_weight(value), 0nat, 2nat,
    {
        if self.options.pretty {
            self.fmt_open();
            self.f.append("key: ");
            self.fmt_map_key(key);
            self.fmt_newline();
            self.f.append("value");
            self.fmt_field_value(value, kind);
            self.fmt_close();
        } else {
            self.f.append("{key:");
            self.fmt_map_key(key);
            self.f.append(",value");
            self.fmt_field_value(value, kind);
            self.f.push('}');
        }
    }

    /// Appends one present field of a message.
    #[verifier::rlimit(50)]
    pub fn fmt_message_field(&mut self, field: &ValueAndDescriptor)
        requires
            old(self).wf(),
        ensures
            final(self).wrote(
                old(self),
                render_field(field, old(self).options, old(self).indent_level as nat),
            ),
            *final(final(self).f) == *final(old(self).f),
        decreases present_weight(field), 0nat, 2nat,
    {
        match field {
            ValueAndDescriptor::Field(value, desc) => {
                match &desc.kind {
                    Kind::Message(message) if desc.is_group => self.f.append(
                        message.name.as_str(),
                    ),
                    _ => self.f.append(desc.name.as_str()),
                }
                self.fmt_field_value(value, Some(&desc.kind));
            },
            ValueAndDescriptor::Extension(value, desc) => {
                self.f.push('[');
                match &desc.kind {
                    Kind::Message(message) if desc.is_group => self.f.append(
                        message.full_name.as_str(),
                    ),
                    _ => self.f.append(desc.full_name.as_str()),
                }
                self.f.push(']');
                self.fmt_field_value(value, Some(&desc.kind));
            },
            ValueAndDescriptor::Unknown(number, values) => self.fmt_delimited(
                Delimited::Values(*number, values),
            ),
        }
    }

    /// Appends a value behind the token of its field.
    pub fn fmt_field_value(&mut self, value: &Value, kind: Option<&Kind>)
        requires
            old(self).wf(),
        ensures
            final(self).wrote(
                old(self),
                render_field_value(value, kind, old(self).options, old(self).indent_level as nat),
            ),
            *final(final(self).f) == *final(old(self).f),
        decreases value_weight(value), 0nat, 1nat,
    {
        if !matches!(value, Value::Message(_)) {
            self.f.push(':');
        }
        self.fmt_padding();
        self.fmt_value(value, kind);
    }

    /// Appends `0x` and the `width` lowest hexadecimal digits of `value`.
    pub fn fmt_hex(&mut self, value: u64, width: u8)
        ensures
            final(self).wrote(old(self), hex(value as nat, width as nat)),
            *final(final(self).f) == *final(old(self).f),
    {
        self.f.push('0');
        self.f.push('x');
        push_fixed_width(self.f, value, 16, width);
    }

    /// Appends one unknown field: its number, then its value.
    pub fn fmt_unknown_field(&mut self, number: u32, value: &UnknownField)
        requires
            old(self).wf(),
        ensures
            final(self).wrote(
                old(self),
                render_unknown_field(
                    number,
                    value@,
                    old(self).options.pretty,
                    old(self).indent_level as nat,
                ),
            ),
            *final(final(self).f) == *final(old(self).f),
        decreases field_weight(value@), 0nat, 2nat,
    {
        push_decimal(self.f, number as u64);
        self.fmt_unknown_value(value);
    }

    /// Appends the value of an unknown field.
    #[verifier::rlimit(50)]
    pub fn fmt_unknown_value(&mut self, value: &UnknownField)
        requires
            old(self).wf(),
        ensures
            final(self).wrote(
                old(self),
                render_unknown_value(
                    value@,
                    old(self).options.pretty,
                    old(self).indent_level as nat,
                ),
            ),
            *final(final(self).f) == *final(old(self).f),
        decreases field_weight(value@), 0nat, 1nat,
    {
        match value {
            UnknownField::Varint(n) => {
                self.f.push(':');
                self.fmt_padding();
                push_decimal(self.f, *n);
            },
            UnknownField::ThirtyTwoBit(bytes) => {
                self.f.push(':');
                self.fmt_padding();
                self.fmt_hex(le_u32(bytes), 8);
            },
            UnknownField::SixtyFourBit(bytes) => {
                self.f.push(':');
                self.fmt_padding();
                self.fmt_hex(le_u64(bytes), 16);
            },
            UnknownField::LengthDelimited(bytes) => self.fmt_length_delimited(bytes),
            UnknownField::Group(set) => {
                self.fmt_padding();
                self.fmt_unknown_field_set(set);
            },
        }
    }

    /// Appends a length-delimited value: as a set of fields where its bytes
    /// are not empty and read as one, and else as a quoted literal.
    pub fn fmt_length_delimited(&mut self, bytes: &Vec<u8>)
        requires
            old(self).wf(),
        ensures
            final(self).wrote(
                old(self),
                render_unknown_value(
                    FieldModel::LengthDelimited(bytes@),
                    old(self).options.pretty,
                    old(self).indent_level as nat,
                ),
            ),
            *final(final(self).f) == *final(old(self).f),
        decreases 1 + bytes@.len(), 0nat, 0nat,
    {
        if bytes.len() > 0 {
            if let Ok(set) = UnknownFieldSet::decode(bytes.as_slice()) {
                proof {
                    lemma_parse_fields_weight(bytes@);
                }
                self.fmt_padding();
                self.fmt_unknown_field_set(&set);
                return ;
            }
        }
        self.f.push(':');
        self.fmt_padding();
        self.fmt_string(bytes.as_slice());
    }

    /// Appends a set of unknown fields as a value: `{}` or the fields in a
    /// braced block.
    pub fn fmt_unknown_field_set(&mut self, set: &UnknownFieldSet)
        requires
            old(self).wf(),
        ensures
            final(self).wrote(
                old(self),
                render_unknown_set(set@, old(self).options.pretty, old(self).indent_level as nat),
            ),
            *final(final(self).f) == *final(old(self).f),
        decreases fields_weight(set@), set@.len() + 1, 4nat,
    {
        if set.is_empty() {
            self.f.append("{}");
        } else {
            self.fmt_open();
            self.fmt_delimited(Delimited::Unknown(&set.fields));
            self.fmt_close();
        }
    }

    /// Appends the items with the separator between them: a new line in
    /// pretty mode, a comma in compact mode. Hidden fields are passed over.
    #[verifier::rlimit(50)]
    pub fn fmt_delimited(&mut self, items: Delimited<'_>)
        requires
            old(self).wf(),
        ensures
            final(self).wrote(
                old(self),
                items.text(old(self).options, old(self).indent_level as nat),
            ),
            *final(final(self).f) == *final(old(self).f),
        decreases items.weight(), items.len(), 3nat,
    {
        let ghost options = self.options;
        let ghost indent = self.indent_level as nat;
        match items {
            Delimited::Fields(fields) => {
                let mut first = true;
                let mut i: usize = 0;
                while i < fields.len()
                    invariant
                        i <= fields@.len(),
                        old(self).wf(),
                        options == old(self).options,
                        indent == old(self).indent_level,
                        items == Delimited::Fields(fields),
                        first == all_hidden(fields@.take(i as int), options),
                        self.wrote(old(self), render_fields(fields@.take(i as int), options, indent)),
                        *final(self.f) == *final(old(self).f),
                    decreases fields@.len() - i,
                {
                    let field = &fields[i];
                    proof {
                        lemma_present_weight_within(fields@, i as int);
                        lemma_all_hidden_step(fields@, options, i as int);
                        if first {
                            lemma_hidden_fields_are_empty(fields@.take(i as int), options, indent);
                        }
                        assert(fields@.take(i + 1).drop_last() =~= fields@.take(i as int));
                        assert(fields@.take(i + 1).last() == fields@[i as int]);
                    }
                    let hidden = self.options.skip_unknown_fields && matches!(
                        field,
                        ValueAndDescriptor::Unknown(..)
                    );
                    if !hidden {
                        if !first {
                            self.fmt_separator();
                        }
                        self.fmt_message_field(field);
                        first = false;
                    }
                    i += 1;
                }
                assert(fields@.take(i as int) =~= fields@);
            },
            Delimited::Unknown(fields) => {
                let mut i: usize = 0;
                while i < fields.len()
                    invariant
                        i <= fields@.len(),
                        old(self).wf(),
                        options == old(self).options,
                        indent == old(self).indent_level,
                        items == Delimited::Unknown(fields),
                        self.wrote(
                            old(self),
                            render_unknown_fields(
                                fields_model(fields@).take(i as int),
                                options.pretty,
                                indent,
                            ),
                        ),
                        *final(self.f) == *final(old(self).f),
                    decreases fields@.len() - i,
                {
                    proof {
                        let all = fields_model(fields@);
                        lemma_field_weight_within(all, i as int);
                        assert(all.take(i + 1).drop_last() =~= all.take(i as int));
                        assert(all.take(i + 1).last() == all[i as int]);
                    }
                    if i > 0 {
                        self.fmt_separator();
                    }
                    self.fmt_unknown_field(fields[i].0, &fields[i].1);
                    i += 1;
                }
                assert(fields_model(fields@).take(i as int) =~= fields_model(fields@));
            },
            Delimited::Values(number, values) => {
                let mut i: usize = 0;
                while i < values.len()
                    invariant
                        i <= values@.len(),
                        old(self).wf(),
                        options == old(self).options,
                        indent == old(self).indent_level,
                        items == Delimited::Values(number, values),
                        self.wrote(
                            old(self),
                            render_unknown_fields(
                                numbered(number, values@).take(i as int),
                                options.pretty,
                                indent,
                            ),
                        ),
                        *final(self.f) == *final(old(self).f),
                    decreases values@.len() - i,
                {
                    proof {
                        let all = numbered(number, values@);
                        lemma_field_weight_within(all, i as int);
                        assert(all.take(i + 1).drop_last() =~= all.take(i as int));
                        assert(all.take(i + 1).last() == all[i as int]);
                    }
                    if i > 0 {
                        self.fmt_separator();
                    }
                    self.fmt_unknown_field(number, &values[i]);
                    i += 1;
                }
                assert(numbered(number, values@).take(i as int) =~= numbered(number, values@));
            },
        }
    }

    /// Appends the items between square brackets, in order, with a comma
    /// between them and in pretty mode a space behind each comma.
    #[verifier::rlimit(50)]
    pub fn fmt_list(&mut self, items: Bracketed<'_>)
        requires
            old(self).wf(),
        ensures
            final(self).wrote(
                old(self),
                seq!['['] + items.text(old(self).options, old(self).indent_level as nat) + seq![
                    ']',
                ],
            ),
            *final(final(self).f) == *final(old(self).f),
        decreases items.weight(), items.len(), 3nat,
    {
        let ghost options = self.options;
        let ghost indent = self.indent_level as nat;
        self.f.push('[');
        match items {
            Bracketed::Values(values, kind) => {
                let mut i: usize = 0;
                while i < values.len()
                    invariant
                        i <= values@.len(),
                        old(self).wf(),
                        options == old(self).options,
                        indent == old(self).indent_level,
                        items == Bracketed::Values(values, kind),
                        self.wrote(
                            old(self),
                            seq!['['] + render_values(values@.take(i as int), kind, options, indent),
                        ),
                        *final(self.f) == *final(old(self).f),
                    decreases values@.len() - i,
                {
                    proof {
                        lemma_value_weight_within(values@, i as int);
                        assert(values@.take(i + 1).drop_last() =~= values@.take(i as int));
                        assert(values@.take(i + 1).last() == values@[i as int]);
                    }
                    if i > 0 {
                        self.f.push(',');
                        self.fmt_padding();
                    }
                    self.fmt_value(&values[i], kind);
                    i += 1;
                }
                assert(values@.take(i as int) =~= values@);
            },
            Bracketed::Entries(entries, kind) => {
                let mut i: usize = 0;
                while i < entries.len()
                    invariant
                        i <= entries@.len(),
                        old(self).wf(),
                        options == old(self).options,
                        indent == old(self).indent_level,
                        items == Bracketed::Entries(entries, kind),
                        self.wrote(
                            old(self),
                            seq!['['] + render_entries(
                                entries@.take(i as int),
                                kind,
                                options,
                                indent,
                            ),
                        ),
                        *final(self.f) == *final(old(self).f),
                    decreases entries@.len() - i,
                {
                    proof {
                        lemma_entry_weight_within(entries@, i as int);
                        assert(entries@.take(i + 1).drop_last() =~= entries@.take(i as int));
                        assert(entries@.take(i + 1).last() == entries@[i as int]);
                    }
                    if i > 0 {
                        self.f.push(',');
                        self.fmt_padding();
                    }
                    self.fmt_map_entry(&entries[i].0, &entries[i].1, kind);
                    i += 1;
                }
                assert(entries@.take(i as int) =~= entries@);
            },
        }
        self.f.push(']');
    }
}

} // verus!
