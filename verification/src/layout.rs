//! Pretty and compact text differ in layout only.
//!
//! Layout is made of spaces, line breaks and commas. With these three
//! characters taken out, every rendering of a value is the same text,
//! whatever the mode and the indentation: the two modes show the same tokens
//! in the same order.
use vstd::prelude::*;
use crate::any::any_expansion;
use crate::descriptor::{map_value_kind, Kind};
use crate::options::FormatOptions;
use crate::render::{
    all_hidden, braced, inner, is_hidden, list_separator, newline, padding, render_entries,
    render_entry, render_field, render_field_value, render_fields, render_map_key,
    render_message, render_message_value, render_unknown_field, render_unknown_fields,
    render_unknown_set, render_unknown_value, render_value, render_values, separator, spaces,
};
use crate::unknown::{
    field_weight, fields_weight, lemma_parse_fields_weight, parse_set, FieldModel,
};
use crate::value::{
    entries_weight, message_weight, numbered, present_weight, presents_weight, value_weight,
    values_weight, DynamicMessage, MapKey, Value, ValueAndDescriptor,
};

verus! {

/// Whether a character is one that layout is made of.
pub open spec fn is_layout(c: char) -> bool {
    c == ' ' || c == '\n' || c == ','
}

/// The test for the characters that are no layout.
pub open spec fn no_layout() -> spec_fn(char) -> bool {
    |c: char| !is_layout(c)
}

/// The text without its spaces, line breaks and commas.
pub open spec fn without_layout(text: Seq<char>) -> Seq<char> {
    text.filter(no_layout())
}

/// Two sets of options that differ in layout at most: they skip the same
/// fields and expand the same wrappers.
pub open spec fn same_content(a: FormatOptions, b: FormatOptions) -> bool {
    a.skip_unknown_fields == b.skip_unknown_fields && a.expand_any == b.expand_any
}

/// Taking the layout out of two texts in a row takes it out of each.
pub broadcast proof fn lemma_without_layout_concat(a: Seq<char>, b: Seq<char>)
    ensures
        #[trigger] without_layout(a + b) == without_layout(a) + without_layout(b),
{
    Seq::filter_distributes_over_add(a, b, no_layout());
}

/// Taking the layout out of a text with one more character.
pub proof fn lemma_without_layout_push(s: Seq<char>, c: char)
    ensures
        without_layout(s.push(c)) == if is_layout(c) {
            without_layout(s)
        } else {
            without_layout(s).push(c)
        },
{
    reveal(Seq::filter);
    assert(s.push(c).drop_last() =~= s);
}

/// Taking the layout out of one character.
pub broadcast proof fn lemma_without_layout_one(c: char)
    ensures
        #[trigger] without_layout(seq![c]) == if is_layout(c) {
            Seq::<char>::empty()
        } else {
            seq![c]
        },
{
    reveal(Seq::filter);
    let none = Seq::<char>::empty();
    assert(seq![c] =~= none.push(c));
    lemma_without_layout_push(none, c);
    assert(without_layout(none) =~= none);
    assert(none.push(c) =~= seq![c]);
}

/// Spaces are layout.
pub broadcast proof fn lemma_spaces_are_layout(n: nat)
    ensures
        #[trigger] without_layout(spaces(n)) == Seq::<char>::empty(),
    decreases n,
{
    reveal(Seq::filter);
    if n == 0 {
        assert(spaces(n) =~= Seq::<char>::empty());
    } else {
        lemma_spaces_are_layout((n - 1) as nat);
        assert(spaces(n) =~= spaces((n - 1) as nat).push(' '));
        lemma_without_layout_push(spaces((n - 1) as nat), ' ');
    }
}

/// A line break with its indentation is layout.
pub broadcast proof fn lemma_newline_is_layout(n: nat)
    ensures
        #[trigger] without_layout(newline(n)) == Seq::<char>::empty(),
{
    lemma_without_layout_concat(seq!['\n'], spaces(n));
    lemma_without_layout_one('\n');
    lemma_spaces_are_layout(n);
    assert(Seq::<char>::empty() + Seq::<char>::empty() =~= Seq::<char>::empty());
}

/// The space before a value is layout.
pub broadcast proof fn lemma_padding_is_layout(pretty: bool)
    ensures
        #[trigger] without_layout(padding(pretty)) == Seq::<char>::empty(),
{
    reveal(Seq::filter);
    lemma_without_layout_one(' ');
}

/// What stands between two fields is layout.
pub broadcast proof fn lemma_separator_is_layout(pretty: bool, indent: nat)
    ensures
        #[trigger] without_layout(separator(pretty, indent)) == Seq::<char>::empty(),
{
    lemma_newline_is_layout(indent);
    lemma_without_layout_one(',');
}

/// What stands between two elements of a list is layout.
pub broadcast proof fn lemma_list_separator_is_layout(pretty: bool)
    ensures
        #[trigger] without_layout(list_separator(pretty)) == Seq::<char>::empty(),
{
    lemma_without_layout_concat(seq![','], padding(pretty));
    lemma_without_layout_one(',');
    lemma_padding_is_layout(pretty);
    assert(Seq::<char>::empty() + Seq::<char>::empty() =~= Seq::<char>::empty());
}

/// Without its layout, a braced block is its body between braces.
pub broadcast proof fn lemma_braced_without_layout(body: Seq<char>, pretty: bool, indent: nat)
    ensures
        #[trigger] without_layout(braced(body, pretty, indent)) == seq!['{'] + without_layout(body)
            + seq!['}'],
{
    lemma_without_layout_one('{');
    lemma_without_layout_one('}');
    lemma_newline_is_layout(indent + 2);
    lemma_newline_is_layout(indent);
    let open = seq!['{'];
    let close = seq!['}'];
    if pretty {
        lemma_without_layout_concat(open, newline(indent + 2));
        lemma_without_layout_concat(open + newline(indent + 2), body);
        lemma_without_layout_concat(open + newline(indent + 2) + body, newline(indent));
        lemma_without_layout_concat(
            open + newline(indent + 2) + body + newline(indent),
            close,
        );
        assert(without_layout(braced(body, pretty, indent)) =~= open + without_layout(body)
            + close);
    } else {
        lemma_without_layout_concat(open, body);
        lemma_without_layout_concat(open + body, close);
    }
}

pub broadcast group group_layout {
    lemma_without_layout_concat,
    lemma_without_layout_one,
    lemma_newline_is_layout,
    lemma_padding_is_layout,
    lemma_separator_is_layout,
    lemma_list_separator_is_layout,
    lemma_braced_without_layout,
}

/// The words that open a map entry and name its value are the same in both
/// modes but for their layout.
pub proof fn lemma_entry_words()
    ensures
        seq!['{'] + without_layout("key: "@) == without_layout("{key:"@),
        without_layout("value"@) == without_layout(",value"@),
{
    reveal_strlit("key: ");
    reveal_strlit("{key:");
    reveal_strlit("value");
    reveal_strlit(",value");
    let none = Seq::<char>::empty();
    assert(without_layout(none) =~= none) by {
        reveal(Seq::filter);
    }
    let k1 = none.push('k');
    let k2 = k1.push('e');
    let k3 = k2.push('y');
    let k4 = k3.push(':');
    let k5 = k4.push(' ');
    lemma_without_layout_push(none, 'k');
    lemma_without_layout_push(k1, 'e');
    lemma_without_layout_push(k2, 'y');
    lemma_without_layout_push(k3, ':');
    lemma_without_layout_push(k4, ' ');
    assert("key: "@ =~= k5);
    let b0 = none.push('{');
    let b1 = b0.push('k');
    let b2 = b1.push('e');
    let b3 = b2.push('y');
    let b4 = b3.push(':');
    lemma_without_layout_push(none, '{');
    lemma_without_layout_push(b0, 'k');
    lemma_without_layout_push(b1, 'e');
    lemma_without_layout_push(b2, 'y');
    lemma_without_layout_push(b3, ':');
    assert("{key:"@ =~= b4);
    assert(seq!['{'] + without_layout(k5) =~= without_layout(b4));
    lemma_without_layout_concat(seq![','], "value"@);
    lemma_without_layout_one(',');
    assert(",value"@ =~= seq![','] + "value"@);
    assert(Seq::<char>::empty() + without_layout("value"@) =~= without_layout("value"@));
}

/// The value of an unknown field is the same in both modes but for its
/// layout.
pub proof fn lemma_unknown_value_layout(field: FieldModel, p: bool, i: nat, q: bool, j: nat)
    ensures
        without_layout(render_unknown_value(field, p, i)) == without_layout(
            render_unknown_value(field, q, j),
        ),
    decreases field_weight(field), 0nat, 0nat,
{
    broadcast use group_layout;

    match field {
        FieldModel::LengthDelimited(bytes) => {
            match parse_set(bytes) {
                Ok(fields) => {
                    if bytes.len() > 0 {
                        lemma_parse_fields_weight(bytes);
                        lemma_unknown_set_layout(fields, p, i, q, j);
                    }
                },
                Err(_) => {},
            }
        },
        FieldModel::Group(fields) => {
            lemma_unknown_set_layout(fields, p, i, q, j);
        },
        _ => {},
    }
}

/// An unknown field is the same in both modes but for its layout.
pub proof fn lemma_unknown_field_layout(
    number: u32,
    field: FieldModel,
    p: bool,
    i: nat,
    q: bool,
    j: nat,
)
    ensures
        without_layout(render_unknown_field(number, field, p, i)) == without_layout(
            render_unknown_field(number, field, q, j),
        ),
    decreases field_weight(field), 0nat, 1nat,
{
    broadcast use group_layout;

    lemma_unknown_value_layout(field, p, i, q, j);
}

/// Unknown fields are the same in both modes but for their layout.
pub proof fn lemma_unknown_fields_layout(
    fields: Seq<(u32, FieldModel)>,
    p: bool,
    i: nat,
    q: bool,
    j: nat,
)
    ensures
        without_layout(render_unknown_fields(fields, p, i)) == without_layout(
            render_unknown_fields(fields, q, j),
        ),
    decreases fields_weight(fields), fields.len(), 1nat,
{
    broadcast use group_layout;

    if fields.len() > 0 {
        lemma_unknown_field_layout(fields.last().0, fields.last().1, p, i, q, j);
        if fields.len() > 1 {
            lemma_unknown_fields_layout(fields.drop_last(), p, i, q, j);
        }
    }
}

/// A set of unknown fields is the same in both modes but for its layout.
pub proof fn lemma_unknown_set_layout(
    fields: Seq<(u32, FieldModel)>,
    p: bool,
    i: nat,
    q: bool,
    j: nat,
)
    ensures
        without_layout(render_unknown_set(fields, p, i)) == without_layout(
            render_unknown_set(fields, q, j),
        ),
    decreases fields_weight(fields), fields.len() + 1, 2nat,
{
    broadcast use group_layout;

    if fields.len() > 0 {
        lemma_unknown_fields_layout(fields, p, inner(p, i), q, inner(q, j));
    }
}

/// A value is the same in both modes but for its layout.
pub proof fn lemma_value_layout(
    value: &Value,
    kind: Option<&Kind>,
    a: FormatOptions,
    i: nat,
    b: FormatOptions,
    j: nat,
)
    requires
        same_content(a, b),
    ensures
        without_layout(render_value(value, kind, a, i)) == without_layout(
            render_value(value, kind, b, j),
        ),
    decreases value_weight(value), 0nat, 0nat,
{
    broadcast use group_layout;

    match value {
        Value::Message(message) => {
            lemma_message_value_layout(message, a, i, b, j);
        },
        Value::List(list) => {
            lemma_values_layout(list@, kind, a, i, b, j);
        },
        Value::Mapping(entries) => {
            lemma_entries_layout(entries@, map_value_kind(kind), a, i, b, j);
        },
        _ => {},
    }
}

/// A value behind its field token is the same in both modes but for its
/// layout.
pub proof fn lemma_field_value_layout(
    value: &Value,
    kind: Option<&Kind>,
    a: FormatOptions,
    i: nat,
    b: FormatOptions,
    j: nat,
)
    requires
        same_content(a, b),
    ensures
        without_layout(render_field_value(value, kind, a, i)) == without_layout(
            render_field_value(value, kind, b, j),
        ),
    decreases value_weight(value), 0nat, 1nat,
{
    broadcast use group_layout;

    lemma_value_layout(value, kind, a, i, b, j);
}

/// The elements of a list are the same in both modes but for their layout.
pub proof fn lemma_values_layout(
    values: Seq<Value>,
    kind: Option<&Kind>,
    a: FormatOptions,
    i: nat,
    b: FormatOptions,
    j: nat,
)
    requires
        same_content(a, b),
    ensures
        without_layout(render_values(values, kind, a, i)) == without_layout(
            render_values(values, kind, b, j),
        ),
    decreases values_weight(values), values.len(), 2nat,
{
    broadcast use group_layout;

    if values.len() > 0 {
        lemma_value_layout(&values.last(), kind, a, i, b, j);
        if values.len() > 1 {
            lemma_values_layout(values.drop_last(), kind, a, i, b, j);
        }
    }
}

/// An entry of a map is the same in both modes but for its layout.
pub proof fn lemma_entry_layout(
    key: &MapKey,
    value: &Value,
    kind: Option<&Kind>,
    a: FormatOptions,
    i: nat,
    b: FormatOptions,
    j: nat,
)
    requires
        same_content(a, b),
    ensures
        without_layout(render_entry(key, value, kind, a, i)) == without_layout(
            render_entry(key, value, kind, b, j),
        ),
    decreases value_weight(value), 0nat, 2nat,
{
    lemma_entry_words();
    lemma_field_value_layout(value, kind, a, inner(a.pretty, i), b, inner(b.pretty, j));
    lemma_entry_without_layout(key, value, kind, a, i);
    lemma_entry_without_layout(key, value, kind, b, j);
}

/// Without its layout, an entry of a map is its key and its value between
/// the words that name them.
pub proof fn lemma_entry_without_layout(
    key: &MapKey,
    value: &Value,
    kind: Option<&Kind>,
    a: FormatOptions,
    i: nat,
)
    ensures
        without_layout(render_entry(key, value, kind, a, i)) == without_layout("{key:"@)
            + without_layout(render_map_key(key)) + without_layout("value"@) + without_layout(
            render_field_value(value, kind, a, inner(a.pretty, i)),
        ) + seq!['}'],
{
    broadcast use group_layout;

    lemma_entry_words();
    let k = render_map_key(key);
    let v = render_field_value(value, kind, a, inner(a.pretty, i));
    if a.pretty {
        let t1 = seq!['{'] + newline(i + 2);
        let t2 = t1 + "key: "@;
        let t3 = t2 + k;
        let t4 = t3 + newline(i + 2);
        let t5 = t4 + "value"@;
        let t6 = t5 + v;
        let t7 = t6 + newline(i);
        assert(render_entry(key, value, kind, a, i) == t7 + seq!['}']);
        assert(without_layout(t2) =~= without_layout("{key:"@));
        assert(without_layout(t4) =~= without_layout("{key:"@) + without_layout(k));
        assert(without_layout(t7) =~= without_layout("{key:"@) + without_layout(k)
            + without_layout("value"@) + without_layout(v));
    } else {
        let t1 = "{key:"@ + k;
        let t2 = t1 + ",value"@;
        let t3 = t2 + v;
        assert(render_entry(key, value, kind, a, i) == t3 + seq!['}']);
    }
}

/// The entries of a map are the same in both modes but for their layout.
pub proof fn lemma_entries_layout(
    entries: Seq<(MapKey, Value)>,
    kind: Option<&Kind>,
    a: FormatOptions,
    i: nat,
    b: FormatOptions,
    j: nat,
)
    requires
        same_content(a, b),
    ensures
        without_layout(render_entries(entries, kind, a, i)) == without_layout(
            render_entries(entries, kind, b, j),
        ),
    decreases entries_weight(entries), entries.len(), 3nat,
{
    broadcast use group_layout;

    if entries.len() > 0 {
        lemma_entry_layout(&entries.last().0, &entries.last().1, kind, a, i, b, j);
        if entries.len() > 1 {
            lemma_entries_layout(entries.drop_last(), kind, a, i, b, j);
        }
    }
}

/// A field of a message is the same in both modes but for its layout.
pub proof fn lemma_field_layout(
    field: &ValueAndDescriptor,
    a: FormatOptions,
    i: nat,
    b: FormatOptions,
    j: nat,
)
    requires
        same_content(a, b),
    ensures
        without_layout(render_field(field, a, i)) == without_layout(render_field(field, b, j)),
    decreases present_weight(field), 0nat, 2nat,
{
    broadcast use group_layout;

    match field {
        ValueAndDescriptor::Field(value, desc) => {
            lemma_field_value_layout(value, Some(&desc.kind), a, i, b, j);
        },
        ValueAndDescriptor::Extension(value, desc) => {
            lemma_field_value_layout(value, Some(&desc.kind), a, i, b, j);
        },
        ValueAndDescriptor::Unknown(number, values) => {
            lemma_unknown_fields_layout(numbered(*number, values@), a.pretty, i, b.pretty, j);
        },
    }
}

/// The fields of a message are the same in both modes but for their layout.
pub proof fn lemma_fields_layout(
    fields: Seq<ValueAndDescriptor>,
    a: FormatOptions,
    i: nat,
    b: FormatOptions,
    j: nat,
)
    requires
        same_content(a, b),
    ensures
        without_layout(render_fields(fields, a, i)) == without_layout(render_fields(fields, b, j)),
    decreases presents_weight(fields), fields.len(), 3nat,
{
    broadcast use group_layout;

    if fields.len() > 0 {
        assert(all_hidden(fields.drop_last(), a) == all_hidden(fields.drop_last(), b));
        lemma_fields_layout(fields.drop_last(), a, i, b, j);
        if !is_hidden(&fields.last(), a) {
            lemma_field_layout(&fields.last(), a, i, b, j);
        }
    }
}

/// The content of a message is the same in both modes but for its layout.
pub proof fn lemma_message_layout(
    message: &DynamicMessage,
    a: FormatOptions,
    i: nat,
    b: FormatOptions,
    j: nat,
)
    requires
        same_content(a, b),
    ensures
        without_layout(render_message(message, a, i)) == without_layout(
            render_message(message, b, j),
        ),
    decreases message_weight(message), 0nat, 4nat,
{
    broadcast use group_layout;

    match any_expansion(message) {
        Some((url, body)) => {
            if a.expand_any {
                lemma_message_value_layout(&body, a, i, b, j);
            } else {
                lemma_fields_layout(message.fields@, a, i, b, j);
            }
        },
        None => {
            lemma_fields_layout(message.fields@, a, i, b, j);
        },
    }
}

/// A message as a value is the same in both modes but for its layout.
pub proof fn lemma_message_value_layout(
    message: &DynamicMessage,
    a: FormatOptions,
    i: nat,
    b: FormatOptions,
    j: nat,
)
    requires
        same_content(a, b),
    ensures
        without_layout(render_message_value(message, a, i)) == without_layout(
            render_message_value(message, b, j),
        ),
    decreases message_weight(message), 0nat, 5nat,
{
    broadcast use group_layout;

    assert(all_hidden(message.fields@, a) == all_hidden(message.fields@, b));
    if !all_hidden(message.fields@, a) {
        lemma_message_layout(message, a, inner(a.pretty, i), b, inner(b.pretty, j));
    }
}

/// Pretty and compact text differ in layout only: with the spaces, line
/// breaks and commas taken out, the pretty text of a value at any
/// indentation is its compact text. No token changes and none moves.
pub proof fn lemma_pretty_is_compact_but_for_layout(
    value: Value,
    kind: Option<&Kind>,
    options: FormatOptions,
    indent: nat,
)
    ensures
        without_layout(
            render_value(
                &value,
                kind,
                FormatOptions {
                    pretty: true,
                    skip_unknown_fields: options.skip_unknown_fields,
                    expand_any: options.expand_any,
                },
                indent,
            ),
        ) == without_layout(
            render_value(
                &value,
                kind,
                FormatOptions {
                    pretty: false,
                    skip_unknown_fields: options.skip_unknown_fields,
                    expand_any: options.expand_any,
                },
                indent,
            ),
        ),
{
    lemma_value_layout(
        &value,
        kind,
        FormatOptions {
            pretty: true,
            skip_unknown_fields: options.skip_unknown_fields,
            expand_any: options.expand_any,
        },
        indent,
        FormatOptions {
            pretty: false,
            skip_unknown_fields: options.skip_unknown_fields,
            expand_any: options.expand_any,
        },
        indent,
    );
}

} // verus!
