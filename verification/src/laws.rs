//! What holds of every rendering.
use vstd::prelude::*;
use crate::any::any_expansion;
use crate::descriptor::Kind;
use crate::options::FormatOptions;
use crate::render::{
    all_hidden, is_hidden, join, list_separator, padding, render_entries, render_entry,
    render_field, render_field_value, render_fields, render_message, render_message_value,
    render_unknown_field, render_unknown_fields, render_value, render_values, separator,
};
use crate::unknown::FieldModel;
use crate::value::{DynamicMessage, MapKey, Value, ValueAndDescriptor};

verus! {

/// A message without fields renders as `{}` wherever it stands as a value,
/// and so does one that holds unknown fields only where those are skipped.
pub proof fn lemma_empty_message_is_braces(
    message: DynamicMessage,
    kind: Option<&Kind>,
    options: FormatOptions,
    indent: nat,
)
    requires
        message.fields@.len() == 0 || (options.skip_unknown_fields && forall|i: int|
            0 <= i < message.fields@.len() ==> #[trigger] message.fields@[i] is Unknown),
    ensures
        render_message_value(&message, options, indent) == "{}"@,
        render_value(&Value::Message(message), kind, options, indent) == "{}"@,
{
    assert(all_hidden(message.fields@, options));
}

/// The texts of the elements of a list.
pub open spec fn element_texts(
    values: Seq<Value>,
    kind: Option<&Kind>,
    options: FormatOptions,
    indent: nat,
) -> Seq<Seq<char>> {
    Seq::new(values.len(), |i: int| render_value(&values[i], kind, options, indent))
}

/// The elements of a list are rendered in the order of the list: the text
/// between the brackets is the text of the first element, the separator, the
/// text of the second, and so on to the last.
pub proof fn lemma_list_keeps_order(
    values: Seq<Value>,
    kind: Option<&Kind>,
    options: FormatOptions,
    indent: nat,
)
    ensures
        render_values(values, kind, options, indent) == join(
            element_texts(values, kind, options, indent),
            list_separator(options.pretty),
        ),
    decreases values.len(),
{
    let parts = element_texts(values, kind, options, indent);
    if values.len() > 0 {
        lemma_list_keeps_order(values.drop_last(), kind, options, indent);
        assert(parts.drop_last() =~= element_texts(values.drop_last(), kind, options, indent));
        assert(parts.last() == render_value(&values.last(), kind, options, indent));
    }
}

/// A list value is its elements in order, between square brackets.
pub proof fn lemma_list_value_keeps_order(
    list: Vec<Value>,
    kind: Option<&Kind>,
    options: FormatOptions,
    indent: nat,
)
    ensures
        render_value(&Value::List(list), kind, options, indent) == seq!['['] + join(
            element_texts(list@, kind, options, indent),
            list_separator(options.pretty),
        ) + seq![']'],
{
    lemma_list_keeps_order(list@, kind, options, indent);
}

/// The texts of the entries of a map.
pub open spec fn entry_texts(
    entries: Seq<(MapKey, Value)>,
    kind: Option<&Kind>,
    options: FormatOptions,
    indent: nat,
) -> Seq<Seq<char>> {
    Seq::new(
        entries.len(),
        |i: int| render_entry(&entries[i].0, &entries[i].1, kind, options, indent),
    )
}

/// The entries of a map are rendered in the order in which the map holds
/// them.
pub proof fn lemma_entries_keep_order(
    entries: Seq<(MapKey, Value)>,
    kind: Option<&Kind>,
    options: FormatOptions,
    indent: nat,
)
    ensures
        render_entries(entries, kind, options, indent) == join(
            entry_texts(entries, kind, options, indent),
            list_separator(options.pretty),
        ),
    decreases entries.len(),
{
    let parts = entry_texts(entries, kind, options, indent);
    if entries.len() > 0 {
        lemma_entries_keep_order(entries.drop_last(), kind, options, indent);
        assert(parts.drop_last() =~= entry_texts(entries.drop_last(), kind, options, indent));
        assert(parts.last() == render_entry(
            &entries.last().0,
            &entries.last().1,
            kind,
            options,
            indent,
        ));
    }
}

/// The texts of unknown fields.
pub open spec fn unknown_texts(fields: Seq<(u32, FieldModel)>, pretty: bool, indent: nat) -> Seq<
    Seq<char>,
> {
    Seq::new(
        fields.len(),
        |i: int| render_unknown_field(fields[i].0, fields[i].1, pretty, indent),
    )
}

/// Unknown fields are rendered in the order in which they were read, every
/// one of them.
pub proof fn lemma_unknown_fields_keep_order(
    fields: Seq<(u32, FieldModel)>,
    pretty: bool,
    indent: nat,
)
    ensures
        render_unknown_fields(fields, pretty, indent) == join(
            unknown_texts(fields, pretty, indent),
            separator(pretty, indent),
        ),
    decreases fields.len(),
{
    let parts = unknown_texts(fields, pretty, indent);
    if fields.len() > 0 {
        lemma_unknown_fields_keep_order(fields.drop_last(), pretty, indent);
        assert(parts.drop_last() =~= unknown_texts(fields.drop_last(), pretty, indent));
        assert(parts.last() == render_unknown_field(
            fields.last().0,
            fields.last().1,
            pretty,
            indent,
        ));
    }
}

/// The fields of a message that are rendered under `options`, in order.
pub open spec fn shown(fields: Seq<ValueAndDescriptor>, options: FormatOptions) -> Seq<
    ValueAndDescriptor,
> {
    fields.filter(|field: ValueAndDescriptor| !is_hidden(&field, options))
}

/// The texts of fields.
pub open spec fn field_texts(
    fields: Seq<ValueAndDescriptor>,
    options: FormatOptions,
    indent: nat,
) -> Seq<Seq<char>> {
    Seq::new(fields.len(), |i: int| render_field(&fields[i], options, indent))
}

/// The fields of a message are rendered in the order in which the message
/// holds them, without those that are hidden.
pub proof fn lemma_fields_keep_order(
    fields: Seq<ValueAndDescriptor>,
    options: FormatOptions,
    indent: nat,
)
    ensures
        render_fields(fields, options, indent) == join(
            field_texts(shown(fields, options), options, indent),
            separator(options.pretty, indent),
        ),
        all_hidden(fields, options) <==> shown(fields, options).len() == 0,
    decreases fields.len(),
{
    reveal(Seq::filter);
    let rest = fields.drop_last();
    if fields.len() > 0 {
        lemma_fields_keep_order(rest, options, indent);
        let visible = shown(fields, options);
        let parts = field_texts(visible, options, indent);
        if is_hidden(&fields.last(), options) {
            assert(visible == shown(rest, options));
        } else {
            assert(visible == shown(rest, options).push(fields.last()));
            assert(parts.drop_last() =~= field_texts(shown(rest, options), options, indent));
            assert(parts.last() == render_field(&fields.last(), options, indent));
            assert(!is_hidden(&fields[fields.len() - 1], options));
        }
        if all_hidden(rest, options) && is_hidden(&fields.last(), options) {
            assert forall|i: int| 0 <= i < fields.len() implies is_hidden(
                &#[trigger] fields[i],
                options,
            ) by {
                if i < fields.len() - 1 {
                    assert(rest[i] == fields[i]);
                }
            }
        }
        if all_hidden(fields, options) {
            assert(is_hidden(&fields[fields.len() - 1], options));
            assert forall|i: int| 0 <= i < rest.len() implies is_hidden(
                &#[trigger] rest[i],
                options,
            ) by {
                assert(rest[i] == fields[i]);
            }
        }
    }
}

/// A `google.protobuf.Any` wrapper is either expanded or rendered as it is,
/// with nothing in between. Where the options ask for it and the wrapper
/// can be expanded, its content is the type URL in square brackets and the
/// embedded message as a field value. In every other case, as for a wrapper
/// whose type is not known and which embeds nothing, its content is its own
/// fields.
pub proof fn lemma_any_is_expanded_or_raw(
    message: DynamicMessage,
    options: FormatOptions,
    indent: nat,
)
    ensures
        match any_expansion(&message) {
            Some((url, body)) if options.expand_any => render_message(&message, options, indent)
                == seq!['['] + url + seq![']'] + render_field_value(
                &Value::Message(body),
                None,
                options,
                indent,
            ),
            _ => render_message(&message, options, indent) == render_fields(
                message.fields@,
                options,
                indent,
            ),
        },
        message.embedded is None ==> any_expansion(&message) is None,
        message.desc.full_name@ != "google.protobuf.Any"@ ==> any_expansion(&message) is None,
{
    match any_expansion(&message) {
        Some((url, body)) => {
            if options.expand_any {
                let value = Value::Message(body);
                assert(render_field_value(&value, None, options, indent) =~= padding(
                    options.pretty,
                ) + render_message_value(&body, options, indent));
                assert(render_message(&message, options, indent) =~= seq!['['] + url + seq![']']
                    + render_field_value(&value, None, options, indent));
            }
        },
        None => {},
    }
}

} // verus!
