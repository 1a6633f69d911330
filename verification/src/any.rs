//! `google.protobuf.Any` wrappers: which message a wrapper stands for.
use vstd::prelude::*;
use vstd::string::*;
use crate::value::{DynamicMessage, Value, ValueAndDescriptor};

verus! {

/// Whether `s` starts with `prefix`.
pub open spec fn has_prefix(s: Seq<char>, prefix: Seq<char>) -> bool {
    prefix.len() <= s.len() && s.take(prefix.len() as int) == prefix
}

/// What is left of `s` behind `prefix`, where `s` starts with it.
pub open spec fn without_prefix(s: Seq<char>, prefix: Seq<char>) -> Option<Seq<char>> {
    if has_prefix(s, prefix) {
        Some(s.skip(prefix.len() as int))
    } else {
        None
    }
}

/// The name of the message type that a type URL names: what follows one of
/// the two known prefixes.
pub open spec fn type_name_of(url: Seq<char>) -> Option<Seq<char>> {
    match without_prefix(url, "type.googleapis.com/"@) {
        Some(name) => Some(name),
        None => without_prefix(url, "type.googleprod.com/"@),
    }
}

/// Whether a present field is the type URL of a wrapper: the declared field
/// with number one, holding a string.
pub open spec fn is_type_url(field: &ValueAndDescriptor) -> bool {
    field matches ValueAndDescriptor::Field(Value::String(_), desc) && desc.number == 1
}

/// The type URL among the fields at or behind index `from`: the string of the
/// first field that [`is_type_url`].
pub open spec fn type_url_of(fields: Seq<ValueAndDescriptor>, from: int) -> Option<Seq<char>>
    decreases fields.len() - from,
{
    if from < 0 || from >= fields.len() {
        None
    } else {
        match &fields[from] {
            ValueAndDescriptor::Field(Value::String(s), desc) if desc.number == 1 => Some(s@),
            _ => type_url_of(fields, from + 1),
        }
    }
}

/// The type URL and the embedded message of a wrapper that can be expanded:
/// a message of type `google.protobuf.Any` whose type URL has a known prefix
/// and which embeds a message of the type that the URL names.
pub open spec fn any_expansion(message: &DynamicMessage) -> Option<(Seq<char>, DynamicMessage)> {
    if message.desc.full_name@ != "google.protobuf.Any"@ {
        None
    } else {
        match type_url_of(message.fields@, 0) {
            Some(url) => match (type_name_of(url), message.embedded) {
                (Some(name), Some(body)) => if body.desc.full_name@ == name {
                    Some((url, *body))
                } else {
                    None
                },
                _ => None,
            },
            None => None,
        }
    }
}

/// What is left of `s` behind `prefix`, if `s` starts with it.
pub fn strip_prefix<'a>(s: &'a str, prefix: &str) -> (r: Option<&'a str>)
    ensures
        match without_prefix(s@, prefix@) {
            Some(rest) => r matches Some(t) && t@ == rest,
            None => r is None,
        },
{
    let n = prefix.unicode_len();
    let len = s.unicode_len();
    if n > len {
        return None;
    }
    let mut i: usize = 0;
    while i < n
        invariant
            i <= n <= len,
            n == prefix@.len(),
            len == s@.len(),
            s@.take(i as int) =~= prefix@.take(i as int),
        decreases n - i,
    {
        if s.get_char(i) != prefix.get_char(i) {
            assert(s@.take(n as int)[i as int] != prefix@[i as int]);
            return None;
        }
        assert(s@.take(i + 1) =~= s@.take(i as int).push(s@[i as int]));
        assert(prefix@.take(i + 1) =~= prefix@.take(i as int).push(prefix@[i as int]));
        i += 1;
    }
    assert(prefix@.take(n as int) =~= prefix@);
    Some(s.substring_char(n, len))
}

/// The name of the message type that a type URL names, as [`type_name_of`]
/// gives it.
pub fn message_name<'a>(type_url: &'a str) -> (r: Option<&'a str>)
    ensures
        match type_name_of(type_url@) {
            Some(name) => r matches Some(t) && t@ == name,
            None => r is None,
        },
{
    match strip_prefix(type_url, "type.googleapis.com/") {
        Some(name) => Some(name),
        None => strip_prefix(type_url, "type.googleprod.com/"),
    }
}

/// The type URL that a wrapper's fields hold, as [`type_url_of`] gives it.
pub fn type_url(message: &DynamicMessage) -> (r: Option<&String>)
    ensures
        match type_url_of(message.fields@, 0) {
            Some(url) => r matches Some(s) && s@ == url,
            None => r is None,
        },
{
    let mut i: usize = 0;
    while i < message.fields.len()
        invariant
            i <= message.fields@.len(),
            type_url_of(message.fields@, 0) == type_url_of(message.fields@, i as int),
        decreases message.fields@.len() - i,
    {
        match &message.fields[i] {
            ValueAndDescriptor::Field(Value::String(s), desc) => {
                if desc.number == 1 {
                    return Some(s);
                }
            },
            _ => {},
        }
        i += 1;
    }
    None
}

/// Looks into a `google.protobuf.Any` wrapper: its type URL and the message
/// it embeds, where [`any_expansion`] finds them.
pub fn as_any(message: &DynamicMessage) -> (r: Option<(&String, &DynamicMessage)>)
    ensures
        match any_expansion(message) {
            Some((url, body)) => r matches Some((u, b)) && u@ == url && *b == body,
            None => r is None,
        },
{
    let any_name = String::from_str("google.protobuf.Any");
    if message.desc.full_name != any_name {
        return None;
    }
    let url = match type_url(message) {
        Some(url) => url,
        None => {
            return None;
        },
    };
    let name = match message_name(url.as_str()) {
        Some(name) => name,
        None => {
            return None;
        },
    };
    match &message.embedded {
        Some(body) => {
            if body.desc.full_name == String::from_str(name) {
                Some((url, &**body))
            } else {
                None
            }
        },
        None => None,
    }
}

} // verus!
