//! Rendering a whole value, message or set of unknown fields to a string.
use vstd::prelude::*;
use crate::options::FormatOptions;
use crate::render::{render_message, render_unknown_fields, render_value};
use crate::unknown::UnknownFieldSet;
use crate::value::{DynamicMessage, Value};
use crate::writer::{Delimited, Writer};

verus! {

/// The options of a rendering that shows every field: pretty where the
/// alternate form is requested, with the unknown fields.
pub open spec fn showing_unknown(alternate: bool) -> FormatOptions {
    FormatOptions { pretty: alternate, skip_unknown_fields: false, expand_any: true }
}

/// The options of a rendering of a value or a message: pretty where the
/// alternate form is requested, without the unknown fields.
pub open spec fn hiding_unknown(alternate: bool) -> FormatOptions {
    FormatOptions { pretty: alternate, skip_unknown_fields: true, expand_any: true }
}

impl Value {
    /// The value in the text format, with no static kind to go by: on one
    /// line, or in the alternate form on indented lines.
    pub fn to_text(&self, alternate: bool) -> (text: String)
        ensures
            text@ == render_value(self, None, hiding_unknown(alternate), 0),
    {
        let mut out = String::new();
        let mut writer = Writer::new(FormatOptions::from_formatter(alternate), &mut out);
        writer.fmt_value(self, None);
        out
    }
}

impl DynamicMessage {
    /// The fields of the message in the text format: on one line, or in the
    /// alternate form on indented lines.
    pub fn to_text(&self, alternate: bool) -> (text: String)
        ensures
            text@ == render_message(self, hiding_unknown(alternate), 0),
    {
        let mut out = String::new();
        let mut writer = Writer::new(FormatOptions::from_formatter(alternate), &mut out);
        writer.fmt_message(self);
        out
    }
}

impl UnknownFieldSet {
    /// The fields of the set in the text format: on one line, or in the
    /// alternate form on indented lines. A set of unknown fields is there to
    /// be looked at, so nothing in it is skipped.
    pub fn to_text(&self, alternate: bool) -> (text: String)
        ensures
            text@ == render_unknown_fields(self@, alternate, 0),
    {
        let defaults = FormatOptions::from_formatter(alternate);
        let options = FormatOptions {
            pretty: defaults.pretty,
            skip_unknown_fields: false,
            expand_any: defaults.expand_any,
        };
        let mut out = String::new();
        let mut writer = Writer::new(options, &mut out);
        writer.fmt_delimited(Delimited::Unknown(&self.fields));
        out
    }
}

} // verus!
