//! The configuration of one rendering.
use vstd::prelude::*;

verus! {

/// How to render: on several indented lines or on one, with or without the
/// fields that the schema does not know, with or without looking into
/// `google.protobuf.Any` wrappers.
#[derive(Clone, Copy, Debug, PartialEq, Eq, Structural)]
pub struct FormatOptions {
    pub pretty: bool,
    pub skip_unknown_fields: bool,
    pub expand_any: bool,
}

impl FormatOptions {
    /// The options of a rendering that a formatter asks for: pretty where the
    /// alternate form is requested, and otherwise the defaults.
    pub fn from_formatter(alternate: bool) -> (options: Self)
        ensures
            options == (FormatOptions {
                pretty: alternate,
                skip_unknown_fields: true,
                expand_any: true,
            }),
    {
        let defaults = FormatOptions::default();
        FormatOptions {
            pretty: alternate,
            skip_unknown_fields: defaults.skip_unknown_fields,
            expand_any: defaults.expand_any,
        }
    }
}

impl Default for FormatOptions {
    /// Compact, without unknown fields, with `Any` wrappers expanded.
    fn default() -> (options: Self)
        ensures
            options == (FormatOptions {
                pretty: false,
                skip_unknown_fields: true,
                expand_any: true,
            }),
    {
        FormatOptions { pretty: false, skip_unknown_fields: true, expand_any: true }
    }
}

} // verus!
