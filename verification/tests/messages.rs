use proto_textfmt::any::{as_any, message_name, strip_prefix};
use proto_textfmt::descriptor::{
    ExtensionDescriptor, FieldDescriptor, Kind, MapEntry, MessageDescriptor,
};
use proto_textfmt::error::SetFieldError;
use proto_textfmt::options::FormatOptions;
use proto_textfmt::unknown::{UnknownField, UnknownFieldSet};
use proto_textfmt::value::{DynamicMessage, MapKey, Value, ValueAndDescriptor};
use proto_textfmt::writer::{Delimited, Writer};

fn message_type(name: &str, full_name: &str) -> MessageDescriptor {
    MessageDescriptor { name: name.to_owned(), full_name: full_name.to_owned(), map_entry: None }
}

fn field(name: &str, number: u32, kind: Kind) -> FieldDescriptor {
    FieldDescriptor {
        name: name.to_owned(),
        number,
        kind,
        is_group: false,
        is_list: false,
        is_map: false,
    }
}

fn present(name: &str, number: u32, kind: Kind, value: Value) -> ValueAndDescriptor {
    ValueAndDescriptor::Field(value, field(name, number, kind))
}

fn message(full_name: &str, fields: Vec<ValueAndDescriptor>) -> DynamicMessage {
    let name = full_name.rsplit('.').next().unwrap();
    DynamicMessage { desc: message_type(name, full_name), fields, embedded: None }
}

fn nested() -> DynamicMessage {
    message("package.MyMessage.Nested", vec![present("bar", 2, Kind::Int32, Value::I32(66))])
}

fn my_message() -> DynamicMessage {
    message(
        "package.MyMessage",
        vec![
            present("foo", 1, Kind::Int32, Value::I32(150)),
            present(
                "nested",
                3,
                Kind::Message(message_type("Nested", "package.MyMessage.Nested")),
                Value::Message(nested()),
            ),
        ],
    )
}

fn any_wrapper(type_url: &str, payload: &[u8], embedded: Option<DynamicMessage>) -> DynamicMessage {
    DynamicMessage {
        desc: message_type("Any", "google.protobuf.Any"),
        fields: vec![
            present("type_url", 1, Kind::String, Value::String(type_url.to_owned())),
            present("value", 2, Kind::Bytes, Value::Bytes(payload.to_vec())),
        ],
        embedded: embedded.map(Box::new),
    }
}

fn render_message(message: &DynamicMessage, options: FormatOptions) -> String {
    let mut out = String::new();
    let mut writer = Writer::new(options, &mut out);
    writer.fmt_message(message);
    out
}

#[test]
fn message_with_a_nested_message() {
    let m = my_message();
    assert_eq!(m.to_text(false), "foo:150,nested{bar:66}");
    assert_eq!(m.to_text(true), "foo: 150\nnested {\n  bar: 66\n}");
}

#[test]
fn message_as_a_value_stands_in_braces() {
    let value = Value::Message(my_message());
    assert_eq!(value.to_text(false), "{foo:150,nested{bar:66}}");
    assert_eq!(value.to_text(true), "{\n  foo: 150\n  nested {\n    bar: 66\n  }\n}");
}

#[test]
fn fields_keep_the_order_in_which_they_are_held() {
    let m = message(
        "t.M",
        vec![
            present("z", 9, Kind::Bool, Value::Bool(true)),
            present("a", 1, Kind::String, Value::String("x".to_owned())),
            present("m", 5, Kind::Uint64, Value::U64(3)),
        ],
    );
    assert_eq!(m.to_text(false), "z:true,a:\"x\",m:3");
    assert_eq!(m.to_text(true), "z: true\na: \"x\"\nm: 3");
}

#[test]
fn message_without_fields() {
    let m = message("t.Empty", vec![]);
    assert_eq!(m.to_text(false), "");
    assert_eq!(m.to_text(true), "");
    assert_eq!(Value::Message(message("t.Empty", vec![])).to_text(false), "{}");
    assert_eq!(Value::Message(message("t.Empty", vec![])).to_text(true), "{}");
}

#[test]
fn message_with_unknown_fields_only_is_empty_braces_where_they_are_skipped() {
    let m = message(
        "t.M",
        vec![
            ValueAndDescriptor::Unknown(7, vec![UnknownField::Varint(1)]),
            ValueAndDescriptor::Unknown(8, vec![UnknownField::Varint(2)]),
        ],
    );
    let value = Value::Message(m);
    assert_eq!(value.to_text(false), "{}");
    assert_eq!(value.to_text(true), "{}");
    let outer = message("t.Outer", vec![present("inner", 1, Kind::Bool, value)]);
    assert_eq!(outer.to_text(false), "inner{}");
    assert_eq!(outer.to_text(true), "inner {}");
}

#[test]
fn unknown_fields_are_skipped_between_known_ones() {
    let m = message(
        "t.M",
        vec![
            ValueAndDescriptor::Unknown(7, vec![UnknownField::Varint(1)]),
            present("a", 1, Kind::Int32, Value::I32(1)),
            ValueAndDescriptor::Unknown(8, vec![UnknownField::Varint(2)]),
            present("b", 2, Kind::Int32, Value::I32(2)),
            ValueAndDescriptor::Unknown(9, vec![UnknownField::Varint(3)]),
        ],
    );
    assert_eq!(m.to_text(false), "a:1,b:2");
    assert_eq!(m.to_text(true), "a: 1\nb: 2");
}

#[test]
fn unknown_fields_are_shown_where_the_options_ask_for_them() {
    let m = message(
        "t.M",
        vec![
            present("a", 1, Kind::Int32, Value::I32(1)),
            ValueAndDescriptor::Unknown(
                8,
                vec![UnknownField::Varint(2), UnknownField::LengthDelimited(b"5".to_vec())],
            ),
            present("b", 2, Kind::Int32, Value::I32(2)),
        ],
    );
    let compact = FormatOptions { pretty: false, skip_unknown_fields: false, expand_any: true };
    let pretty = FormatOptions { pretty: true, skip_unknown_fields: false, expand_any: true };
    assert_eq!(render_message(&m, compact), "a:1,8:2,8:\"5\",b:2");
    assert_eq!(render_message(&m, pretty), "a: 1\n8: 2\n8: \"5\"\nb: 2");
    let mut out = String::new();
    let mut writer = Writer::new(pretty, &mut out);
    writer.fmt_value(&Value::Message(m), None);
    assert_eq!(out, "{\n  a: 1\n  8: 2\n  8: \"5\"\n  b: 2\n}");
}

#[test]
fn group_field_is_named_by_its_message_type() {
    let group = FieldDescriptor {
        name: "mygroup".to_owned(),
        number: 4,
        kind: Kind::Message(message_type("MyGroup", "t.M.MyGroup")),
        is_group: true,
        is_list: false,
        is_map: false,
    };
    let body = message("t.M.MyGroup", vec![present("x", 1, Kind::Int32, Value::I32(1))]);
    let m = message("t.M", vec![ValueAndDescriptor::Field(Value::Message(body), group)]);
    assert_eq!(m.to_text(false), "MyGroup{x:1}");
    assert_eq!(m.to_text(true), "MyGroup {\n  x: 1\n}");
}

#[test]
fn extension_is_named_by_its_full_name_in_brackets() {
    let ext = ExtensionDescriptor {
        full_name: "t.ext.weight".to_owned(),
        number: 100,
        kind: Kind::Double,
        is_group: false,
        is_list: false,
        is_map: false,
    };
    let group_ext = ExtensionDescriptor {
        full_name: "t.ext.extgroup".to_owned(),
        number: 101,
        kind: Kind::Message(message_type("ExtGroup", "t.ext.ExtGroup")),
        is_group: true,
        is_list: false,
        is_map: false,
    };
    let body = message("t.ext.ExtGroup", vec![present("x", 1, Kind::Int32, Value::I32(1))]);
    let m = message(
        "t.M",
        vec![
            ValueAndDescriptor::Extension(Value::F64("2.5".to_owned()), ext),
            ValueAndDescriptor::Extension(Value::Message(body), group_ext),
        ],
    );
    assert_eq!(m.to_text(false), "[t.ext.weight]:2.5,[t.ext.ExtGroup]{x:1}");
    assert_eq!(m.to_text(true), "[t.ext.weight]: 2.5\n[t.ext.ExtGroup] {\n  x: 1\n}");
}

#[test]
fn repeated_and_map_fields_of_a_message() {
    let entry = MessageDescriptor {
        name: "CountsEntry".to_owned(),
        full_name: "t.M.CountsEntry".to_owned(),
        map_entry: Some(Box::new(MapEntry { key: Kind::String, value: Kind::Int32 })),
    };
    let m = message(
        "t.M",
        vec![
            present(
                "ids",
                1,
                Kind::Uint32,
                Value::List(vec![Value::U32(1), Value::U32(2), Value::U32(3)]),
            ),
            present(
                "counts",
                2,
                Kind::Message(entry),
                Value::Mapping(vec![(MapKey::String("a".to_owned()), Value::I32(1))]),
            ),
        ],
    );
    assert_eq!(m.to_text(false), "ids:[1,2,3],counts:[{key:\"a\",value:1}]");
    assert_eq!(
        m.to_text(true),
        "ids: [1, 2, 3]\ncounts: [{\n  key: \"a\"\n  value: 1\n}]"
    );
}

#[test]
fn any_wrapper_with_a_known_type_is_expanded() {
    let body = message("my.Foo", vec![present("bar", 1, Kind::Int32, Value::I32(1))]);
    let any = any_wrapper("type.googleapis.com/my.Foo", &[0x08, 0x01], Some(body));
    assert_eq!(any.to_text(false), "[type.googleapis.com/my.Foo]{bar:1}");
    assert_eq!(any.to_text(true), "[type.googleapis.com/my.Foo] {\n  bar: 1\n}");
    let (url, found) = as_any(&any).unwrap();
    assert_eq!(url, "type.googleapis.com/my.Foo");
    assert_eq!(found.desc.full_name, "my.Foo");
}

#[test]
fn any_wrapper_with_the_other_prefix_is_expanded() {
    let body = message("my.Foo", vec![]);
    let any = any_wrapper("type.googleprod.com/my.Foo", &[], Some(body));
    assert_eq!(any.to_text(false), "[type.googleprod.com/my.Foo]{}");
    assert_eq!(any.to_text(true), "[type.googleprod.com/my.Foo] {}");
}

#[test]
fn any_wrapper_with_an_unknown_type_shows_its_own_fields() {
    let any = any_wrapper("type.googleapis.com/my.Foo", &[0x08, 0x01], None);
    assert_eq!(
        any.to_text(false),
        "type_url:\"type.googleapis.com/my.Foo\",value:\"\\010\\001\""
    );
    assert_eq!(
        any.to_text(true),
        "type_url: \"type.googleapis.com/my.Foo\"\nvalue: \"\\010\\001\""
    );
    assert!(as_any(&any).is_none());
}

#[test]
fn any_wrapper_is_not_expanded_in_the_cases_that_must_fall_back() {
    let body = || message("my.Foo", vec![present("bar", 1, Kind::Int32, Value::I32(1))]);
    // a prefix that is not known
    let other = any_wrapper("example.com/my.Foo", &[], Some(body()));
    assert!(as_any(&other).is_none());
    assert_eq!(other.to_text(false), "type_url:\"example.com/my.Foo\",value:\"\"");
    // an embedded message of another type than the URL names
    let mismatch = any_wrapper("type.googleapis.com/my.Bar", &[], Some(body()));
    assert!(as_any(&mismatch).is_none());
    // a message that is no wrapper
    let mut plain = any_wrapper("type.googleapis.com/my.Foo", &[], Some(body()));
    plain.desc = message_type("Any", "my.Any");
    assert!(as_any(&plain).is_none());
    // a wrapper without a type URL
    let mut bare = any_wrapper("type.googleapis.com/my.Foo", &[], Some(body()));
    bare.fields.remove(0);
    assert!(as_any(&bare).is_none());
    assert_eq!(bare.to_text(false), "value:\"\"");
}

#[test]
fn any_wrapper_is_left_alone_where_the_options_say_so() {
    let body = message("my.Foo", vec![present("bar", 1, Kind::Int32, Value::I32(1))]);
    let any = any_wrapper("type.googleapis.com/my.Foo", &[0x08, 0x01], Some(body));
    let options = FormatOptions { pretty: false, skip_unknown_fields: true, expand_any: false };
    assert_eq!(
        render_message(&any, options),
        "type_url:\"type.googleapis.com/my.Foo\",value:\"\\010\\001\""
    );
}

#[test]
fn any_wrapper_inside_a_message_and_inside_another_wrapper() {
    let foo = message("my.Foo", vec![present("bar", 1, Kind::Int32, Value::I32(1))]);
    let inner = any_wrapper("type.googleapis.com/my.Foo", &[0x08, 0x01], Some(foo));
    let outer = any_wrapper("type.googleapis.com/google.protobuf.Any", &[], Some(inner));
    let holder = message(
        "my.Holder",
        vec![present(
            "payload",
            1,
            Kind::Message(message_type("Any", "google.protobuf.Any")),
            Value::Message(outer),
        )],
    );
    assert_eq!(
        holder.to_text(false),
        "payload{[type.googleapis.com/google.protobuf.Any]{[type.googleapis.com/my.Foo]{bar:1}}}"
    );
    assert_eq!(
        holder.to_text(true),
        "payload {\n  [type.googleapis.com/google.protobuf.Any] {\n    [type.googleapis.com/my.Foo] {\n      bar: 1\n    }\n  }\n}"
    );
}

#[test]
fn prefixes_are_stripped() {
    assert_eq!(strip_prefix("abcdef", "abc"), Some("def"));
    assert_eq!(strip_prefix("abc", "abc"), Some(""));
    assert_eq!(strip_prefix("ab", "abc"), None);
    assert_eq!(strip_prefix("abd", "abc"), None);
    assert_eq!(strip_prefix("\u{e9}t\u{e9}", "\u{e9}"), Some("t\u{e9}"));
    assert_eq!(message_name("type.googleapis.com/a.B"), Some("a.B"));
    assert_eq!(message_name("type.googleprod.com/a.B"), Some("a.B"));
    assert_eq!(message_name("type.googleapis.com/"), Some(""));
    assert_eq!(message_name("type.googleapis.com"), None);
    assert_eq!(message_name("a.B"), None);
}

#[test]
fn delimited_raw_values_of_one_number() {
    let values = vec![UnknownField::Varint(1), UnknownField::Varint(2)];
    let mut out = String::new();
    let mut writer = Writer::new(FormatOptions::from_formatter(true), &mut out);
    writer.fmt_delimited(Delimited::Values(5, &values));
    assert_eq!(out, "5: 1\n5: 2");
    let set = UnknownFieldSet { fields: vec![(1, UnknownField::Varint(1))] };
    let mut out = String::new();
    let mut writer = Writer::new(FormatOptions::default(), &mut out);
    writer.fmt_unknown_field_set(&set);
    writer.fmt_unknown_field(2, &UnknownField::Group(UnknownFieldSet { fields: vec![] }));
    assert_eq!(out, "{1:1}2{}");
}

#[test]
fn error_of_a_missing_field() {
    assert_eq!(SetFieldError::NotFound.to_text(), "field not found");
}

#[test]
fn error_of_a_value_of_the_wrong_type() {
    let scalar = SetFieldError::InvalidType {
        field: field("foo", 1, Kind::Int32),
        value: Value::String("bar".to_owned()),
    };
    assert_eq!(scalar.to_text(), "expected a value of type 'int32', but found '\"bar\"'");

    let mut ids = field("ids", 2, Kind::Sfixed64);
    ids.is_list = true;
    let list = SetFieldError::InvalidType {
        field: ids,
        value: Value::List(vec![Value::I32(1), Value::I32(2)]),
    };
    assert_eq!(list.to_text(), "expected a value of type 'repeated sfixed64', but found '[1,2]'");

    let entry = MessageDescriptor {
        name: "CountsEntry".to_owned(),
        full_name: "t.M.CountsEntry".to_owned(),
        map_entry: Some(Box::new(MapEntry {
            key: Kind::String,
            value: Kind::Message(message_type("Foo", "my.Foo")),
        })),
    };
    let mut counts = field("counts", 3, Kind::Message(entry));
    counts.is_map = true;
    let map = SetFieldError::InvalidType { field: counts, value: Value::Bool(true) };
    assert_eq!(
        map.to_text(),
        "expected a value of type 'map<string, my.Foo>', but found 'true'"
    );

    let nested = SetFieldError::InvalidType {
        field: field("m", 4, Kind::Message(message_type("Foo", "my.Foo"))),
        value: Value::Message(my_message()),
    };
    assert_eq!(
        nested.to_text(),
        "expected a value of type 'my.Foo', but found '{foo:150,nested{bar:66}}'"
    );
}

#[test]
fn kinds_are_named_as_schemas_write_them() {
    let names: Vec<&str> = vec![
        Kind::Double.kind_name(),
        Kind::Float.kind_name(),
        Kind::Int32.kind_name(),
        Kind::Int64.kind_name(),
        Kind::Uint32.kind_name(),
        Kind::Uint64.kind_name(),
        Kind::Sint32.kind_name(),
        Kind::Sint64.kind_name(),
        Kind::Fixed32.kind_name(),
        Kind::Fixed64.kind_name(),
        Kind::Sfixed32.kind_name(),
        Kind::Sfixed64.kind_name(),
        Kind::Bool.kind_name(),
        Kind::String.kind_name(),
        Kind::Bytes.kind_name(),
    ];
    assert_eq!(
        names,
        vec![
            "double", "float", "int32", "int64", "uint32", "uint64", "sint32", "sint64",
            "fixed32", "fixed64", "sfixed32", "sfixed64", "bool", "string", "bytes",
        ]
    );
}

#[test]
fn pretty_and_compact_text_agree_but_for_layout() {
    let strip = |s: String| -> String {
        s.chars().filter(|c| *c != ' ' && *c != '\n' && *c != ',').collect()
    };
    let m = my_message();
    assert_eq!(strip(m.to_text(true)), strip(m.to_text(false)));
    let set = UnknownFieldSet::decode(&[0x0b, 0x13, 0x18, 0x07, 0x14, 0x0c, 0x0a, 0x01, 0x35])
        .unwrap();
    assert_eq!(strip(set.to_text(true)), strip(set.to_text(false)));
    let map = Value::Mapping(vec![
        (MapKey::I32(1), Value::List(vec![Value::I32(1), Value::I32(2)])),
        (MapKey::I32(2), Value::Message(my_message())),
    ]);
    assert_eq!(strip(map.to_text(true)), strip(map.to_text(false)));
}

#[test]
fn writer_methods_one_at_a_time() {
    let mut out = String::new();
    let mut writer = Writer::new(FormatOptions::from_formatter(true), &mut out);
    writer.fmt_field_value(&Value::I32(1), None);
    writer.fmt_newline();
    writer.fmt_field_value(&Value::Message(nested()), None);
    writer.fmt_newline();
    writer.fmt_message_field(&present("a", 1, Kind::Bool, Value::Bool(false)));
    writer.fmt_newline();
    writer.fmt_message_value(&nested());
    writer.fmt_separator();
    writer.fmt_unknown_value(&UnknownField::Varint(9));
    writer.fmt_separator();
    writer.fmt_length_delimited(&vec![0x08, 0x01]);
    writer.fmt_separator();
    writer.fmt_hex(255, 4);
    writer.fmt_separator();
    writer.fmt_map_entry(&MapKey::Bool(false), &Value::U32(0), None);
    assert_eq!(
        out,
        ": 1\n {\n  bar: 66\n}\na: false\n{\n  bar: 66\n}\n: 9\n {\n  1: 1\n}\n0x00ff\n{\n  key: false\n  value: 0\n}"
    );
}

#[test]
fn braces_open_and_close_around_an_indented_block() {
    let mut out = String::new();
    let mut writer = Writer::new(FormatOptions::from_formatter(true), &mut out);
    writer.fmt_open();
    writer.fmt_open();
    writer.fmt_close();
    writer.fmt_close();
    assert_eq!(out, "{\n  {\n    \n  }\n}");
    let mut out = String::new();
    let mut writer = Writer::new(FormatOptions::from_formatter(false), &mut out);
    writer.fmt_open();
    writer.fmt_close();
    assert_eq!(out, "{}");
}
