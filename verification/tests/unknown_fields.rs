use proto_textfmt::unknown::{UnknownField, UnknownFieldSet, WireError};

#[test]
fn fmt_unknown_scalar() {
    let value = UnknownFieldSet::decode(b"\x09\x9a\x99\x99\x99\x99\x99\xf1\x3f\x15\xcd\xcc\x0c\x40\x18\x03\x20\x04\x28\x05\x30\x06\x38\x0e\x40\x10\x4d\x09\x00\x00\x00\x51\x0a\x00\x00\x00\x00\x00\x00\x00\x5d\x0b\x00\x00\x00\x61\x0c\x00\x00\x00\x00\x00\x00\x00\x68\x01\x72\x01\x35\x7a\x07\x69\xa6\xbe\x6d\xb6\xff\x58".as_ref()).unwrap();
    assert_eq!(
        value.to_text(false),
        r#"1:0x3ff199999999999a,2:0x400ccccd,3:3,4:4,5:5,6:6,7:14,8:16,9:0x00000009,10:0x000000000000000a,11:0x0000000b,12:0x000000000000000c,13:1,14:"5",15:"i\246\276m\266\377X""#
    );
    assert_eq!(
        value.to_text(true),
        r#"1: 0x3ff199999999999a
2: 0x400ccccd
3: 3
4: 4
5: 5
6: 6
7: 14
8: 16
9: 0x00000009
10: 0x000000000000000a
11: 0x0000000b
12: 0x000000000000000c
13: 1
14: "5"
15: "i\246\276m\266\377X""#
    );
}

#[test]
fn fmt_unknown_complex_type() {
    let value = UnknownFieldSet::decode(b"\x0a\x15\x0a\x01\x31\x12\x10\x09\x9a\x99\x99\x99\x99\x99\xf1\x3f\x15\xcd\xcc\x0c\x40\x18\x03\x12\x0d\x08\x03\x12\x09\x38\x0e\x40\x10\x4d\x09\x00\x00\x00\x1a\x16\x5d\x0b\x00\x00\x00\x61\x0c\x00\x00\x00\x00\x00\x00\x00\x68\x01\x72\x01\x35\x7a\x01\x36\x22\x0e\x00\x01\x02\x03\xfc\xff\xff\xff\xff\xff\xff\xff\xff\x01\x28\x01".as_ref()).unwrap();
    assert_eq!(
        value.to_text(false),
        r#"1{1:"1",2{1:0x3ff199999999999a,2:0x400ccccd,3:3}},2{1:3,2{7:14,8:16,9:0x00000009}},3{11:0x0000000b,12:0x000000000000000c,13:1,14:"5",15:"6"},4:"\000\001\002\003\374\377\377\377\377\377\377\377\377\001",5:1"#
    );
    assert_eq!(
        value.to_text(true),
        r#"1 {
  1: "1"
  2 {
    1: 0x3ff199999999999a
    2: 0x400ccccd
    3: 3
  }
}
2 {
  1: 3
  2 {
    7: 14
    8: 16
    9: 0x00000009
  }
}
3 {
  11: 0x0000000b
  12: 0x000000000000000c
  13: 1
  14: "5"
  15: "6"
}
4: "\000\001\002\003\374\377\377\377\377\377\377\377\377\001"
5: 1"#
    );
}

#[test]
fn fmt_unknown_group() {
    let value = UnknownFieldSet::decode(b"\x0b\x0a\x03\x62\x61\x72\x0c\x13\x0a\x03\x66\x6f\x6f\x10\xfb\xff\xff\xff\xff\xff\xff\xff\xff\x01\x14\x1b\x0a\x00\x1c\x1b\x0a\x05\x68\x65\x6c\x6c\x6f\x10\x0a\x1c".as_ref()).unwrap();
    assert_eq!(
        value.to_text(false),
        r#"1{1:"bar"},2{1:"foo",2:18446744073709551611},3{1:""},3{1:"hello",2:10}"#
    );
    assert_eq!(
        value.to_text(true),
        r#"1 {
  1: "bar"
}
2 {
  1: "foo"
  2: 18446744073709551611
}
3 {
  1: ""
}
3 {
  1: "hello"
  2: 10
}"#
    );
}

#[test]
fn varint_field_three_with_value_three() {
    let set = UnknownFieldSet::decode(&[0x18, 0x03]).unwrap();
    assert_eq!(set.to_text(false), "3:3");
    assert_eq!(set.to_text(true), "3: 3");
}

#[test]
fn length_delimited_fragment_that_reads_as_fields() {
    // field 1, length-delimited, holding field 1 = "bar"
    let set = UnknownFieldSet::decode(&[0x0a, 0x05, 0x0a, 0x03, 0x62, 0x61, 0x72]).unwrap();
    assert_eq!(set.to_text(false), r#"1{1:"bar"}"#);
    assert_eq!(set.to_text(true), "1 {\n  1: \"bar\"\n}");
}

#[test]
fn empty_length_delimited_fragment_is_a_literal() {
    let set = UnknownFieldSet::decode(&[0x0a, 0x00]).unwrap();
    assert_eq!(set.to_text(false), r#"1:"""#);
    assert_eq!(set.to_text(true), r#"1: """#);
}

#[test]
fn length_delimited_fragment_that_does_not_parse_is_a_literal() {
    // "5" is the key of a 32-bit field that is not there
    let set = UnknownFieldSet::decode(&[0x0a, 0x01, 0x35]).unwrap();
    assert_eq!(set.to_text(false), r#"1:"5""#);
    assert_eq!(set.to_text(true), r#"1: "5""#);
}

#[test]
fn text_that_happens_to_read_as_fields_is_shown_as_fields() {
    // "hi" is also the varint field 13 with the value 105
    let set = UnknownFieldSet::decode(&[0x0a, 0x02, 0x68, 0x69]).unwrap();
    assert_eq!(set.to_text(false), "1{13:105}");
}

#[test]
fn empty_group_renders_as_empty_braces() {
    let set = UnknownFieldSet::decode(&[0x0b, 0x0c]).unwrap();
    assert_eq!(set.to_text(false), "1{}");
    assert_eq!(set.to_text(true), "1 {}");
}

#[test]
fn empty_set_renders_as_nothing() {
    let set = UnknownFieldSet::decode(&[]).unwrap();
    assert!(set.is_empty());
    assert_eq!(set.to_text(false), "");
    assert_eq!(set.to_text(true), "");
}

#[test]
fn fixed_width_values_are_little_endian() {
    let set = UnknownFieldSet {
        fields: vec![
            (1, UnknownField::ThirtyTwoBit([0x78, 0x56, 0x34, 0x12])),
            (2, UnknownField::SixtyFourBit([0xef, 0xcd, 0xab, 0x89, 0x67, 0x45, 0x23, 0x01])),
            (3, UnknownField::ThirtyTwoBit([0xff, 0xff, 0xff, 0xff])),
            (4, UnknownField::SixtyFourBit([0xff; 8])),
        ],
    };
    assert_eq!(
        set.to_text(false),
        "1:0x12345678,2:0x0123456789abcdef,3:0xffffffff,4:0xffffffffffffffff"
    );
}

#[test]
fn decoded_fields_keep_their_order_and_values() {
    let set = UnknownFieldSet::decode(&[0x10, 0x96, 0x01, 0x08, 0x01, 0x10, 0x02]).unwrap();
    assert_eq!(set.fields.len(), 3);
    assert!(matches!(set.fields[0], (2, UnknownField::Varint(150))));
    assert!(matches!(set.fields[1], (1, UnknownField::Varint(1))));
    assert!(matches!(set.fields[2], (2, UnknownField::Varint(2))));
    assert_eq!(set.to_text(false), "2:150,1:1,2:2");
}

#[test]
fn largest_varint_decodes() {
    let bytes = [0x08, 0xff, 0xff, 0xff, 0xff, 0xff, 0xff, 0xff, 0xff, 0xff, 0x01];
    let set = UnknownFieldSet::decode(&bytes).unwrap();
    assert!(matches!(set.fields[0], (1, UnknownField::Varint(u64::MAX))));
    assert_eq!(set.to_text(false), "1:18446744073709551615");
}

#[test]
fn varint_past_sixty_four_bits_is_rejected() {
    let bytes = [0x08, 0xff, 0xff, 0xff, 0xff, 0xff, 0xff, 0xff, 0xff, 0xff, 0x02];
    assert_eq!(UnknownFieldSet::decode(&bytes).unwrap_err(), WireError::InvalidVarint);
}

#[test]
fn unfinished_varint_is_rejected() {
    assert_eq!(UnknownFieldSet::decode(&[0x08, 0x80]).unwrap_err(), WireError::InvalidVarint);
    assert_eq!(UnknownFieldSet::decode(&[0x08]).unwrap_err(), WireError::InvalidVarint);
}

#[test]
fn bad_keys_are_rejected() {
    // field number zero
    assert_eq!(UnknownFieldSet::decode(&[0x00, 0x01]).unwrap_err(), WireError::InvalidKey);
    // wire type six
    assert_eq!(UnknownFieldSet::decode(&[0x0e]).unwrap_err(), WireError::InvalidKey);
    // a key above 32 bits
    assert_eq!(
        UnknownFieldSet::decode(&[0x88, 0x80, 0x80, 0x80, 0x10, 0x01]).unwrap_err(),
        WireError::InvalidKey
    );
    // an unfinished key
    assert_eq!(UnknownFieldSet::decode(&[0x80]).unwrap_err(), WireError::InvalidKey);
}

#[test]
fn values_past_the_end_are_rejected() {
    assert_eq!(
        UnknownFieldSet::decode(&[0x0d, 0x01, 0x02, 0x03]).unwrap_err(),
        WireError::BufferUnderflow
    );
    assert_eq!(
        UnknownFieldSet::decode(&[0x09, 0x01, 0x02, 0x03, 0x04, 0x05, 0x06, 0x07]).unwrap_err(),
        WireError::BufferUnderflow
    );
    assert_eq!(
        UnknownFieldSet::decode(&[0x0a, 0x03, 0x61, 0x62]).unwrap_err(),
        WireError::BufferUnderflow
    );
}

#[test]
fn stray_and_mismatched_group_ends_are_rejected() {
    assert_eq!(UnknownFieldSet::decode(&[0x0c]).unwrap_err(), WireError::UnexpectedEndGroup);
    assert_eq!(
        UnknownFieldSet::decode(&[0x0b, 0x14]).unwrap_err(),
        WireError::UnexpectedEndGroup
    );
    // a group that never ends
    assert_eq!(UnknownFieldSet::decode(&[0x0b]).unwrap_err(), WireError::InvalidKey);
}

#[test]
fn groups_nest_one_hundred_deep_and_no_deeper() {
    let mut fits = vec![0x0bu8; 100];
    fits.extend(vec![0x0cu8; 100]);
    let set = UnknownFieldSet::decode(&fits).unwrap();
    assert_eq!(set.fields.len(), 1);

    let mut too_deep = vec![0x0bu8; 101];
    too_deep.extend(vec![0x0cu8; 101]);
    assert_eq!(
        UnknownFieldSet::decode(&too_deep).unwrap_err(),
        WireError::RecursionLimitReached
    );
}

#[test]
fn nested_groups_indent_by_two_spaces_a_level() {
    let set = UnknownFieldSet::decode(&[0x0b, 0x13, 0x18, 0x07, 0x14, 0x0c]).unwrap();
    assert_eq!(set.to_text(false), "1{2{3:7}}");
    assert_eq!(set.to_text(true), "1 {\n  2 {\n    3: 7\n  }\n}");
}
