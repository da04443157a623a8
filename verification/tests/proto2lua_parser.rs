use rust_tools::proto2lua::parser::{enumerator, file_descriptor, message, option_ignore, take_comment, ParseResult};
use rust_tools::proto2lua::types::{sizeof_varint, FieldType, Frequency, Syntax};

#[test]
fn test_message() {
    let msg = r#"message ReferenceData
    {
        repeated ScenarioInfo  scenarioSet = 1;// 注释啊哈哈
        repeated CalculatedObjectInfo calculatedObjectSet = 2;
    }"#;

    let mess = message(msg.as_bytes());
    if let ParseResult::Done(_, mess) = mess {
        println!("mess = {:#?}", mess);
        assert_eq!(2, mess.fields.len());
    }
}

#[test]
fn test_enum() {
    let msg = r#"enum PairingStatus {
                DEALPAIRED        = 0;
                INVENTORYORPHAN   = 1;
                CALCULATEDORPHAN  = 2;
                CANCELED          = 3;
    }"#;

    let mess = enumerator(msg.as_bytes());
    if let ParseResult::Done(_, mess) = mess {
        assert_eq!(4, mess.fields.len());
    }
}

#[test]
fn test_take_comment() {
    let msg = r#"

        //aaa
        dfsdf
        "#;
    let mess = take_comment(msg.as_bytes());
    if let ParseResult::Done(_, mess) = mess {
        println!("mess = {}", mess);
        assert_eq!("aaa2".to_string(), mess);
    }
}

#[test]
fn test_ignore() {
    let msg = r#"option optimize_for = SPEED;"#;

    match option_ignore(msg.as_bytes()) {
        ParseResult::Done(_, _) => (),
        _ => panic!("Expecting done"),
    }
}

#[test]
fn test_import() {
    let msg = r#"syntax = "proto3";

    import "test_import_nested_imported_pb.proto";

    message ContainsImportedNested {
        optional ContainerForNested.NestedMessage m = 1;
        optional ContainerForNested.NestedEnum e = 2;
    }
    "#;
    let desc = match file_descriptor(msg.as_bytes()) {
        ParseResult::Done(_, desc) => desc,
        _ => panic!("Expecting a file descriptor"),
    };
    assert_eq!(vec!["test_import_nested_imported_pb.proto".to_string()], desc.import_paths);
}

#[test]
fn test_package() {
    let msg = r#"
        package foo.bar;

//没用的注释1

//有用的注释2
    message ContainsImportedNested {
        optional ContainerForNested.NestedMessage m = 1;
        optional ContainerForNested.NestedEnum e = 2;
    }
    "#;
    let desc = match file_descriptor(msg.as_bytes()) {
        ParseResult::Done(_, desc) => desc,
        _ => panic!("Expecting a file descriptor"),
    };
    assert_eq!("foo.bar".to_string(), desc.package);
    println!("desc = {:#?}", desc);
}

#[test]
fn test_map() {
    let msg = r#"message A
    {
        optional map<string, int32> b = 1;
    }"#;

    let mess = message(msg.as_bytes());
    if let ParseResult::Done(_, mess) = mess {
        assert_eq!(1, mess.fields.len());
        match mess.fields[0].typ {
            FieldType::Map_(ref key, ref value) => match (&**key, &**value) {
                (&FieldType::String_, &FieldType::Int32) => (),
                (&FieldType::StringCow, &FieldType::Int32) => (),
                _ => panic!("Expecting Map<String, Int32> found Map<{:?}, {:?}>", key, value),
            },
            ref f => panic!("Expecting map, got {:?}", f),
        }
    } else {
        panic!("Could not parse map message");
    }
}

#[test]
fn test_oneof() {
    let msg = r#"message A
    {
        optional int32 a1 = 1;
        oneof a_oneof {
            string a2 = 2;
            int32 a3 = 3;
            bytes a4 = 4;
        }
        repeated bool a5 = 5;
    }"#;

    let mess = message(msg.as_bytes());
    if let ParseResult::Done(_, mess) = mess {
        assert_eq!(1, mess.oneofs.len());
        assert_eq!(3, mess.oneofs[0].fields.len());
    }
}

#[test]
fn message_fields_in_detail() {
    let msg = "message Pair {\n    repeated int32 a = 1; // first\n    string b = 2;\n}\n";
    let mess = match message(msg.as_bytes()) {
        ParseResult::Done(q, m) => {
            assert_eq!(q, msg.len());
            m
        }
        _ => panic!("Expecting a message"),
    };
    assert_eq!("Pair", mess.name);
    assert_eq!(2, mess.fields.len());
    assert_eq!("a", mess.fields[0].name);
    assert_eq!(Frequency::Repeated, mess.fields[0].frequency);
    assert_eq!(FieldType::Int32, mess.fields[0].typ);
    assert_eq!(1, mess.fields[0].number);
    assert_eq!(Some(" first".to_string()), mess.fields[0].comment);
    assert_eq!("b", mess.fields[1].name);
    assert_eq!(Frequency::Optional, mess.fields[1].frequency);
    assert_eq!(2, mess.fields[1].number);
}

#[test]
fn take_comment_reads_the_line() {
    match take_comment("/// doc text\nrest".as_bytes()) {
        ParseResult::Done(q, text) => {
            assert_eq!(13, q);
            assert_eq!(" doc text", text);
        }
        _ => panic!("Expecting a comment"),
    }
}

#[test]
fn take_comment_needs_the_end_of_line() {
    assert!(matches!(take_comment("// no end".as_bytes()), ParseResult::Error | ParseResult::Incomplete));
    assert!(matches!(take_comment("x".as_bytes()), ParseResult::Error | ParseResult::Incomplete));
}

#[test]
fn take_comment_refuses_bad_utf8() {
    let bytes: Vec<u8> = vec![b'/', b'/', 0xff, 0xfe, b'\n'];
    assert!(matches!(take_comment(&bytes), ParseResult::InvalidComment));
}

#[test]
fn file_descriptor_reads_syntax_and_messages() {
    let msg = "syntax = \"proto2\";\npackage a.b;\nmessage M {\n    int32 x = 1;\n}\n";
    let desc = match file_descriptor(msg.as_bytes()) {
        ParseResult::Done(_, desc) => desc,
        _ => panic!("Expecting a file descriptor"),
    };
    assert!(matches!(desc.syntax, Syntax::Proto2));
    assert_eq!("a.b", desc.package);
    assert_eq!(1, desc.messages.len());
    assert_eq!("M", desc.messages[0].name);
    assert_eq!(3, desc.valid_event_count);
}

#[test]
fn sizeof_varint_counts_seven_bits_a_byte() {
    assert_eq!(1, sizeof_varint(0));
    assert_eq!(1, sizeof_varint(0x7f));
    assert_eq!(2, sizeof_varint(0x80));
    assert_eq!(2, sizeof_varint(0x3fff));
    assert_eq!(3, sizeof_varint(0x4000));
    assert_eq!(4, sizeof_varint(0x1f_ffff + 1));
    assert_eq!(5, sizeof_varint(u32::MAX));
}
