use rust_tools::luaparser::grammar::NumLit;
use rust_tools::luaparser::parser::{
    decimal_at, float_mag_at, hex_at, local_assign, local_define, lua_block_comment_at,
    lua_line_comment_at, lua_string, num_lit, word_at, LuaValue, lua_value_at,
};
use rust_tools::proto2lua::parser::ParseResult;

#[test]
fn t_st() {
    let s = r#""asfdg\"dsd""#;
    let ss = lua_string(s.as_bytes());
    if let ParseResult::Done(_, text) = ss {
        println!("ss.unwrap() = {:#?}", text);
        // assert!(true,"{}",ss.unwrap().1)
    } else {
        assert!(false);
    }
}

#[test]
fn double_quoted_string_stops_at_the_next_quote() {
    match lua_string(br#""asfdg\"dsd""#) {
        ParseResult::Done(q, text) => {
            assert_eq!(8, q);
            assert_eq!("asfdg\\", text);
        }
        _ => panic!("Expecting a string"),
    }
}

#[test]
fn single_quoted_string_reads_past_its_quote() {
    match lua_string(b"'ab'cd'") {
        ParseResult::Done(q, text) => {
            assert_eq!(6, q);
            assert_eq!("cd", text);
        }
        _ => panic!("Expecting a string"),
    }
    assert!(matches!(lua_string(b"'ab''"), ParseResult::Error));
}

#[test]
fn string_without_end_needs_more_input() {
    assert!(matches!(lua_string(b"\""), ParseResult::Incomplete));
    assert!(matches!(lua_string(b"x"), ParseResult::Error));
}

#[test]
fn local_define_reads_the_name() {
    match local_define(b"local  --[[ note ]] total = 1") {
        ParseResult::Done(q, name) => {
            assert_eq!(25, q);
            assert_eq!("total", name);
        }
        _ => panic!("Expecting a definition"),
    }
    assert!(matches!(local_define(b"localx"), ParseResult::Error));
}

#[test]
fn local_assign_reads_name_and_value() {
    match local_assign(b"local count = 0x1F;") {
        ParseResult::Done(q, name) => {
            assert_eq!(18, q);
            assert_eq!("count", name);
        }
        _ => panic!("Expecting an assignment"),
    }
    match local_assign(b"local s='a'b'") {
        ParseResult::Done(_, name) => assert_eq!("s", name),
        _ => panic!("Expecting an assignment"),
    }
    assert!(matches!(local_assign(b"local v = nil "), ParseResult::Done(13, _)));
    assert!(matches!(local_assign(b"local v = true"), ParseResult::Error));
}

#[test]
fn number_literals() {
    assert!(matches!(num_lit(b"13 "), ParseResult::Done(2, NumLit::Dec)));
    assert!(matches!(num_lit(b"0xf5 "), ParseResult::Done(4, NumLit::Hex)));
    assert!(matches!(num_lit(b"0x10abcp-7 "), ParseResult::Done(10, NumLit::Hex)));
    assert!(matches!(num_lit(b"0X302498a.e10 "), ParseResult::Done(13, NumLit::Hex)));
    assert!(matches!(num_lit(b"0.00271828e3 "), ParseResult::Done(12, NumLit::Dec)));
    assert!(matches!(num_lit(b"13f5"), ParseResult::Done(2, NumLit::Dec)));
    assert!(matches!(num_lit(b"10.3.1.4"), ParseResult::Done(4, NumLit::Dec)));
    assert!(matches!(num_lit(b"0xp1"), ParseResult::Done(1, NumLit::Dec)));
    assert!(matches!(num_lit(b"50e"), ParseResult::Done(2, NumLit::Dec)));
    assert!(matches!(num_lit(b"f5"), ParseResult::Error));
}

#[test]
fn digits_and_exponents() {
    assert!(matches!(decimal_at(b"0042x", 0), ParseResult::Done(4, 42)));
    assert!(matches!(hex_at(b"ff!", 0), ParseResult::Done(2, 255)));
    assert!(matches!(decimal_at(b"99999999999999999999999 ", 0), ParseResult::Error));
    assert!(matches!(decimal_at(b"", 0), ParseResult::Incomplete));
    assert!(matches!(float_mag_at(b"e-12;", 0), ParseResult::Done(4, -12)));
    assert!(matches!(float_mag_at(b"E+7;", 0), ParseResult::Done(3, 7)));
}

#[test]
fn comments_and_names() {
    match lua_line_comment_at(b"-- note\nx", 0) {
        ParseResult::Done(q, text) => {
            assert_eq!(8, q);
            assert_eq!(" note", text);
        }
        _ => panic!("Expecting a comment"),
    }
    assert!(matches!(lua_block_comment_at(b"--[[ a ]]b", 0), ParseResult::Done(9, ())));
    match word_at(b"ab_1+", 0) {
        ParseResult::Done(q, w) => {
            assert_eq!(4, q);
            assert_eq!("ab_1", w);
        }
        _ => panic!("Expecting a word"),
    }
}

#[test]
fn values() {
    assert!(matches!(lua_value_at(b"nil", 0), ParseResult::Done(3, LuaValue::Nil)));
    assert!(matches!(lua_value_at(b"-3.5,", 0), ParseResult::Done(4, LuaValue::Number(NumLit::Dec))));
    match lua_value_at(b"\"hi\"", 0) {
        ParseResult::Done(4, LuaValue::String(t)) => assert_eq!("hi", t),
        _ => panic!("Expecting a string"),
    }
}

#[test]
fn t_number() {
    let good_inputs = ["13", "0xf5", "0x10abcp-7", "0X302498a.e10", "0.00271828e3"];
    let bad_inputs = ["f5", "13f5", "10.3.1.4", "0xp1", "50e"];
    // Each valid literal is read whole; its value is computed outside the library.
    let good_outputs = vec![
        (2, NumLit::Dec),
        (4, NumLit::Hex),
        (10, NumLit::Hex),
        (13, NumLit::Hex),
        (12, NumLit::Dec),
    ];
    // We won't be matching the entirety of the input
    let bad_outputs: Vec<Option<(usize, NumLit)>> = vec![
        None,
        Some((2, NumLit::Dec)),
        Some((4, NumLit::Dec)),
        Some((1, NumLit::Dec)),
        Some((2, NumLit::Dec)),
    ];

    for (input, expected) in good_inputs.iter().zip(good_outputs.into_iter()) {
        println!("trying {:?}", input);
        assert_eq!(input.len(), expected.0);
        match num_lit(input.as_bytes()) {
            ParseResult::Done(q, kind) => assert_eq!(expected, (q, kind)),
            _ => panic!("Expecting a number literal in {:?}", input),
        }
    }

    for (input, expected) in bad_inputs.iter().zip(bad_outputs.into_iter()) {
        match (num_lit(input.as_bytes()), expected) {
            (ParseResult::Error, None) => (),
            (ParseResult::Done(q, kind), Some(e)) => assert_eq!(e, (q, kind)),
            _ => panic!("Unexpected outcome for {:?}", input),
        }
    }
}
