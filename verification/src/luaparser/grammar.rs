//! A small part of the Lua grammar, as mathematical functions on bytes: the
//! comments, names, strings, `nil` and number literals of a `local`
//! definition. The conventions are those of [`crate::proto2lua::grammar`].
use vstd::prelude::*;
use crate::text::utf8_text;
use crate::proto2lua::grammar::{
    alt, digits_value, fail, many0, many1, opt, run1, span, tag, then, to, until_consume, ByteClass,
    Step,
};

verus! {

/// The text of some bytes, empty where they are not UTF-8.
pub open spec fn text_or_empty(t: Option<Seq<char>>) -> Seq<char> {
    match t {
        Some(t) => t,
        None => Seq::empty(),
    }
}

/// `--[[`, then everything up to and including `]]`.
pub open spec fn lua_block_comment(s: Seq<u8>, p: int) -> Step<()> {
    then(tag(s, p, "--[["@), |a: int, u: ()| to(until_consume(s, a, "]]"@), ()))
}

/// `--`, then the rest of the line, whose text is the value.
pub open spec fn lua_line_comment(s: Seq<u8>, p: int) -> Step<Seq<char>> {
    then(
        tag(s, p, "--"@),
        |a: int, u: ()|
            match until_consume(s, a, "\n"@) {
                Step::Done(q, e) => Step::Done(q, text_or_empty(utf8_text(s, a, e))),
                r => fail(r),
            },
    )
}

/// A word break: a block comment or white space.
pub open spec fn br(s: Seq<u8>, p: int) -> Step<()> {
    alt(lua_block_comment(s, p), run1(s, p, ByteClass::MultiSpace))
}

pub open spec fn br_at(s: Seq<u8>) -> spec_fn(int) -> Step<()> {
    |p: int| br(s, p)
}

/// A name: a run of letters, digits and `_`, possibly empty.
pub open spec fn word(s: Seq<u8>, p: int) -> Step<Seq<char>> {
    let q = span(s, p, ByteClass::LuaWord);
    match utf8_text(s, p, q) {
        Some(w) => Step::Done(q, w),
        None => Step::Error,
    }
}

/// `local`, at least one word break, and the name defined.
pub open spec fn local_define(s: Seq<u8>, p: int) -> Step<Seq<char>> {
    then(
        tag(s, p, "local"@),
        |a: int, u: ()| then(many1(s, a, br_at(s)), |b: int, v: Seq<()>| word(s, b)),
    )
}

/// The end of the run of bytes other than `'` from `p`.
pub open spec fn quote_free_end(s: Seq<u8>, p: int) -> int
    decreases s.len() - p,
{
    if 0 <= p < s.len() && s[p] != 39 {
        quote_free_end(s, p + 1)
    } else {
        p
    }
}

/// A run of bytes other than `'`: an `Error` where the first byte is `'`,
/// else everything up to the next `'` or the end; the value is its end.
pub open spec fn quote_free(s: Seq<u8>, p: int) -> Step<int> {
    if 0 <= p < s.len() && s[p] == 39 {
        Step::Error
    } else {
        Step::Done(quote_free_end(s, p), quote_free_end(s, p))
    }
}

/// A `'` string as this grammar reads it: `'`, everything up to and including
/// the next `'`, then a run of bytes other than `'`, whose text is the value.
pub open spec fn lua_string_1(s: Seq<u8>, p: int) -> Step<Seq<char>> {
    then(
        tag(s, p, "'"@),
        |a: int, u: ()|
            then(
                until_consume(s, a, "'"@),
                |b: int, i: int|
                    match quote_free(s, b) {
                        Step::Done(q, e) => Step::Done(q, text_or_empty(utf8_text(s, b, e))),
                        r => fail(r),
                    },
            ),
    )
}

/// A `"` string: `"`, then everything up to and including the next `"`; the
/// value is the text between.
pub open spec fn lua_string_2(s: Seq<u8>, p: int) -> Step<Seq<char>> {
    then(
        tag(s, p, "\""@),
        |a: int, u: ()|
            match until_consume(s, a, "\""@) {
                Step::Done(q, e) => Step::Done(q, text_or_empty(utf8_text(s, a, e))),
                r => fail(r),
            },
    )
}

/// A string in either quotes.
pub open spec fn lua_string(s: Seq<u8>, p: int) -> Step<Seq<char>> {
    alt(lua_string_1(s, p), lua_string_2(s, p))
}

/// `nil`.
pub open spec fn lua_nil(s: Seq<u8>, p: int) -> Step<()> {
    tag(s, p, "nil"@)
}

/// Decimal digits whose value fits in a `usize`.
pub open spec fn decimal(s: Seq<u8>, p: int) -> Step<usize> {
    then(
        run1(s, p, ByteClass::Digit),
        |q: int, u: ()|
            {
                let v = digits_value(s.subrange(p, q), 10);
                if v <= usize::MAX {
                    Step::Done(q, v as usize)
                } else {
                    Step::Error
                }
            },
    )
}

/// Hexadecimal digits whose value fits in a `usize`.
pub open spec fn hex(s: Seq<u8>, p: int) -> Step<usize> {
    then(
        run1(s, p, ByteClass::HexDigit),
        |q: int, u: ()|
            {
                let v = digits_value(s.subrange(p, q), 16);
                if v <= usize::MAX {
                    Step::Done(q, v as usize)
                } else {
                    Step::Error
                }
            },
    )
}

/// An exponent with its sign: the exponent as an `i32`, cut to 32 bits and
/// negated for `-`, where the most negative value stays as it is.
pub open spec fn signed_exponent(negative: bool, e: usize) -> i32 {
    let x = e as i32;
    if negative && x != i32::MIN {
        (-x) as i32
    } else {
        x
    }
}

/// An optional sign, then decimal digits.
pub open spec fn float_sgn_suffix(s: Seq<u8>, p: int) -> Step<i32> {
    then(
        opt(alt(to(tag(s, p, "+"@), false), to(tag(s, p, "-"@), true)), p),
        |a: int, sign: Option<bool>|
            then(decimal(s, a), |q: int, e: usize| Step::Done(q, signed_exponent(sign == Some(true), e))),
    )
}

/// `e` or `E`, then a signed exponent.
pub open spec fn float_mag(s: Seq<u8>, p: int) -> Step<i32> {
    then(alt(tag(s, p, "e"@), tag(s, p, "E"@)), |a: int, u: ()| float_sgn_suffix(s, a))
}

/// `p` or `P`, then a signed exponent.
pub open spec fn float_pow(s: Seq<u8>, p: int) -> Step<i32> {
    then(alt(tag(s, p, "p"@), tag(s, p, "P"@)), |a: int, u: ()| float_sgn_suffix(s, a))
}

/// A parser that needs no more input than there is: `Incomplete` becomes
/// `Error`.
pub open spec fn complete<T>(r: Step<T>) -> Step<T> {
    match r {
        Step::Incomplete => Step::Error,
        _ => r,
    }
}

/// A part that may be missing, also where the input ends inside it.
pub open spec fn optional_part<T>(r: Step<T>, p: int) -> Step<()> {
    to(opt(complete(r), p), ())
}

/// `.` and a run of digits of class `c`.
pub open spec fn fraction(s: Seq<u8>, p: int, c: ByteClass) -> Step<()> {
    then(tag(s, p, "."@), |d: int, u: ()| run1(s, d, c))
}

/// A hexadecimal literal: an optional `-`, `0x` or `0X`, hexadecimal digits,
/// an optional fraction and an optional binary exponent.
pub open spec fn hex_lit(s: Seq<u8>, p: int) -> Step<()> {
    then(
        opt(tag(s, p, "-"@), p),
        |a: int, m: Option<()>|
            then(
                alt(tag(s, a, "0x"@), tag(s, a, "0X"@)),
                |b: int, u: ()|
                    then(
                        run1(s, b, ByteClass::HexDigit),
                        |c: int, v: ()|
                            then(
                                optional_part(fraction(s, c, ByteClass::HexDigit), c),
                                |e: int, w: ()| optional_part(float_pow(s, e), e),
                            ),
                    ),
            ),
    )
}

/// A decimal literal: an optional `-`, digits, an optional fraction and an
/// optional exponent.
pub open spec fn dec_lit(s: Seq<u8>, p: int) -> Step<()> {
    then(
        opt(tag(s, p, "-"@), p),
        |a: int, m: Option<()>|
            then(
                run1(s, a, ByteClass::Digit),
                |c: int, v: ()|
                    then(
                        optional_part(fraction(s, c, ByteClass::Digit), c),
                        |e: int, w: ()| optional_part(float_mag(s, e), e),
                    ),
            ),
    )
}

/// The two kinds of number literal.
#[derive(Debug, Clone, Copy, PartialEq, Eq, Structural)]
pub enum NumLit {
    Hex,
    Dec,
}

/// A number literal, hexadecimal first; the value says which kind was read,
/// and the literal's text is what lies between the start and the end.
pub open spec fn num_lit(s: Seq<u8>, p: int) -> Step<NumLit> {
    alt(to(hex_lit(s, p), NumLit::Hex), to(dec_lit(s, p), NumLit::Dec))
}

/// A value as this grammar reads it.
pub enum SpecLuaValue {
    String(Seq<char>),
    Number(NumLit),
    Nil,
}

/// A string, a number literal or `nil`.
pub open spec fn lua_value(s: Seq<u8>, p: int) -> Step<SpecLuaValue> {
    alt(
        then(lua_string(s, p), |q: int, t: Seq<char>| Step::Done(q, SpecLuaValue::String(t))),
        alt(
            then(num_lit(s, p), |q: int, k: NumLit| Step::Done(q, SpecLuaValue::Number(k))),
            to(lua_nil(s, p), SpecLuaValue::Nil),
        ),
    )
}

/// `local`, word breaks, the name, `=` between optional word breaks, and a
/// value; the name is the value of the whole.
pub open spec fn local_assign(s: Seq<u8>, p: int) -> Step<Seq<char>> {
    then(
        tag(s, p, "local"@),
        |a: int, u: ()|
            then(
                many1(s, a, br_at(s)),
                |b: int, v: Seq<()>|
                    then(
                        word(s, b),
                        |c: int, w: Seq<char>|
                            then(
                                many0(s, c, br_at(s)),
                                |d: int, x: Seq<()>|
                                    then(
                                        tag(s, d, "="@),
                                        |e: int, y: ()|
                                            then(
                                                many0(s, e, br_at(s)),
                                                |f: int, z: Seq<()>| to(lua_value(s, f), w),
                                            ),
                                    ),
                            ),
                    ),
            ),
    )
}

} // verus!
