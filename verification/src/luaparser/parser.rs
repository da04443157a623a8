//! The Lua parser. Each function parses from a position of the input and
//! gives exactly the outcome that [`crate::luaparser::grammar`] describes.
use vstd::prelude::*;
use crate::luaparser::grammar as l;
use crate::luaparser::grammar::{NumLit, SpecLuaValue};
use crate::proto2lua::grammar as g;
use crate::proto2lua::grammar::{ByteClass, Step};
use crate::proto2lua::parser::{
    digit_value, lemma_digits_value_grows, pos_failure, run1, span, tag, until_consume, within,
    ParseResult,
};
use crate::text::text_between;

verus! {

impl DeepView for NumLit {
    type V = NumLit;

    open spec fn deep_view(&self) -> NumLit {
        *self
    }
}

/// A value as the parser reads it. A number is given by its kind; its text
/// is what the parser read.
#[derive(Debug)]
pub enum LuaValue {
    String(String),
    Number(NumLit),
    Nil,
}

impl DeepView for LuaValue {
    type V = SpecLuaValue;

    open spec fn deep_view(&self) -> SpecLuaValue {
        match self {
            LuaValue::String(t) => SpecLuaValue::String(t@),
            LuaValue::Number(k) => SpecLuaValue::Number(*k),
            LuaValue::Nil => SpecLuaValue::Nil,
        }
    }
}

/// The text of some bytes, empty where they are not UTF-8.
fn text_or_empty(s: &[u8], a: usize, b: usize) -> (r: String)
    requires
        a <= b <= s@.len(),
    ensures
        r@ == l::text_or_empty(crate::text::utf8_text(s@, a as int, b as int)),
{
    match text_between(s, a, b) {
        Some(t) => t,
        None => String::new(),
    }
}

/// `--[[`, then everything up to and including `]]`.
pub fn lua_block_comment_at(s: &[u8], p: usize) -> (res: ParseResult<()>)
    requires
        p <= s@.len(),
    ensures
        res.deep_view() == l::lua_block_comment(s@, p as int),
        within(res, p as int, s@),
{
    let a = match tag(s, p, "--[[") {
        ParseResult::Done(a, _) => a,
        r => return r.failure(),
    };
    match until_consume(s, a, "]]") {
        ParseResult::Done(q, _) => ParseResult::Done(q, ()),
        r => pos_failure(r),
    }
}

/// `--`, then the rest of the line, whose text is the value.
pub fn lua_line_comment_at(s: &[u8], p: usize) -> (res: ParseResult<String>)
    requires
        p <= s@.len(),
    ensures
        res.deep_view() == l::lua_line_comment(s@, p as int),
        within(res, p as int, s@),
{
    let a = match tag(s, p, "--") {
        ParseResult::Done(a, _) => a,
        r => return r.failure(),
    };
    match until_consume(s, a, "\n") {
        ParseResult::Done(q, e) => ParseResult::Done(q, text_or_empty(s, a, e)),
        r => pos_failure(r),
    }
}

/// A word break: a block comment or white space.
pub fn br_at(s: &[u8], p: usize) -> (res: ParseResult<()>)
    requires
        p <= s@.len(),
    ensures
        res.deep_view() == l::br(s@, p as int),
        within(res, p as int, s@),
{
    match lua_block_comment_at(s, p) {
        ParseResult::Error => run1(s, p, ByteClass::MultiSpace),
        r => r,
    }
}

/// Any number of word breaks.
pub fn brs0_at(s: &[u8], p: usize) -> (res: ParseResult<()>)
    requires
        p <= s@.len(),
    ensures
        res.deep_view() == g::to(g::many0(s@, p as int, l::br_at(s@)), ()),
        within(res, p as int, s@),
{
    let ghost f = l::br_at(s@);
    let mut i = p;
    loop
        invariant
            p <= i <= s@.len(),
            f == l::br_at(s@),
            g::to(g::many0(s@, p as int, f), ()) == g::to(g::many0(s@, i as int, f), ()),
        decreases s@.len() - i,
    {
        if i >= s.len() {
            return ParseResult::Done(i, ());
        }
        match br_at(s, i) {
            ParseResult::Error => {
                return ParseResult::Done(i, ());
            },
            ParseResult::Done(q, _) => {
                if q <= i {
                    return ParseResult::Error;
                }
                i = q;
            },
            r => {
                return r.failure();
            },
        }
    }
}

/// At least one word break.
pub fn brs1_at(s: &[u8], p: usize) -> (res: ParseResult<()>)
    requires
        p <= s@.len(),
    ensures
        res.deep_view() == g::to(g::many1(s@, p as int, l::br_at(s@)), ()),
        within(res, p as int, s@),
{
    let ghost f = l::br_at(s@);
    let mut i = match br_at(s, p) {
        ParseResult::Done(q, _) => q,
        r => return r.failure(),
    };
    if i >= s.len() {
        return ParseResult::Done(i, ());
    }
    loop
        invariant
            p <= i <= s@.len(),
            f == l::br_at(s@),
            g::to(g::many1(s@, p as int, f), ()) == g::to(g::many1_rest(s@, i as int, f), ()),
        decreases s@.len() - i,
    {
        if i >= s.len() {
            return ParseResult::Done(i, ());
        }
        match br_at(s, i) {
            ParseResult::Error => {
                return ParseResult::Done(i, ());
            },
            ParseResult::Done(q, _) => {
                if q <= i {
                    return ParseResult::Done(i, ());
                }
                i = q;
            },
            r => {
                return r.failure();
            },
        }
    }
}

/// Whether `b` may stand in a name: a letter, a digit or `_`.
pub fn is_word(b: u8) -> (r: bool)
    ensures
        r == g::in_class(ByteClass::LuaWord, b),
{
    crate::proto2lua::parser::in_class(ByteClass::LuaWord, b)
}

/// A name: a run of letters, digits and `_`, possibly empty.
pub fn word_at(s: &[u8], p: usize) -> (res: ParseResult<String>)
    requires
        p <= s@.len(),
    ensures
        res.deep_view() == l::word(s@, p as int),
        within(res, p as int, s@),
{
    let q = span(s, p, ByteClass::LuaWord);
    match text_between(s, p, q) {
        Some(w) => ParseResult::Done(q, w),
        None => ParseResult::Error,
    }
}

/// `local`, at least one word break, and the name defined.
pub fn local_define_at(s: &[u8], p: usize) -> (res: ParseResult<String>)
    requires
        p <= s@.len(),
    ensures
        res.deep_view() == l::local_define(s@, p as int),
        within(res, p as int, s@),
{
    let a = match tag(s, p, "local") {
        ParseResult::Done(a, _) => a,
        r => return r.failure(),
    };
    let b = match brs1_at(s, a) {
        ParseResult::Done(b, _) => b,
        r => return r.failure(),
    };
    word_at(s, b)
}

/// The end of the run of bytes other than `'` from `p`.
fn quote_free_end(s: &[u8], p: usize) -> (q: usize)
    requires
        p <= s@.len(),
    ensures
        q == l::quote_free_end(s@, p as int),
        p <= q <= s@.len(),
{
    let mut i = p;
    while i < s.len() && s[i] != 39
        invariant
            p <= i <= s@.len(),
            l::quote_free_end(s@, p as int) == l::quote_free_end(s@, i as int),
        decreases s@.len() - i,
    {
        i = i + 1;
    }
    i
}

/// A `'` string as the grammar reads it.
pub fn lua_string_1_at(s: &[u8], p: usize) -> (res: ParseResult<String>)
    requires
        p <= s@.len(),
    ensures
        res.deep_view() == l::lua_string_1(s@, p as int),
        within(res, p as int, s@),
{
    let a = match tag(s, p, "'") {
        ParseResult::Done(a, _) => a,
        r => return r.failure(),
    };
    let b = match until_consume(s, a, "'") {
        ParseResult::Done(b, _) => b,
        r => return pos_failure(r),
    };
    if b < s.len() && s[b] == 39 {
        return ParseResult::Error;
    }
    let q = quote_free_end(s, b);
    ParseResult::Done(q, text_or_empty(s, b, q))
}

/// A `"` string.
pub fn lua_string_2_at(s: &[u8], p: usize) -> (res: ParseResult<String>)
    requires
        p <= s@.len(),
    ensures
        res.deep_view() == l::lua_string_2(s@, p as int),
        within(res, p as int, s@),
{
    let a = match tag(s, p, "\"") {
        ParseResult::Done(a, _) => a,
        r => return r.failure(),
    };
    match until_consume(s, a, "\"") {
        ParseResult::Done(q, e) => ParseResult::Done(q, text_or_empty(s, a, e)),
        r => pos_failure(r),
    }
}

/// A string in either quotes.
pub fn lua_string_at(s: &[u8], p: usize) -> (res: ParseResult<String>)
    requires
        p <= s@.len(),
    ensures
        res.deep_view() == l::lua_string(s@, p as int),
        within(res, p as int, s@),
{
    match lua_string_1_at(s, p) {
        ParseResult::Error => lua_string_2_at(s, p),
        r => r,
    }
}

/// `nil`.
pub fn lua_nil_at(s: &[u8], p: usize) -> (res: ParseResult<()>)
    requires
        p <= s@.len(),
    ensures
        res.deep_view() == l::lua_nil(s@, p as int),
        within(res, p as int, s@),
{
    tag(s, p, "nil")
}

/// The value of the digits from `a` to `b` in base `base`, when it fits in a
/// `usize`.
fn digits_usize(s: &[u8], a: usize, b: usize, base: usize) -> (r: Option<usize>)
    requires
        a <= b <= s@.len(),
        base == 10 || base == 16,
        forall|i: int| a <= i < b ==> g::in_class(ByteClass::HexDigit, #[trigger] s@[i]),
    ensures
        r is Some <==> g::digits_value(s@.subrange(a as int, b as int), base as nat) <= usize::MAX,
        r matches Some(v) ==> v == g::digits_value(s@.subrange(a as int, b as int), base as nat),
{
    let mut v: usize = 0;
    let mut i = a;
    assert(s@.subrange(a as int, a as int) =~= Seq::<u8>::empty());
    while i < b
        invariant
            a <= i <= b <= s@.len(),
            base == 10 || base == 16,
            forall|j: int| a <= j < b ==> g::in_class(ByteClass::HexDigit, #[trigger] s@[j]),
            v == g::digits_value(s@.subrange(a as int, i as int), base as nat),
        decreases b - i,
    {
        let d = digit_value(s[i]) as usize;
        assert(s@.subrange(a as int, i + 1).drop_last() =~= s@.subrange(a as int, i as int));
        let next = match v.checked_mul(base) {
            Some(x) => x.checked_add(d),
            None => None,
        };
        match next {
            Some(y) => {
                v = y;
                i = i + 1;
            },
            None => {
                proof {
                    let full = s@.subrange(a as int, b as int);
                    assert(full.subrange(0, i + 1 - a) =~= s@.subrange(a as int, i + 1));
                    lemma_digits_value_grows(full, i + 1 - a, base as nat);
                    assert(v * base + d >= v * base);
                }
                return None;
            },
        }
    }
    Some(v)
}

/// Digits of class `c` whose value in `base` fits in a `usize`.
fn digits_at(s: &[u8], p: usize, c: ByteClass, base: usize) -> (res: ParseResult<usize>)
    requires
        p <= s@.len(),
        (c == ByteClass::Digit && base == 10) || (c == ByteClass::HexDigit && base == 16),
    ensures
        res.deep_view() == (if base == 10 {
            l::decimal(s@, p as int)
        } else {
            l::hex(s@, p as int)
        }),
        within(res, p as int, s@),
{
    match run1(s, p, c) {
        ParseResult::Done(q, _) => {
            proof {
                crate::proto2lua::parser::lemma_span_in_class(s@, p as int, c);
                assert forall|i: int| p <= i < q implies g::in_class(
                    ByteClass::HexDigit,
                    #[trigger] s@[i],
                ) by {
                    assert(g::in_class(c, s@[i]));
                }
            }
            match digits_usize(s, p, q, base) {
                Some(v) => ParseResult::Done(q, v),
                None => ParseResult::Error,
            }
        },
        r => r.failure(),
    }
}

/// Decimal digits whose value fits in a `usize`.
pub fn decimal_at(s: &[u8], p: usize) -> (res: ParseResult<usize>)
    requires
        p <= s@.len(),
    ensures
        res.deep_view() == l::decimal(s@, p as int),
        within(res, p as int, s@),
{
    digits_at(s, p, ByteClass::Digit, 10)
}

/// Hexadecimal digits whose value fits in a `usize`.
pub fn hex_at(s: &[u8], p: usize) -> (res: ParseResult<usize>)
    requires
        p <= s@.len(),
    ensures
        res.deep_view() == l::hex(s@, p as int),
        within(res, p as int, s@),
{
    digits_at(s, p, ByteClass::HexDigit, 16)
}

/// An optional sign, then decimal digits.
pub fn float_sgn_suffix_at(s: &[u8], p: usize) -> (res: ParseResult<i32>)
    requires
        p <= s@.len(),
    ensures
        res.deep_view() == l::float_sgn_suffix(s@, p as int),
        within(res, p as int, s@),
{
    let (a, negative) = match tag(s, p, "+") {
        ParseResult::Done(a, _) => (a, false),
        ParseResult::Error => match tag(s, p, "-") {
            ParseResult::Done(a, _) => (a, true),
            ParseResult::Error => (p, false),
            r => return r.failure(),
        },
        r => return r.failure(),
    };
    match decimal_at(s, a) {
        ParseResult::Done(q, e) => {
            let x = e as i32;
            let v = if negative && x != i32::MIN {
                -x
            } else {
                x
            };
            ParseResult::Done(q, v)
        },
        r => r.failure(),
    }
}

/// `e`/`E` (for a power of ten) or `p`/`P` (for a power of two), then a
/// signed exponent.
fn exponent_at(s: &[u8], p: usize, binary: bool) -> (res: ParseResult<i32>)
    requires
        p <= s@.len(),
    ensures
        res.deep_view() == (if binary {
            l::float_pow(s@, p as int)
        } else {
            l::float_mag(s@, p as int)
        }),
        within(res, p as int, s@),
{
    let (lower, upper) = if binary {
        ("p", "P")
    } else {
        ("e", "E")
    };
    let a = match tag(s, p, lower) {
        ParseResult::Done(a, _) => a,
        ParseResult::Error => match tag(s, p, upper) {
            ParseResult::Done(a, _) => a,
            r => return r.failure(),
        },
        r => return r.failure(),
    };
    float_sgn_suffix_at(s, a)
}

/// `e` or `E`, then a signed exponent.
pub fn float_mag_at(s: &[u8], p: usize) -> (res: ParseResult<i32>)
    requires
        p <= s@.len(),
    ensures
        res.deep_view() == l::float_mag(s@, p as int),
        within(res, p as int, s@),
{
    exponent_at(s, p, false)
}

/// `p` or `P`, then a signed exponent.
pub fn float_pow_at(s: &[u8], p: usize) -> (res: ParseResult<i32>)
    requires
        p <= s@.len(),
    ensures
        res.deep_view() == l::float_pow(s@, p as int),
        within(res, p as int, s@),
{
    exponent_at(s, p, true)
}

/// `.` and a run of digits of class `c`.
fn fraction_at(s: &[u8], p: usize, c: ByteClass) -> (res: ParseResult<()>)
    requires
        p <= s@.len(),
    ensures
        res.deep_view() == l::fraction(s@, p as int, c),
        within(res, p as int, s@),
{
    let d = match tag(s, p, ".") {
        ParseResult::Done(d, _) => d,
        r => return r.failure(),
    };
    run1(s, d, c)
}

/// The end of a part that may be missing: after it where it was read, else
/// where it would have started.
fn optional_end<T: DeepView>(r: ParseResult<T>, p: usize) -> (q: usize)
    requires
        !(r is InvalidComment),
    ensures
        l::optional_part(r.deep_view(), p as int) == Step::<()>::Done(q as int, ()),
        r matches ParseResult::Done(e, _) ==> q == e,
        !(r is Done) ==> q == p,
{
    match r {
        ParseResult::Done(e, _) => e,
        _ => p,
    }
}

/// A hexadecimal literal.
pub fn hex_lit_at(s: &[u8], p: usize) -> (res: ParseResult<()>)
    requires
        p <= s@.len(),
    ensures
        res.deep_view() == l::hex_lit(s@, p as int),
        within(res, p as int, s@),
{
    let a = match tag(s, p, "-") {
        ParseResult::Done(a, _) => a,
        ParseResult::Error => p,
        r => return r.failure(),
    };
    let b = match tag(s, a, "0x") {
        ParseResult::Done(b, _) => b,
        ParseResult::Error => match tag(s, a, "0X") {
            ParseResult::Done(b, _) => b,
            r => return r.failure(),
        },
        r => return r.failure(),
    };
    let c = match run1(s, b, ByteClass::HexDigit) {
        ParseResult::Done(c, _) => c,
        r => return r.failure(),
    };
    let e = optional_end(fraction_at(s, c, ByteClass::HexDigit), c);
    let q = optional_end(float_pow_at(s, e), e);
    ParseResult::Done(q, ())
}

/// A decimal literal.
pub fn dec_lit_at(s: &[u8], p: usize) -> (res: ParseResult<()>)
    requires
        p <= s@.len(),
    ensures
        res.deep_view() == l::dec_lit(s@, p as int),
        within(res, p as int, s@),
{
    let a = match tag(s, p, "-") {
        ParseResult::Done(a, _) => a,
        ParseResult::Error => p,
        r => return r.failure(),
    };
    let c = match run1(s, a, ByteClass::Digit) {
        ParseResult::Done(c, _) => c,
        r => return r.failure(),
    };
    let e = optional_end(fraction_at(s, c, ByteClass::Digit), c);
    let q = optional_end(float_mag_at(s, e), e);
    ParseResult::Done(q, ())
}

/// A number literal, hexadecimal first.
pub fn num_lit_at(s: &[u8], p: usize) -> (res: ParseResult<NumLit>)
    requires
        p <= s@.len(),
    ensures
        res.deep_view() == l::num_lit(s@, p as int),
        within(res, p as int, s@),
{
    match hex_lit_at(s, p) {
        ParseResult::Done(q, _) => ParseResult::Done(q, NumLit::Hex),
        ParseResult::Error => match dec_lit_at(s, p) {
            ParseResult::Done(q, _) => ParseResult::Done(q, NumLit::Dec),
            r => r.failure(),
        },
        r => r.failure(),
    }
}

/// A string, a number literal or `nil`.
pub fn lua_value_at(s: &[u8], p: usize) -> (res: ParseResult<LuaValue>)
    requires
        p <= s@.len(),
    ensures
        res.deep_view() == l::lua_value(s@, p as int),
        within(res, p as int, s@),
{
    match lua_string_at(s, p) {
        ParseResult::Done(q, t) => ParseResult::Done(q, LuaValue::String(t)),
        ParseResult::Error => match num_lit_at(s, p) {
            ParseResult::Done(q, k) => ParseResult::Done(q, LuaValue::Number(k)),
            ParseResult::Error => match lua_nil_at(s, p) {
                ParseResult::Done(q, _) => ParseResult::Done(q, LuaValue::Nil),
                r => r.failure(),
            },
            r => r.failure(),
        },
        r => r.failure(),
    }
}

/// `local`, word breaks, the name, `=` between optional word breaks, and a
/// value; the name is the value of the whole.
pub fn local_assign_at(s: &[u8], p: usize) -> (res: ParseResult<String>)
    requires
        p <= s@.len(),
    ensures
        res.deep_view() == l::local_assign(s@, p as int),
        within(res, p as int, s@),
{
    let a = match tag(s, p, "local") {
        ParseResult::Done(a, _) => a,
        r => return r.failure(),
    };
    let b = match brs1_at(s, a) {
        ParseResult::Done(b, _) => b,
        r => return r.failure(),
    };
    let (c, w) = match word_at(s, b) {
        ParseResult::Done(c, w) => (c, w),
        r => return r.failure(),
    };
    let d = match brs0_at(s, c) {
        ParseResult::Done(d, _) => d,
        r => return r.failure(),
    };
    let e = match tag(s, d, "=") {
        ParseResult::Done(e, _) => e,
        r => return r.failure(),
    };
    let f = match brs0_at(s, e) {
        ParseResult::Done(f, _) => f,
        r => return r.failure(),
    };
    match lua_value_at(s, f) {
        ParseResult::Done(q, _) => ParseResult::Done(q, w),
        r => r.failure(),
    }
}

/// A `'` or `"` string at the start of `input`.
pub fn lua_string(input: &[u8]) -> (res: ParseResult<String>)
    ensures
        res.deep_view() == l::lua_string(input@, 0),
        within(res, 0, input@),
{
    lua_string_at(input, 0)
}

/// A number literal at the start of `input`.
pub fn num_lit(input: &[u8]) -> (res: ParseResult<NumLit>)
    ensures
        res.deep_view() == l::num_lit(input@, 0),
        within(res, 0, input@),
{
    num_lit_at(input, 0)
}

/// A `local` definition at the start of `input`.
pub fn local_define(input: &[u8]) -> (res: ParseResult<String>)
    ensures
        res.deep_view() == l::local_define(input@, 0),
        within(res, 0, input@),
{
    local_define_at(input, 0)
}

/// A `local` assignment at the start of `input`.
pub fn local_assign(input: &[u8]) -> (res: ParseResult<String>)
    ensures
        res.deep_view() == l::local_assign(input@, 0),
        within(res, 0, input@),
{
    local_assign_at(input, 0)
}

} // verus!
