//! The `.proto` parser. Each function parses from a position of the input
//! and gives exactly the outcome that the grammar in
//! [`crate::proto2lua::grammar`] describes.
use vstd::prelude::*;
use crate::proto2lua::grammar as g;
use crate::proto2lua::grammar::{ByteClass, Step};
use crate::proto2lua::types::{empty_message, SpecField, SpecMessage, SpecOneOf};
use crate::proto2lua::types::{
    Enumerator, Field, FieldType, FileDescriptor, Frequency, Message, OneOf, Syntax,
};
use crate::text::text_between;

verus! {

/// The outcome of a parser.
pub enum ParseResult<T> {
    /// Success: the position after what was read, and the value read.
    Done(usize, T),
    /// The input does not match.
    Error,
    /// The input ended before the parser could decide.
    Incomplete,
    /// A documentation comment is not valid UTF-8; the tool gives up there.
    InvalidComment,
}

impl<T: DeepView> DeepView for ParseResult<T> {
    type V = Step<T::V>;

    open spec fn deep_view(&self) -> Step<T::V> {
        match self {
            ParseResult::Done(q, v) => Step::Done(*q as int, v.deep_view()),
            ParseResult::Error => Step::Error,
            ParseResult::Incomplete => Step::Incomplete,
            ParseResult::InvalidComment => Step::InvalidComment,
        }
    }
}

/// A result whose success stays between `p` and the end of `s`.
pub open spec fn within<T>(r: ParseResult<T>, p: int, s: Seq<u8>) -> bool {
    r matches ParseResult::Done(q, _) ==> p <= q <= s.len()
}

/// The view of a result whose value is a position.
pub open spec fn pos_view(r: ParseResult<usize>) -> Step<int> {
    match r {
        ParseResult::Done(q, v) => Step::Done(q as int, v as int),
        ParseResult::Error => Step::Error,
        ParseResult::Incomplete => Step::Incomplete,
        ParseResult::InvalidComment => Step::InvalidComment,
    }
}

impl<T: DeepView> ParseResult<T> {
    /// This failure, as a result of another type.
    pub fn failure<U: DeepView>(self) -> (r: ParseResult<U>)
        ensures
            r.deep_view() == g::fail::<T::V, U::V>(self.deep_view()),
            r !is Done,
    {
        match self {
            ParseResult::Incomplete => ParseResult::Incomplete,
            ParseResult::InvalidComment => ParseResult::InvalidComment,
            _ => ParseResult::Error,
        }
    }
}

/// The failure of a position result, as a result of another type.
pub(crate) fn pos_failure<U: DeepView>(r: ParseResult<usize>) -> (res: ParseResult<U>)
    ensures
        res.deep_view() == g::fail::<int, U::V>(pos_view(r)),
        res !is Done,
{
    match r {
        ParseResult::Incomplete => ParseResult::Incomplete,
        ParseResult::InvalidComment => ParseResult::InvalidComment,
        _ => ParseResult::Error,
    }
}

/// The ASCII text `t` at `p`.
pub fn tag(s: &[u8], p: usize, t: &str) -> (res: ParseResult<()>)
    requires
        p <= s@.len(),
    ensures
        res.deep_view() == g::tag(s@, p as int, t@),
        within(res, p as int, s@),
{
    let n = t.unicode_len();
    let len = s.len();
    let mut i: usize = 0;
    while i < n && i < len - p
        invariant
            len == s@.len(),
            p <= s@.len(),
            n == t@.len(),
            i <= n,
            i <= s@.len() - p,
            forall|j: int| 0 <= j < i ==> g::byte_is(s@[p + j], t@[j]),
        decreases n - i,
    {
        let c = t.get_char(i);
        if (s[p + i] as u32) != (c as u32) {
            assert(!g::byte_is(s@[p + i], t@[i as int]));
            return ParseResult::Error;
        }
        i = i + 1;
    }
    if i < n {
        ParseResult::Incomplete
    } else {
        assert(i == n);
        ParseResult::Done(p + n, ())
    }
}

/// Whether `b` is of class `c`.
pub fn in_class(c: ByteClass, b: u8) -> (r: bool)
    ensures
        r == g::in_class(c, b),
{
    match c {
        ByteClass::Word => (97 <= b && b <= 122) || (65 <= b && b <= 90) || (48 <= b && b <= 57)
            || b == 95 || b == 46,
        ByteClass::LuaWord => (97 <= b && b <= 122) || (65 <= b && b <= 90) || (48 <= b && b
            <= 57) || b == 95,
        ByteClass::Digit => 48 <= b && b <= 57,
        ByteClass::HexDigit => (48 <= b && b <= 57) || (97 <= b && b <= 102) || (65 <= b && b
            <= 70),
        ByteClass::Space => b == 32 || b == 9,
        ByteClass::MultiSpace => b == 32 || b == 9 || b == 13 || b == 10,
    }
}

/// Whether `b` may stand in a name: a letter, a digit, `_` or `.`.
pub fn is_word(b: u8) -> (r: bool)
    ensures
        r == g::in_class(ByteClass::Word, b),
{
    in_class(ByteClass::Word, b)
}

/// The end of the longest run of bytes of class `c` from `p`.
pub fn span(s: &[u8], p: usize, c: ByteClass) -> (q: usize)
    requires
        p <= s@.len(),
    ensures
        q == g::span(s@, p as int, c),
        p <= q <= s@.len(),
{
    let mut i = p;
    while i < s.len() && in_class(c, s[i])
        invariant
            p <= i <= s@.len(),
            g::span(s@, p as int, c) == g::span(s@, i as int, c),
        decreases s@.len() - i,
    {
        i = i + 1;
    }
    i
}

/// A nonempty run of bytes of class `c`.
pub fn run1(s: &[u8], p: usize, c: ByteClass) -> (res: ParseResult<()>)
    requires
        p <= s@.len(),
    ensures
        res.deep_view() == g::run1(s@, p as int, c),
        within(res, p as int, s@),
{
    if p >= s.len() {
        return ParseResult::Incomplete;
    }
    let q = span(s, p, c);
    if q == p {
        ParseResult::Error
    } else {
        ParseResult::Done(q, ())
    }
}

/// Whether the ASCII text `t`, of `n` characters, occurs at `i`.
fn occurs_at(s: &[u8], i: usize, t: &str, n: usize) -> (r: bool)
    requires
        n == t@.len(),
        i + n <= s@.len(),
    ensures
        r == g::occurs_at(s@, i as int, t@),
{
    let len = s.len();
    let mut j: usize = 0;
    while j < n
        invariant
            len == s@.len(),
            n == t@.len(),
            i + n <= s@.len(),
            j <= n,
            forall|k: int| 0 <= k < j ==> g::byte_is(s@[i + k], t@[k]),
        decreases n - j,
    {
        let c = t.get_char(j);
        if (s[i + j] as u32) != (c as u32) {
            assert(!g::byte_is(s@[i + j], t@[j as int]));
            return false;
        }
        j = j + 1;
    }
    true
}

/// The first occurrence of `t` at or after `p`.
fn find(s: &[u8], p: usize, t: &str) -> (r: Option<usize>)
    requires
        p <= s@.len(),
    ensures
        r matches Some(i) ==> g::find(s@, p as int, t@) == Some(i as int),
        r is None ==> g::find(s@, p as int, t@) is None,
        r matches Some(i) ==> p <= i && i + t@.len() <= s@.len(),
{
    let n = t.unicode_len();
    if n > s.len() {
        return None;
    }
    let mut i = p;
    while i <= s.len() - n
        invariant
            n == t@.len(),
            n <= s@.len(),
            p <= i <= s@.len(),
            g::find(s@, p as int, t@) == g::find(s@, i as int, t@),
        decreases s@.len() - i,
    {
        if occurs_at(s, i, t, n) {
            return Some(i);
        }
        i = i + 1;
    }
    None
}

/// Everything up to the next `t`; the value is where `t` starts.
pub fn until(s: &[u8], p: usize, t: &str) -> (res: ParseResult<usize>)
    requires
        p <= s@.len(),
    ensures
        pos_view(res) == g::until(s@, p as int, t@),
        within(res, p as int, s@),
        res matches ParseResult::Done(q, i) ==> q == i,
{
    let n = t.unicode_len();
    if s.len() - p < n {
        return ParseResult::Incomplete;
    }
    match find(s, p, t) {
        Some(i) => ParseResult::Done(i, i),
        None => ParseResult::Error,
    }
}

/// Everything up to and including the next `t`; the value is where `t` starts.
pub fn until_consume(s: &[u8], p: usize, t: &str) -> (res: ParseResult<usize>)
    requires
        p <= s@.len(),
    ensures
        pos_view(res) == g::until_consume(s@, p as int, t@),
        within(res, p as int, s@),
        res matches ParseResult::Done(q, i) ==> p <= i <= q,
{
    let n = t.unicode_len();
    if s.len() - p < n {
        return ParseResult::Incomplete;
    }
    match find(s, p, t) {
        Some(i) => ParseResult::Done(i + n, i),
        None => ParseResult::Error,
    }
}

/// A value of a digit byte.
pub(crate) fn digit_value(b: u8) -> (v: u64)
    requires
        g::in_class(ByteClass::HexDigit, b),
    ensures
        v == g::digit_value(b),
        v < 16,
{
    if 48 <= b && b <= 57 {
        (b - 48) as u64
    } else if 97 <= b && b <= 102 {
        (b - 87) as u64
    } else {
        (b - 55) as u64
    }
}

/// Appending a digit never makes a number smaller.
pub(crate) proof fn lemma_digits_value_grows(d: Seq<u8>, k: int, base: nat)
    requires
        0 <= k <= d.len(),
        base >= 1,
    ensures
        g::digits_value(d.subrange(0, k), base) <= g::digits_value(d, base),
    decreases d.len() - k,
{
    if k < d.len() {
        let e = d.subrange(0, k + 1);
        lemma_digits_value_grows(d, k + 1, base);
        assert(e.drop_last() =~= d.subrange(0, k));
        let x = g::digits_value(d.subrange(0, k), base);
        assert(x <= x * base) by (nonlinear_arith)
            requires
                base >= 1,
        ;
    } else {
        assert(d.subrange(0, k) =~= d);
    }
}

/// The value of the digits from `a` to `b` in base `base`, when it fits in an `i32`.
fn digits_i32(s: &[u8], a: usize, b: usize, base: u64) -> (r: Option<i32>)
    requires
        a <= b <= s@.len(),
        base == 10 || base == 16,
        forall|i: int| a <= i < b ==> g::in_class(ByteClass::HexDigit, #[trigger] s@[i]),
    ensures
        r is Some <==> g::digits_value(s@.subrange(a as int, b as int), base as nat) <= i32::MAX,
        r matches Some(v) ==> v == g::digits_value(s@.subrange(a as int, b as int), base as nat),
{
    let mut v: u64 = 0;
    let mut i = a;
    assert(s@.subrange(a as int, a as int) =~= Seq::<u8>::empty());
    while i < b
        invariant
            a <= i <= b <= s@.len(),
            base == 10 || base == 16,
            forall|j: int| a <= j < b ==> g::in_class(ByteClass::HexDigit, #[trigger] s@[j]),
            v == g::digits_value(s@.subrange(a as int, i as int), base as nat),
            v <= i32::MAX,
        decreases b - i,
    {
        let d = digit_value(s[i]);
        assert(s@.subrange(a as int, i + 1).drop_last() =~= s@.subrange(a as int, i as int));
        assert(v * base + d <= 0x7fff_ffffu64 * 16 + 15) by (nonlinear_arith)
            requires
                v <= 0x7fff_ffff,
                base <= 16,
                d < 16,
        ;
        v = v * base + d;
        i = i + 1;
        if v > 0x7fff_ffff {
            proof {
                let full = s@.subrange(a as int, b as int);
                assert(full.subrange(0, i - a) =~= s@.subrange(a as int, i as int));
                lemma_digits_value_grows(full, i - a, base as nat);
            }
            return None;
        }
    }
    Some(v as i32)
}

/// A name: a run of word bytes, possibly empty.
pub fn word_at(s: &[u8], p: usize) -> (res: ParseResult<String>)
    requires
        p <= s@.len(),
    ensures
        res.deep_view() == g::word(s@, p as int),
        within(res, p as int, s@),
{
    let q = span(s, p, ByteClass::Word);
    match text_between(s, p, q) {
        Some(w) => ParseResult::Done(q, w),
        None => ParseResult::Error,
    }
}

/// Every byte of a run of class `c` is of class `c`.
pub(crate) proof fn lemma_span_in_class(s: Seq<u8>, p: int, c: ByteClass)
    requires
        0 <= p <= s.len(),
    ensures
        p <= g::span(s, p, c) <= s.len(),
        forall|i: int| p <= i < g::span(s, p, c) ==> g::in_class(c, #[trigger] s[i]),
    decreases s.len() - p,
{
    if p < s.len() && g::in_class(c, s[p]) {
        lemma_span_in_class(s, p + 1, c);
    }
}

/// A decimal number that fits in an `i32`.
pub fn integer_at(s: &[u8], p: usize) -> (res: ParseResult<i32>)
    requires
        p <= s@.len(),
    ensures
        res.deep_view() == g::integer(s@, p as int),
        within(res, p as int, s@),
{
    match run1(s, p, ByteClass::Digit) {
        ParseResult::Done(q, _) => {
            proof {
                lemma_span_in_class(s@, p as int, ByteClass::Digit);
            }
            match digits_i32(s, p, q, 10) {
                Some(v) => ParseResult::Done(q, v),
                None => ParseResult::Error,
            }
        },
        r => r.failure(),
    }
}

/// `0x` and hexadecimal digits whose value fits in an `i32`.
pub fn hex_integer_at(s: &[u8], p: usize) -> (res: ParseResult<i32>)
    requires
        p <= s@.len(),
    ensures
        res.deep_view() == g::hex_integer(s@, p as int),
        within(res, p as int, s@),
{
    let a = match tag(s, p, "0x") {
        ParseResult::Done(a, _) => a,
        r => return r.failure(),
    };
    match run1(s, a, ByteClass::HexDigit) {
        ParseResult::Done(q, _) => {
            proof {
                lemma_span_in_class(s@, a as int, ByteClass::HexDigit);
            }
            match digits_i32(s, a, q, 16) {
                Some(v) => ParseResult::Done(q, v),
                None => ParseResult::Error,
            }
        },
        r => r.failure(),
    }
}

/// A field or enumeration value number.
pub fn number_at(s: &[u8], p: usize) -> (res: ParseResult<i32>)
    requires
        p <= s@.len(),
    ensures
        res.deep_view() == g::number(s@, p as int),
        within(res, p as int, s@),
{
    match hex_integer_at(s, p) {
        ParseResult::Error => integer_at(s, p),
        r => r,
    }
}

/// A `//` comment up to and including the end of its line.
pub fn comment_at(s: &[u8], p: usize) -> (res: ParseResult<()>)
    requires
        p <= s@.len(),
    ensures
        res.deep_view() == g::comment(s@, p as int),
        within(res, p as int, s@),
{
    let a = match tag(s, p, "//") {
        ParseResult::Done(a, _) => a,
        r => return r.failure(),
    };
    match until_consume(s, a, "\n") {
        ParseResult::Done(q, _) => ParseResult::Done(q, ()),
        r => pos_failure(r),
    }
}

/// A `/* */` comment.
pub fn block_comment_at(s: &[u8], p: usize) -> (res: ParseResult<()>)
    requires
        p <= s@.len(),
    ensures
        res.deep_view() == g::block_comment(s@, p as int),
        within(res, p as int, s@),
{
    let a = match tag(s, p, "/*") {
        ParseResult::Done(a, _) => a,
        r => return r.failure(),
    };
    match until_consume(s, a, "*/") {
        ParseResult::Done(q, _) => ParseResult::Done(q, ()),
        r => pos_failure(r),
    }
}

/// A word break: white space or a comment.
pub fn br_at(s: &[u8], p: usize) -> (res: ParseResult<()>)
    requires
        p <= s@.len(),
    ensures
        res.deep_view() == g::br(s@, p as int),
        within(res, p as int, s@),
{
    match run1(s, p, ByteClass::MultiSpace) {
        ParseResult::Error => match comment_at(s, p) {
            ParseResult::Error => block_comment_at(s, p),
            r => r,
        },
        r => r,
    }
}

/// The parsers without a value that are repeated.
#[derive(Clone, Copy)]
pub enum UnitParser {
    Br,
    Slash,
    Space,
    MultiSpace,
    Semicolon,
}

pub open spec fn unit_parser_at(s: Seq<u8>, k: UnitParser) -> spec_fn(int) -> Step<()> {
    match k {
        UnitParser::Br => g::br_at(s),
        UnitParser::Slash => g::slash_at(s),
        UnitParser::Space => g::space_at(s),
        UnitParser::MultiSpace => g::multispace_at(s),
        UnitParser::Semicolon => g::semicolon_at(s),
    }
}

fn unit_parse(s: &[u8], p: usize, k: UnitParser) -> (res: ParseResult<()>)
    requires
        p <= s@.len(),
    ensures
        res.deep_view() == unit_parser_at(s@, k)(p as int),
        within(res, p as int, s@),
{
    match k {
        UnitParser::Br => br_at(s, p),
        UnitParser::Slash => tag(s, p, "/"),
        UnitParser::Space => run1(s, p, ByteClass::Space),
        UnitParser::MultiSpace => run1(s, p, ByteClass::MultiSpace),
        UnitParser::Semicolon => tag(s, p, ";"),
    }
}

/// Zero or more repetitions of a parser without a value.
pub fn many0_unit(s: &[u8], p: usize, k: UnitParser) -> (res: ParseResult<()>)
    requires
        p <= s@.len(),
    ensures
        res.deep_view() == g::to(g::many0(s@, p as int, unit_parser_at(s@, k)), ()),
        within(res, p as int, s@),
{
    let ghost f = unit_parser_at(s@, k);
    let mut i = p;
    loop
        invariant
            p <= i <= s@.len(),
            f == unit_parser_at(s@, k),
            g::to(g::many0(s@, p as int, f), ()) == g::to(g::many0(s@, i as int, f), ()),
        decreases s@.len() - i,
    {
        if i >= s.len() {
            return ParseResult::Done(i, ());
        }
        match unit_parse(s, i, k) {
            ParseResult::Error => {
                return ParseResult::Done(i, ());
            },
            ParseResult::Done(q, _) => {
                if q <= i {
                    return ParseResult::Error;
                }
                i = q;
            },
            r => {
                return r.failure();
            },
        }
    }
}

/// Any number of word breaks.
pub fn brs0_at(s: &[u8], p: usize) -> (res: ParseResult<()>)
    requires
        p <= s@.len(),
    ensures
        res.deep_view() == g::brs0(s@, p as int),
        within(res, p as int, s@),
{
    many0_unit(s, p, UnitParser::Br)
}

/// At least one word break.
pub fn brs1_at(s: &[u8], p: usize) -> (res: ParseResult<()>)
    requires
        p <= s@.len(),
    ensures
        res.deep_view() == g::brs1(s@, p as int),
        within(res, p as int, s@),
{
    let ghost f = g::br_at(s@);
    let mut i = match br_at(s, p) {
        ParseResult::Done(q, _) => q,
        r => return r.failure(),
    };
    if i >= s.len() {
        return ParseResult::Done(i, ());
    }
    loop
        invariant
            p <= i <= s@.len(),
            f == g::br_at(s@),
            g::brs1(s@, p as int) == g::to(g::many1_rest(s@, i as int, f), ()),
        decreases s@.len() - i,
    {
        if i >= s.len() {
            return ParseResult::Done(i, ());
        }
        match br_at(s, i) {
            ParseResult::Error => {
                return ParseResult::Done(i, ());
            },
            ParseResult::Done(q, _) => {
                if q <= i {
                    return ParseResult::Done(i, ());
                }
                i = q;
            },
            r => {
                return r.failure();
            },
        }
    }
}

/// A documentation comment: `//`, any further slashes, and the text of the
/// rest of the line.
pub fn take_comment_at(s: &[u8], p: usize) -> (res: ParseResult<String>)
    requires
        p <= s@.len(),
    ensures
        res.deep_view() == g::take_comment(s@, p as int),
        within(res, p as int, s@),
{
    let a = match tag(s, p, "//") {
        ParseResult::Done(a, _) => a,
        r => return r.failure(),
    };
    let b = match many0_unit(s, a, UnitParser::Slash) {
        ParseResult::Done(b, _) => b,
        r => return r.failure(),
    };
    match until_consume(s, b, "\n") {
        ParseResult::Done(q, e) => match text_between(s, b, e) {
            Some(c) => ParseResult::Done(q, c),
            None => ParseResult::InvalidComment,
        },
        r => pos_failure(r),
    }
}

/// A `/* */` comment whose text is the value.
pub fn take_block_comment_at(s: &[u8], p: usize) -> (res: ParseResult<String>)
    requires
        p <= s@.len(),
    ensures
        res.deep_view() == g::take_block_comment(s@, p as int),
        within(res, p as int, s@),
{
    let a = match tag(s, p, "/*") {
        ParseResult::Done(a, _) => a,
        r => return r.failure(),
    };
    match until_consume(s, a, "*/") {
        ParseResult::Done(q, e) => match text_between(s, a, e) {
            Some(c) => ParseResult::Done(q, c),
            None => ParseResult::InvalidComment,
        },
        r => pos_failure(r),
    }
}

/// A documentation comment of either form.
pub fn take_valid_comment_at(s: &[u8], p: usize) -> (res: ParseResult<String>)
    requires
        p <= s@.len(),
    ensures
        res.deep_view() == g::take_valid_comment(s@, p as int),
        within(res, p as int, s@),
{
    match take_comment_at(s, p) {
        ParseResult::Error => take_block_comment_at(s, p),
        r => r,
    }
}

/// `//` and the text up to the end of the line, which is not read.
pub fn comment2_at(s: &[u8], p: usize) -> (res: ParseResult<String>)
    requires
        p <= s@.len(),
    ensures
        res.deep_view() == g::comment2(s@, p as int),
        within(res, p as int, s@),
{
    let a = match tag(s, p, "//") {
        ParseResult::Done(a, _) => a,
        r => return r.failure(),
    };
    match until(s, a, "\n") {
        ParseResult::Done(q, e) => match text_between(s, a, e) {
            Some(c) => ParseResult::Done(q, c),
            None => ParseResult::Done(q, String::new()),
        },
        r => pos_failure(r),
    }
}

/// `syntax = "proto2";` or `syntax = "proto3";`.
pub fn syntax_at(s: &[u8], p: usize) -> (res: ParseResult<Syntax>)
    requires
        p <= s@.len(),
    ensures
        res.deep_view() == g::syntax(s@, p as int),
        within(res, p as int, s@),
{
    let a = match tag(s, p, "syntax") {
        ParseResult::Done(a, _) => a,
        r => return r.failure(),
    };
    let b = match brs0_at(s, a) {
        ParseResult::Done(b, _) => b,
        r => return r.failure(),
    };
    let c = match tag(s, b, "=") {
        ParseResult::Done(c, _) => c,
        r => return r.failure(),
    };
    let d = match brs0_at(s, c) {
        ParseResult::Done(d, _) => d,
        r => return r.failure(),
    };
    let (e, v) = match tag(s, d, "\"proto2\"") {
        ParseResult::Done(e, _) => (e, Syntax::Proto2),
        ParseResult::Error => match tag(s, d, "\"proto3\"") {
            ParseResult::Done(e, _) => (e, Syntax::Proto3),
            r => return r.failure(),
        },
        r => return r.failure(),
    };
    let f = match brs0_at(s, e) {
        ParseResult::Done(f, _) => f,
        r => return r.failure(),
    };
    match tag(s, f, ";") {
        ParseResult::Done(q, _) => ParseResult::Done(q, v),
        r => r.failure(),
    }
}

/// `import "path";`; the value is the path.
pub fn import_at(s: &[u8], p: usize) -> (res: ParseResult<String>)
    requires
        p <= s@.len(),
    ensures
        res.deep_view() == g::import(s@, p as int),
        within(res, p as int, s@),
{
    let a = match tag(s, p, "import") {
        ParseResult::Done(a, _) => a,
        r => return r.failure(),
    };
    let b = match brs1_at(s, a) {
        ParseResult::Done(b, _) => b,
        r => return r.failure(),
    };
    let c = match tag(s, b, "\"") {
        ParseResult::Done(c, _) => c,
        r => return r.failure(),
    };
    let (d, e) = match until(s, c, "\"") {
        ParseResult::Done(d, e) => (d, e),
        r => return pos_failure(r),
    };
    let path = match text_between(s, c, e) {
        Some(path) => path,
        None => return ParseResult::Error,
    };
    let f = match tag(s, d, "\"") {
        ParseResult::Done(f, _) => f,
        r => return r.failure(),
    };
    let g = match brs0_at(s, f) {
        ParseResult::Done(g, _) => g,
        r => return r.failure(),
    };
    match tag(s, g, ";") {
        ParseResult::Done(q, _) => ParseResult::Done(q, path),
        r => r.failure(),
    }
}

/// `package name;`; the value is the name.
pub fn package_at(s: &[u8], p: usize) -> (res: ParseResult<String>)
    requires
        p <= s@.len(),
    ensures
        res.deep_view() == g::package(s@, p as int),
        within(res, p as int, s@),
{
    let a = match tag(s, p, "package") {
        ParseResult::Done(a, _) => a,
        r => return r.failure(),
    };
    let b = match brs1_at(s, a) {
        ParseResult::Done(b, _) => b,
        r => return r.failure(),
    };
    let (c, w) = match word_at(s, b) {
        ParseResult::Done(c, w) => (c, w),
        r => return r.failure(),
    };
    let d = match brs0_at(s, c) {
        ParseResult::Done(d, _) => d,
        r => return r.failure(),
    };
    match tag(s, d, ";") {
        ParseResult::Done(q, _) => ParseResult::Done(q, w),
        r => r.failure(),
    }
}

/// `extensions ...;`, which is skipped.
pub fn extensions_at(s: &[u8], p: usize) -> (res: ParseResult<()>)
    requires
        p <= s@.len(),
    ensures
        res.deep_view() == g::extensions(s@, p as int),
        within(res, p as int, s@),
{
    let a = match tag(s, p, "extensions") {
        ParseResult::Done(a, _) => a,
        r => return r.failure(),
    };
    match until_consume(s, a, ";") {
        ParseResult::Done(q, _) => ParseResult::Done(q, ()),
        r => pos_failure(r),
    }
}

/// `option ...;`, which is skipped.
pub fn option_ignore_at(s: &[u8], p: usize) -> (res: ParseResult<()>)
    requires
        p <= s@.len(),
    ensures
        res.deep_view() == g::option_ignore(s@, p as int),
        within(res, p as int, s@),
{
    let a = match tag(s, p, "option") {
        ParseResult::Done(a, _) => a,
        r => return r.failure(),
    };
    let b = match brs1_at(s, a) {
        ParseResult::Done(b, _) => b,
        r => return r.failure(),
    };
    match until_consume(s, b, ";") {
        ParseResult::Done(q, _) => ParseResult::Done(q, ()),
        r => pos_failure(r),
    }
}

/// `optional`, `repeated` or `required`.
pub fn frequency_at(s: &[u8], p: usize) -> (res: ParseResult<Frequency>)
    requires
        p <= s@.len(),
    ensures
        res.deep_view() == g::frequency(s@, p as int),
        within(res, p as int, s@),
{
    match tag(s, p, "optional") {
        ParseResult::Done(q, _) => ParseResult::Done(q, Frequency::Optional),
        ParseResult::Error => match tag(s, p, "repeated") {
            ParseResult::Done(q, _) => ParseResult::Done(q, Frequency::Repeated),
            ParseResult::Error => match tag(s, p, "required") {
                ParseResult::Done(q, _) => ParseResult::Done(q, Frequency::Required),
                r => r.failure(),
            },
            r => r.failure(),
        },
        r => r.failure(),
    }
}

/// One scalar keyword: `Error` sends the caller on to the next one.
fn keyword(s: &[u8], p: usize, t: &str, v: FieldType) -> (res: ParseResult<FieldType>)
    requires
        p <= s@.len(),
    ensures
        res.deep_view() == g::to(g::tag(s@, p as int, t@), v.deep_view()),
        within(res, p as int, s@),
{
    match tag(s, p, t) {
        ParseResult::Done(q, _) => ParseResult::Done(q, v),
        r => r.failure(),
    }
}

/// A scalar type keyword.
pub fn scalar_type_at(s: &[u8], p: usize) -> (res: ParseResult<FieldType>)
    requires
        p <= s@.len(),
    ensures
        res.deep_view() == g::scalar_type(s@, p as int),
        within(res, p as int, s@),
{
    let r = keyword(s, p, "int32", FieldType::Int32);
    if !matches!(r, ParseResult::Error) { return r; }
    let r = keyword(s, p, "int64", FieldType::Int64);
    if !matches!(r, ParseResult::Error) { return r; }
    let r = keyword(s, p, "uint32", FieldType::Uint32);
    if !matches!(r, ParseResult::Error) { return r; }
    let r = keyword(s, p, "uint64", FieldType::Uint64);
    if !matches!(r, ParseResult::Error) { return r; }
    let r = keyword(s, p, "sint32", FieldType::Sint32);
    if !matches!(r, ParseResult::Error) { return r; }
    let r = keyword(s, p, "sint64", FieldType::Sint64);
    if !matches!(r, ParseResult::Error) { return r; }
    let r = keyword(s, p, "fixed32", FieldType::Fixed32);
    if !matches!(r, ParseResult::Error) { return r; }
    let r = keyword(s, p, "sfixed32", FieldType::Sfixed32);
    if !matches!(r, ParseResult::Error) { return r; }
    let r = keyword(s, p, "fixed64", FieldType::Fixed64);
    if !matches!(r, ParseResult::Error) { return r; }
    let r = keyword(s, p, "sfixed64", FieldType::Sfixed64);
    if !matches!(r, ParseResult::Error) { return r; }
    let r = keyword(s, p, "bool", FieldType::Bool);
    if !matches!(r, ParseResult::Error) { return r; }
    let r = keyword(s, p, "string", FieldType::StringCow);
    if !matches!(r, ParseResult::Error) { return r; }
    let r = keyword(s, p, "bytes", FieldType::BytesCow);
    if !matches!(r, ParseResult::Error) { return r; }
    let r = keyword(s, p, "float", FieldType::Float);
    if !matches!(r, ParseResult::Error) { return r; }
    keyword(s, p, "double", FieldType::Double)
}

/// A field type: a scalar keyword, a map, or the name of a message or enum.
pub fn field_type_at(s: &[u8], p: usize) -> (res: ParseResult<FieldType>)
    requires
        p <= s@.len(),
    ensures
        res.deep_view() == g::field_type(s@, p as int),
        within(res, p as int, s@),
    decreases s@.len() - p, 1int,
{
    let r = scalar_type_at(s, p);
    if !matches!(r, ParseResult::Error) {
        return r;
    }
    match map_field_at(s, p) {
        ParseResult::Done(q, kv) => {
            let (k, v) = kv;
            return ParseResult::Done(q, FieldType::Map_(Box::new(k), Box::new(v)));
        },
        ParseResult::Error => {},
        r => return r.failure(),
    }
    match word_at(s, p) {
        ParseResult::Done(q, w) => ParseResult::Done(q, FieldType::MessageOrEnum(w)),
        r => r.failure(),
    }
}

/// `map<key, value>`; the value is the key and value types.
pub fn map_field_at(s: &[u8], p: usize) -> (res: ParseResult<(FieldType, FieldType)>)
    requires
        p <= s@.len(),
    ensures
        res.deep_view() == g::map_field(s@, p as int),
        within(res, p as int, s@),
    decreases s@.len() - p, 0int,
{
    let a = match tag(s, p, "map") {
        ParseResult::Done(a, _) => a,
        r => return r.failure(),
    };
    let b = match brs0_at(s, a) {
        ParseResult::Done(b, _) => b,
        r => return r.failure(),
    };
    let c = match tag(s, b, "<") {
        ParseResult::Done(c, _) => c,
        r => return r.failure(),
    };
    let d = match brs0_at(s, c) {
        ParseResult::Done(d, _) => d,
        r => return r.failure(),
    };
    if d <= p {
        return ParseResult::Error;
    }
    let (e, k) = match field_type_at(s, d) {
        ParseResult::Done(e, k) => (e, k),
        r => return r.failure(),
    };
    let f = match brs0_at(s, e) {
        ParseResult::Done(f, _) => f,
        r => return r.failure(),
    };
    let g = match tag(s, f, ",") {
        ParseResult::Done(g, _) => g,
        r => return r.failure(),
    };
    let h = match brs0_at(s, g) {
        ParseResult::Done(h, _) => h,
        r => return r.failure(),
    };
    if h <= p {
        return ParseResult::Error;
    }
    let (i, v) = match field_type_at(s, h) {
        ParseResult::Done(i, v) => (i, v),
        r => return r.failure(),
    };
    match tag(s, i, ">") {
        ParseResult::Done(q, _) => ParseResult::Done(q, (k, v)),
        r => r.failure(),
    }
}

/// A list put in front of the items of a successful repetition.
pub open spec fn prepend_all<T>(xs: Seq<T>, r: Step<Seq<T>>) -> Step<Seq<T>> {
    match r {
        Step::Done(q, ys) => Step::Done(q, xs + ys),
        _ => r,
    }
}

proof fn lemma_prepend_all_push<T>(xs: Seq<T>, x: T, r: Step<Seq<T>>)
    ensures
        prepend_all(xs, g::prepend(x, r)) == prepend_all(xs.push(x), r),
{
    if let Step::Done(q, ys) = r {
        assert(xs + (seq![x] + ys) =~= xs.push(x) + ys);
    }
}

proof fn lemma_prepend_all_empty<T>(r: Step<Seq<T>>)
    ensures
        prepend_all(Seq::<T>::empty(), r) == r,
{
    if let Step::Done(q, ys) = r {
        assert(Seq::<T>::empty() + ys =~= ys);
    }
}

/// `[frequency] type name = number;` and an optional trailing comment.
pub fn message_field_at(s: &[u8], p: usize) -> (res: ParseResult<Field>)
    requires
        p <= s@.len(),
    ensures
        res.deep_view() == g::message_field(s@, p as int),
        within(res, p as int, s@),
{
    let (a, fr) = match frequency_at(s, p) {
        ParseResult::Done(a, f) => (a, Some(f)),
        ParseResult::Error => (p, None),
        r => return r.failure(),
    };
    let b = match brs0_at(s, a) {
        ParseResult::Done(b, _) => b,
        r => return r.failure(),
    };
    let (c, ty) = match field_type_at(s, b) {
        ParseResult::Done(c, ty) => (c, ty),
        r => return r.failure(),
    };
    let d = match brs1_at(s, c) {
        ParseResult::Done(d, _) => d,
        r => return r.failure(),
    };
    let (e, name) = match word_at(s, d) {
        ParseResult::Done(e, name) => (e, name),
        r => return r.failure(),
    };
    let f = match brs0_at(s, e) {
        ParseResult::Done(f, _) => f,
        r => return r.failure(),
    };
    let gg = match tag(s, f, "=") {
        ParseResult::Done(gg, _) => gg,
        r => return r.failure(),
    };
    let h = match brs0_at(s, gg) {
        ParseResult::Done(h, _) => h,
        r => return r.failure(),
    };
    let (i, n) = match number_at(s, h) {
        ParseResult::Done(i, n) => (i, n),
        r => return r.failure(),
    };
    let j = match brs0_at(s, i) {
        ParseResult::Done(j, _) => j,
        r => return r.failure(),
    };
    let k = match tag(s, j, ";") {
        ParseResult::Done(k, _) => k,
        r => return r.failure(),
    };
    let l = match many0_unit(s, k, UnitParser::Space) {
        ParseResult::Done(l, _) => l,
        r => return r.failure(),
    };
    let (m, comment) = match take_comment_at(s, l) {
        ParseResult::Done(m, c) => (m, Some(c)),
        ParseResult::Error => (l, None),
        r => return r.failure(),
    };
    let frequency = match fr {
        Some(f) => f,
        None => Frequency::Optional,
    };
    ParseResult::Done(
        m,
        Field {
            name: name,
            frequency: frequency,
            typ: ty,
            number: n,
            default: None,
            packed: None,
            boxed: false,
            deprecated: false,
            comment: comment,
        },
    )
}

/// `oneof name { fields }`.
pub fn one_of_at(s: &[u8], p: usize) -> (res: ParseResult<OneOf>)
    requires
        p <= s@.len(),
    ensures
        res.deep_view() == g::one_of(s@, p as int),
        within(res, p as int, s@),
{
    let a = match tag(s, p, "oneof") {
        ParseResult::Done(a, _) => a,
        r => return r.failure(),
    };
    let b = match brs1_at(s, a) {
        ParseResult::Done(b, _) => b,
        r => return r.failure(),
    };
    let (c, name) = match word_at(s, b) {
        ParseResult::Done(c, name) => (c, name),
        r => return r.failure(),
    };
    let d = match brs0_at(s, c) {
        ParseResult::Done(d, _) => d,
        r => return r.failure(),
    };
    let e = match tag(s, d, "{") {
        ParseResult::Done(e, _) => e,
        r => return r.failure(),
    };
    let (f, fields) = match message_fields1_at(s, e) {
        ParseResult::Done(f, fields) => (f, fields),
        r => return r.failure(),
    };
    let gg = match brs0_at(s, f) {
        ParseResult::Done(gg, _) => gg,
        r => return r.failure(),
    };
    let h = match tag(s, gg, "}") {
        ParseResult::Done(h, _) => h,
        r => return r.failure(),
    };
    match brs0_at(s, h) {
        ParseResult::Done(q, _) => ParseResult::Done(
            q,
            OneOf {
                name: name,
                fields: fields,
                package: String::new(),
                module: String::new(),
                imported: false,
            },
        ),
        r => r.failure(),
    }
}

/// One or more message fields.
fn message_fields1_at(s: &[u8], p: usize) -> (res: ParseResult<Vec<Field>>)
    requires
        p <= s@.len(),
    ensures
        res.deep_view() == g::many1(s@, p as int, g::message_field_at(s@)),
        within(res, p as int, s@),
{
    let ghost f = g::message_field_at(s@);
    let mut fields: Vec<Field> = Vec::new();
    let mut i = match message_field_at(s, p) {
        ParseResult::Done(q, x) => {
            fields.push(x);
            q
        },
        r => return r.failure(),
    };
    assert(fields.deep_view() =~= seq![fields@[0].deep_view()]);
    if i >= s.len() {
        return ParseResult::Done(i, fields);
    }
    proof {
        lemma_prepend_all_empty(g::prepend(fields@[0].deep_view(), g::many1_rest(s@, i as int, f)));
        lemma_prepend_all_push(Seq::empty(), fields@[0].deep_view(), g::many1_rest(s@, i as int, f));
        assert(Seq::<SpecField>::empty().push(fields@[0].deep_view()) =~= fields.deep_view());
    }
    loop
        invariant
            p <= i <= s@.len(),
            f == g::message_field_at(s@),
            g::many1(s@, p as int, f) == prepend_all(fields.deep_view(), g::many1_rest(s@, i as int, f)),
        decreases s@.len() - i,
    {
        if i >= s.len() {
            assert(fields.deep_view() + Seq::<SpecField>::empty() =~= fields.deep_view());
            return ParseResult::Done(i, fields);
        }
        match message_field_at(s, i) {
            ParseResult::Error => {
                assert(fields.deep_view() + Seq::<SpecField>::empty() =~= fields.deep_view());
                return ParseResult::Done(i, fields);
            },
            ParseResult::Done(q, x) => {
                if q <= i {
                    assert(fields.deep_view() + Seq::<SpecField>::empty() =~= fields.deep_view());
                    return ParseResult::Done(i, fields);
                }
                proof {
                    lemma_prepend_all_push(fields.deep_view(), x.deep_view(), g::many1_rest(s@, q as int, f));
                }
                let ghost old_dv = fields.deep_view();
                fields.push(x);
                assert(fields.deep_view() =~= old_dv.push(x.deep_view()));
                i = q;
            },
            r => {
                return r.failure();
            },
        }
    }
}

/// What can stand inside a message body.
pub enum MessageEvent {
    Field(Field),
    OneOf(OneOf),
    Ignore,
}

impl DeepView for MessageEvent {
    type V = g::SpecMessageEvent;

    open spec fn deep_view(&self) -> g::SpecMessageEvent {
        match self {
            MessageEvent::Field(f) => g::SpecMessageEvent::Field(f.deep_view()),
            MessageEvent::OneOf(o) => g::SpecMessageEvent::OneOf(o.deep_view()),
            MessageEvent::Ignore => g::SpecMessageEvent::Ignore,
        }
    }
}

pub fn message_event_at(s: &[u8], p: usize) -> (res: ParseResult<MessageEvent>)
    requires
        p <= s@.len(),
    ensures
        res.deep_view() == g::message_event(s@, p as int),
        within(res, p as int, s@),
{
    match message_field_at(s, p) {
        ParseResult::Done(q, f) => return ParseResult::Done(q, MessageEvent::Field(f)),
        ParseResult::Error => {},
        r => return r.failure(),
    }
    match one_of_at(s, p) {
        ParseResult::Done(q, o) => return ParseResult::Done(q, MessageEvent::OneOf(o)),
        ParseResult::Error => {},
        r => return r.failure(),
    }
    match extensions_at(s, p) {
        ParseResult::Done(q, _) => return ParseResult::Done(q, MessageEvent::Ignore),
        ParseResult::Error => {},
        r => return r.failure(),
    }
    match br_at(s, p) {
        ParseResult::Done(q, _) => ParseResult::Done(q, MessageEvent::Ignore),
        r => r.failure(),
    }
}

/// An optional documentation comment, spaces and `message`; the value is
/// the comment's text, empty when there is none.
pub fn message_begin_at(s: &[u8], p: usize) -> (res: ParseResult<String>)
    requires
        p <= s@.len(),
    ensures
        res.deep_view() == g::message_begin(s@, p as int),
        within(res, p as int, s@),
{
    let (a, comment) = match take_comment_at(s, p) {
        ParseResult::Done(a, c) => (a, Some(c)),
        ParseResult::Error => (p, None),
        r => return r.failure(),
    };
    let b = match many0_unit(s, a, UnitParser::Space) {
        ParseResult::Done(b, _) => b,
        r => return r.failure(),
    };
    match tag(s, b, "message") {
        ParseResult::Done(q, _) => ParseResult::Done(
            q,
            match comment {
                Some(c) => c,
                None => String::new(),
            },
        ),
        r => r.failure(),
    }
}

/// The end of a message or enum: `}`, white space and any number of `;`.
pub fn close_brace_at(s: &[u8], p: usize) -> (res: ParseResult<()>)
    requires
        p <= s@.len(),
    ensures
        res.deep_view() == g::close_brace(s@, p as int),
        within(res, p as int, s@),
{
    let a = match tag(s, p, "}") {
        ParseResult::Done(a, _) => a,
        r => return r.failure(),
    };
    let b = match many0_unit(s, a, UnitParser::MultiSpace) {
        ParseResult::Done(b, _) => b,
        r => return r.failure(),
    };
    many0_unit(s, b, UnitParser::Semicolon)
}

/// A message: its comment, name, fields and oneofs.
pub fn message_at(s: &[u8], p: usize) -> (res: ParseResult<Message>)
    requires
        p <= s@.len(),
    ensures
        res.deep_view() == g::message(s@, p as int),
        within(res, p as int, s@),
{
    let (a, comment) = match message_begin_at(s, p) {
        ParseResult::Done(a, c) => (a, c),
        r => return r.failure(),
    };
    let b = match brs1_at(s, a) {
        ParseResult::Done(b, _) => b,
        r => return r.failure(),
    };
    let (c, name) = match word_at(s, b) {
        ParseResult::Done(c, name) => (c, name),
        r => return r.failure(),
    };
    let d = match brs0_at(s, c) {
        ParseResult::Done(d, _) => d,
        r => return r.failure(),
    };
    let e = match tag(s, d, "{") {
        ParseResult::Done(e, _) => e,
        r => return r.failure(),
    };
    let f0 = match brs0_at(s, e) {
        ParseResult::Done(f0, _) => f0,
        r => return r.failure(),
    };
    let ghost base = SpecMessage { name: name@, msg_comment: Some(comment@), ..empty_message() };
    let (i, fields, oneofs) = match message_body_at(s, f0, Ghost(base)) {
        ParseResult::Done(i, fo) => {
            let (fields, oneofs) = fo;
            (i, fields, oneofs)
        },
        r => return r.failure(),
    };
    let gg = match brs0_at(s, i) {
        ParseResult::Done(gg, _) => gg,
        r => return r.failure(),
    };
    match close_brace_at(s, gg) {
        ParseResult::Done(q, _) => {
            let mut m = Message::default();
            m.name = name;
            m.fields = fields;
            m.oneofs = oneofs;
            m.msg_comment = Some(comment);
            ParseResult::Done(q, m)
        },
        r => r.failure(),
    }
}

/// `NAME = number;` inside an enum.
pub fn enum_field_at(s: &[u8], p: usize) -> (res: ParseResult<(String, i32)>)
    requires
        p <= s@.len(),
    ensures
        res.deep_view() == g::enum_field(s@, p as int),
        within(res, p as int, s@),
{
    let (a, name) = match word_at(s, p) {
        ParseResult::Done(a, name) => (a, name),
        r => return r.failure(),
    };
    let b = match brs0_at(s, a) {
        ParseResult::Done(b, _) => b,
        r => return r.failure(),
    };
    let c = match tag(s, b, "=") {
        ParseResult::Done(c, _) => c,
        r => return r.failure(),
    };
    let d = match brs0_at(s, c) {
        ParseResult::Done(d, _) => d,
        r => return r.failure(),
    };
    let (e, n) = match number_at(s, d) {
        ParseResult::Done(e, n) => (e, n),
        r => return r.failure(),
    };
    let f = match brs0_at(s, e) {
        ParseResult::Done(f, _) => f,
        r => return r.failure(),
    };
    let gg = match tag(s, f, ";") {
        ParseResult::Done(gg, _) => gg,
        r => return r.failure(),
    };
    match brs0_at(s, gg) {
        ParseResult::Done(q, _) => ParseResult::Done(q, (name, n)),
        r => r.failure(),
    }
}

/// `enum Name { fields }`.
pub fn enumerator_at(s: &[u8], p: usize) -> (res: ParseResult<Enumerator>)
    requires
        p <= s@.len(),
    ensures
        res.deep_view() == g::enumerator(s@, p as int),
        within(res, p as int, s@),
{
    let a = match tag(s, p, "enum") {
        ParseResult::Done(a, _) => a,
        r => return r.failure(),
    };
    let b = match brs1_at(s, a) {
        ParseResult::Done(b, _) => b,
        r => return r.failure(),
    };
    let (c, name) = match word_at(s, b) {
        ParseResult::Done(c, name) => (c, name),
        r => return r.failure(),
    };
    let d = match brs0_at(s, c) {
        ParseResult::Done(d, _) => d,
        r => return r.failure(),
    };
    let e = match tag(s, d, "{") {
        ParseResult::Done(e, _) => e,
        r => return r.failure(),
    };
    let f0 = match brs0_at(s, e) {
        ParseResult::Done(f0, _) => f0,
        r => return r.failure(),
    };
    let (i, fields) = match enum_fields_at(s, f0) {
        ParseResult::Done(i, fields) => (i, fields),
        r => return r.failure(),
    };
    let gg = match brs0_at(s, i) {
        ParseResult::Done(gg, _) => gg,
        r => return r.failure(),
    };
    match close_brace_at(s, gg) {
        ParseResult::Done(q, _) => {
            let mut en = Enumerator::default();
            en.name = name;
            en.fields = fields;
            ParseResult::Done(q, en)
        },
        r => r.failure(),
    }
}

/// The fields and oneofs that a message's body events give, from `base`.
pub open spec fn body_matches(
    base: SpecMessage,
    evs: Seq<g::SpecMessageEvent>,
    fields: Seq<SpecField>,
    oneofs: Seq<SpecOneOf>,
) -> bool {
    g::apply_message_events(base, evs) == (SpecMessage { fields: fields, oneofs: oneofs, ..base })
}

/// The events of a message body, folded into its fields and oneofs.
fn message_body_at(s: &[u8], p: usize, Ghost(base): Ghost<SpecMessage>) -> (res: ParseResult<
    (Vec<Field>, Vec<OneOf>),
>)
    requires
        p <= s@.len(),
        base.fields == Seq::<SpecField>::empty(),
        base.oneofs == Seq::<SpecOneOf>::empty(),
    ensures
        within(res, p as int, s@),
        match g::many0(s@, p as int, g::message_event_at(s@)) {
            Step::Done(q, evs) => res matches ParseResult::Done(q2, v) && q2 == q
                && body_matches(base, evs, v.0.deep_view(), v.1.deep_view()),
            r => res.deep_view() == g::fail::<Seq<g::SpecMessageEvent>, (Seq<SpecField>, Seq<SpecOneOf>)>(r),
        },
{
    let ghost f = g::message_event_at(s@);
    let ghost mut evs: Seq<g::SpecMessageEvent> = Seq::empty();
    let mut fields: Vec<Field> = Vec::new();
    let mut oneofs: Vec<OneOf> = Vec::new();
    let mut i = p;
    proof {
        lemma_prepend_all_empty(g::many0(s@, p as int, f));
        assert(fields.deep_view() =~= Seq::<SpecField>::empty());
        assert(oneofs.deep_view() =~= Seq::<SpecOneOf>::empty());
    }
    loop
        invariant
            p <= i <= s@.len(),
            f == g::message_event_at(s@),
            g::many0(s@, p as int, f) == prepend_all(evs, g::many0(s@, i as int, f)),
            body_matches(base, evs, fields.deep_view(), oneofs.deep_view()),
        decreases s@.len() - i,
    {
        if i >= s.len() {
            assert(evs + Seq::<g::SpecMessageEvent>::empty() =~= evs);
            return ParseResult::Done(i, (fields, oneofs));
        }
        match message_event_at(s, i) {
            ParseResult::Error => {
                assert(evs + Seq::<g::SpecMessageEvent>::empty() =~= evs);
                return ParseResult::Done(i, (fields, oneofs));
            },
            ParseResult::Done(q, ev) => {
                if q <= i {
                    return ParseResult::Error;
                }
                proof {
                    lemma_prepend_all_push(evs, ev.deep_view(), g::many0(s@, q as int, f));
                    assert(evs.push(ev.deep_view()).drop_last() =~= evs);
                }
                let ghost old_fields = fields.deep_view();
                let ghost old_oneofs = oneofs.deep_view();
                proof {
                    evs = evs.push(ev.deep_view());
                }
                match ev {
                    MessageEvent::Field(x) => {
                        fields.push(x);
                        assert(fields.deep_view() =~= old_fields.push(x.deep_view()));
                    },
                    MessageEvent::OneOf(o) => {
                        oneofs.push(o);
                        assert(oneofs.deep_view() =~= old_oneofs.push(o.deep_view()));
                    },
                    MessageEvent::Ignore => {},
                }
                i = q;
            },
            r => {
                return r.failure();
            },
        }
    }
}

/// The fields of an enum.
fn enum_fields_at(s: &[u8], p: usize) -> (res: ParseResult<Vec<(String, i32)>>)
    requires
        p <= s@.len(),
    ensures
        res.deep_view() == g::many0(s@, p as int, g::enum_field_at(s@)),
        within(res, p as int, s@),
{
    let ghost f = g::enum_field_at(s@);
    let mut fields: Vec<(String, i32)> = Vec::new();
    let mut i = p;
    proof {
        lemma_prepend_all_empty(g::many0(s@, p as int, f));
        assert(fields.deep_view() =~= Seq::<(Seq<char>, i32)>::empty());
    }
    loop
        invariant
            p <= i <= s@.len(),
            f == g::enum_field_at(s@),
            g::many0(s@, p as int, f) == prepend_all(fields.deep_view(), g::many0(s@, i as int, f)),
        decreases s@.len() - i,
    {
        if i >= s.len() {
            assert(fields.deep_view() + Seq::<(Seq<char>, i32)>::empty() =~= fields.deep_view());
            return ParseResult::Done(i, fields);
        }
        match enum_field_at(s, i) {
            ParseResult::Error => {
                assert(fields.deep_view() + Seq::<(Seq<char>, i32)>::empty() =~= fields.deep_view());
                return ParseResult::Done(i, fields);
            },
            ParseResult::Done(q, x) => {
                if q <= i {
                    return ParseResult::Error;
                }
                proof {
                    lemma_prepend_all_push(fields.deep_view(), x.deep_view(), g::many0(s@, q as int, f));
                }
                let ghost old_dv = fields.deep_view();
                fields.push(x);
                assert(fields.deep_view() =~= old_dv.push(x.deep_view()));
                i = q;
            },
            r => {
                return r.failure();
            },
        }
    }
}

/// A top-level declaration.
pub enum Event {
    Syntax(Syntax),
    Import(String),
    Package(String),
    Message(Message),
    Enum(Enumerator),
    Ignore,
}

impl DeepView for Event {
    type V = g::SpecEvent;

    open spec fn deep_view(&self) -> g::SpecEvent {
        match self {
            Event::Syntax(x) => g::SpecEvent::Syntax(*x),
            Event::Import(i) => g::SpecEvent::Import(i@),
            Event::Package(n) => g::SpecEvent::Package(n@),
            Event::Message(m) => g::SpecEvent::Message(m.deep_view()),
            Event::Enum(e) => g::SpecEvent::Enum(e.deep_view()),
            Event::Ignore => g::SpecEvent::Ignore,
        }
    }
}

/// One top-level item of a file.
#[verifier::rlimit(40)]
pub fn event_at(s: &[u8], p: usize) -> (res: ParseResult<Event>)
    requires
        p <= s@.len(),
    ensures
        res.deep_view() == g::event(s@, p as int),
        within(res, p as int, s@),
{
    match syntax_at(s, p) {
        ParseResult::Done(q, x) => return ParseResult::Done(q, Event::Syntax(x)),
        ParseResult::Error => {},
        r => return r.failure(),
    }
    match import_at(s, p) {
        ParseResult::Done(q, x) => return ParseResult::Done(q, Event::Import(x)),
        ParseResult::Error => {},
        r => return r.failure(),
    }
    match package_at(s, p) {
        ParseResult::Done(q, x) => return ParseResult::Done(q, Event::Package(x)),
        ParseResult::Error => {},
        r => return r.failure(),
    }
    match message_at(s, p) {
        ParseResult::Done(q, x) => return ParseResult::Done(q, Event::Message(x)),
        ParseResult::Error => {},
        r => return r.failure(),
    }
    match enumerator_at(s, p) {
        ParseResult::Done(q, x) => return ParseResult::Done(q, Event::Enum(x)),
        ParseResult::Error => {},
        r => return r.failure(),
    }
    match option_ignore_at(s, p) {
        ParseResult::Done(q, _) => return ParseResult::Done(q, Event::Ignore),
        ParseResult::Error => {},
        r => return r.failure(),
    }
    match br_at(s, p) {
        ParseResult::Done(q, _) => ParseResult::Done(q, Event::Ignore),
        r => r.failure(),
    }
}

/// A whole `.proto` file: its declarations folded into a descriptor.
pub fn file_descriptor(input: &[u8]) -> (res: ParseResult<FileDescriptor>)
    ensures
        res.deep_view() == g::file_descriptor(input@),
        within(res, 0, input@),
{
    let ghost s = input@;
    let ghost f = g::event_at(s);
    let ghost mut evs: Seq<g::SpecEvent> = Seq::empty();
    let mut desc = FileDescriptor::default();
    let mut i: usize = 0;
    proof {
        lemma_prepend_all_empty(g::many0(s, 0, f));
    }
    loop
        invariant
            s == input@,
            i <= s.len(),
            f == g::event_at(s),
            g::many0(s, 0, f) == prepend_all(evs, g::many0(s, i as int, f)),
            desc.deep_view() == g::build_descriptor(evs),
            desc.valid_event_count <= i,
        decreases s.len() - i,
    {
        if i >= input.len() {
            assert(evs + Seq::<g::SpecEvent>::empty() =~= evs);
            return ParseResult::Done(i, desc);
        }
        match event_at(input, i) {
            ParseResult::Error => {
                assert(evs + Seq::<g::SpecEvent>::empty() =~= evs);
                return ParseResult::Done(i, desc);
            },
            ParseResult::Done(q, ev) => {
                if q <= i {
                    return ParseResult::Error;
                }
                proof {
                    lemma_prepend_all_push(evs, ev.deep_view(), g::many0(s, q as int, f));
                    assert(evs.push(ev.deep_view()).drop_last() =~= evs);
                }
                let ghost old = desc.deep_view();
                proof {
                    evs = evs.push(ev.deep_view());
                }
                match ev {
                    Event::Syntax(x) => {
                        desc.syntax = x;
                        desc.valid_event_count = desc.valid_event_count + 1;
                    },
                    Event::Import(x) => {
                        desc.import_paths.push(x);
                        assert(desc.import_paths.deep_view() =~= old.import_paths.push(x@));
                        desc.valid_event_count = desc.valid_event_count + 1;
                    },
                    Event::Package(x) => {
                        desc.package = x;
                        desc.valid_event_count = desc.valid_event_count + 1;
                    },
                    Event::Message(x) => {
                        desc.messages.push(x);
                        assert(desc.messages.deep_view() =~= old.messages.push(x.deep_view()));
                        desc.valid_event_count = desc.valid_event_count + 1;
                    },
                    Event::Enum(x) => {
                        desc.enums.push(x);
                        assert(desc.enums.deep_view() =~= old.enums.push(x.deep_view()));
                        desc.valid_event_count = desc.valid_event_count + 1;
                    },
                    Event::Ignore => {},
                }
                i = q;
            },
            r => {
                return r.failure();
            },
        }
    }
}

/// The entry points below parse from the start of `input`.
pub fn take_comment(input: &[u8]) -> (res: ParseResult<String>)
    ensures
        res.deep_view() == g::take_comment(input@, 0),
{
    take_comment_at(input, 0)
}

pub fn message(input: &[u8]) -> (res: ParseResult<Message>)
    ensures
        res.deep_view() == g::message(input@, 0),
{
    message_at(input, 0)
}

pub fn enumerator(input: &[u8]) -> (res: ParseResult<Enumerator>)
    ensures
        res.deep_view() == g::enumerator(input@, 0),
{
    enumerator_at(input, 0)
}

pub fn option_ignore(input: &[u8]) -> (res: ParseResult<()>)
    ensures
        res.deep_view() == g::option_ignore(input@, 0),
{
    option_ignore_at(input, 0)
}

} // verus!
