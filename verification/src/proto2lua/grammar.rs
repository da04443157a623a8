//! The `.proto` grammar as mathematical functions on bytes.
//!
//! Each parser is a function of the whole input `s` and a position `p`; it
//! gives one of four outcomes, with the streaming conventions that the
//! executable parser follows: a parser that runs out of input before it can
//! decide says `Incomplete`, one that sees a byte it cannot accept says
//! `Error`, and `InvalidComment` marks a documentation comment whose text is
//! not UTF-8, on which the tool gives up.
use vstd::prelude::*;
use crate::text::utf8_text;
use crate::proto2lua::types::{
    empty_descriptor, empty_enumerator, empty_message, Frequency, SpecEnumerator, SpecField,
    SpecFieldType, SpecFileDescriptor, SpecMessage, SpecOneOf, Syntax,
};

verus! {

/// The outcome of a parser that started at some position.
pub enum Step<T> {
    /// Success: the position after what was read, and the value read.
    Done(int, T),
    /// The input does not match.
    Error,
    /// The input ended before the parser could decide.
    Incomplete,
    /// A documentation comment is not valid UTF-8.
    InvalidComment,
}

/// A failure carried over to another value type.
pub open spec fn fail<A, B>(r: Step<A>) -> Step<B> {
    match r {
        Step::Incomplete => Step::Incomplete,
        Step::InvalidComment => Step::InvalidComment,
        _ => Step::Error,
    }
}

/// Sequencing: on success continue with `k` at the new position.
pub open spec fn then<A, B>(r: Step<A>, k: spec_fn(int, A) -> Step<B>) -> Step<B> {
    match r {
        Step::Done(q, a) => k(q, a),
        _ => fail(r),
    }
}

/// The value of a success replaced.
pub open spec fn to<A, B>(r: Step<A>, v: B) -> Step<B> {
    match r {
        Step::Done(q, _) => Step::Done(q, v),
        _ => fail(r),
    }
}

/// Ordered choice: the second parser is tried only when the first says `Error`.
pub open spec fn alt<T>(a: Step<T>, b: Step<T>) -> Step<T> {
    match a {
        Step::Error => b,
        _ => a,
    }
}

/// An optional item: `Error` becomes success with nothing read.
pub open spec fn opt<T>(r: Step<T>, p: int) -> Step<Option<T>> {
    match r {
        Step::Done(q, v) => Step::Done(q, Some(v)),
        Step::Error => Step::Done(p, None),
        _ => fail(r),
    }
}

/// `x` put in front of the items of a successful repetition.
pub open spec fn prepend<T>(x: T, r: Step<Seq<T>>) -> Step<Seq<T>> {
    match r {
        Step::Done(q, xs) => Step::Done(q, seq![x] + xs),
        _ => r,
    }
}

/// Whether a step from `p` to `q` read something and stayed inside `s`.
pub open spec fn advanced(s: Seq<u8>, p: int, q: int) -> bool {
    p < q <= s.len()
}

/// Zero or more repetitions of `f`: stops with success at the end of the
/// input or at the first `Error`; a repetition that reads nothing is an
/// `Error` of the whole.
pub open spec fn many0<T>(s: Seq<u8>, p: int, f: spec_fn(int) -> Step<T>) -> Step<Seq<T>>
    decreases s.len() - p,
{
    if s.len() <= p {
        Step::Done(p, seq![])
    } else {
        match f(p) {
            Step::Error => Step::Done(p, seq![]),
            Step::Done(q, x) => if advanced(s, p, q) {
                prepend(x, many0(s, q, f))
            } else {
                Step::Error
            },
            r => fail(r),
        }
    }
}

/// The repetitions of `many1` after the first: like `many0`, except that
/// a repetition that reads nothing ends the list.
pub open spec fn many1_rest<T>(s: Seq<u8>, p: int, f: spec_fn(int) -> Step<T>) -> Step<Seq<T>>
    decreases s.len() - p,
{
    if s.len() <= p {
        Step::Done(p, seq![])
    } else {
        match f(p) {
            Step::Error => Step::Done(p, seq![]),
            Step::Done(q, x) => if advanced(s, p, q) {
                prepend(x, many1_rest(s, q, f))
            } else {
                Step::Done(p, seq![])
            },
            r => fail(r),
        }
    }
}

/// One or more repetitions of `f`.
pub open spec fn many1<T>(s: Seq<u8>, p: int, f: spec_fn(int) -> Step<T>) -> Step<Seq<T>> {
    match f(p) {
        Step::Done(q, x) => if s.len() <= q {
            Step::Done(q, seq![x])
        } else {
            prepend(x, many1_rest(s, q, f))
        },
        r => fail(r),
    }
}

/// Byte `b` is the ASCII character `c`.
pub open spec fn byte_is(b: u8, c: char) -> bool {
    b as u32 == c as u32
}

/// The ASCII text `t` at `p`.
pub open spec fn tag(s: Seq<u8>, p: int, t: Seq<char>) -> Step<()> {
    if exists|i: int| 0 <= i < t.len() && p + i < s.len() && !byte_is(s[p + i], t[i]) {
        Step::Error
    } else if s.len() - p < t.len() {
        Step::Incomplete
    } else {
        Step::Done(p + t.len(), ())
    }
}

/// The classes of bytes that the parsers read in runs.
#[derive(Clone, Copy)]
pub enum ByteClass {
    /// letters, digits, `_` and `.`
    Word,
    /// letters, digits and `_`
    LuaWord,
    Digit,
    HexDigit,
    /// space and tab
    Space,
    /// space, tab, carriage return and line feed
    MultiSpace,
}

pub open spec fn is_digit(b: u8) -> bool {
    48 <= b <= 57
}

pub open spec fn is_alpha(b: u8) -> bool {
    (97 <= b <= 122) || (65 <= b <= 90)
}

pub open spec fn in_class(c: ByteClass, b: u8) -> bool {
    match c {
        ByteClass::Word => is_alpha(b) || is_digit(b) || b == 95 || b == 46,
        ByteClass::LuaWord => is_alpha(b) || is_digit(b) || b == 95,
        ByteClass::Digit => is_digit(b),
        ByteClass::HexDigit => is_digit(b) || (97 <= b <= 102) || (65 <= b <= 70),
        ByteClass::Space => b == 32 || b == 9,
        ByteClass::MultiSpace => b == 32 || b == 9 || b == 13 || b == 10,
    }
}

/// The end of the longest run of bytes of class `c` from `p`.
pub open spec fn span(s: Seq<u8>, p: int, c: ByteClass) -> int
    decreases s.len() - p,
{
    if 0 <= p < s.len() && in_class(c, s[p]) {
        span(s, p + 1, c)
    } else {
        p
    }
}

/// A nonempty run of bytes of class `c`.
pub open spec fn run1(s: Seq<u8>, p: int, c: ByteClass) -> Step<()> {
    if s.len() <= p {
        Step::Incomplete
    } else if span(s, p, c) == p {
        Step::Error
    } else {
        Step::Done(span(s, p, c), ())
    }
}

/// The ASCII text `t` occurs at `i`.
pub open spec fn occurs_at(s: Seq<u8>, i: int, t: Seq<char>) -> bool {
    &&& 0 <= i
    &&& i + t.len() <= s.len()
    &&& forall|j: int| 0 <= j < t.len() ==> byte_is(s[i + j], t[j])
}

/// The first occurrence of the nonempty text `t` at or after `p`.
pub open spec fn find(s: Seq<u8>, p: int, t: Seq<char>) -> Option<int>
    decreases s.len() - p,
{
    if p < 0 || s.len() < p + t.len() {
        None
    } else if occurs_at(s, p, t) {
        Some(p)
    } else {
        find(s, p + 1, t)
    }
}

/// Everything up to the next `t`, which is not read; the value is where it starts.
pub open spec fn until(s: Seq<u8>, p: int, t: Seq<char>) -> Step<int> {
    if s.len() - p < t.len() {
        Step::Incomplete
    } else {
        match find(s, p, t) {
            Some(i) => Step::Done(i, i),
            None => Step::Error,
        }
    }
}

/// Everything up to and including the next `t`; the value is where `t` starts.
pub open spec fn until_consume(s: Seq<u8>, p: int, t: Seq<char>) -> Step<int> {
    if s.len() - p < t.len() {
        Step::Incomplete
    } else {
        match find(s, p, t) {
            Some(i) => Step::Done(i + t.len(), i),
            None => Step::Error,
        }
    }
}

/// The value of the digits `d` in base `base`.
pub open spec fn digit_value(b: u8) -> nat {
    if is_digit(b) {
        (b - 48) as nat
    } else if 97 <= b <= 102 {
        (b - 87) as nat
    } else {
        (b - 55) as nat
    }
}

pub open spec fn digits_value(d: Seq<u8>, base: nat) -> nat
    decreases d.len(),
{
    if d.len() == 0 {
        0
    } else {
        digits_value(d.drop_last(), base) * base + digit_value(d.last())
    }
}

/// A name: a run of word bytes, possibly empty.
pub open spec fn word(s: Seq<u8>, p: int) -> Step<Seq<char>> {
    let q = span(s, p, ByteClass::Word);
    match utf8_text(s, p, q) {
        Some(w) => Step::Done(q, w),
        None => Step::Error,
    }
}

/// A decimal number that fits in an `i32`.
pub open spec fn integer(s: Seq<u8>, p: int) -> Step<i32> {
    then(
        run1(s, p, ByteClass::Digit),
        |q: int, u: ()|
            {
                let v = digits_value(s.subrange(p, q), 10);
                if v <= i32::MAX {
                    Step::Done(q, v as i32)
                } else {
                    Step::Error
                }
            },
    )
}

/// `0x` and hexadecimal digits whose value fits in an `i32`.
pub open spec fn hex_integer(s: Seq<u8>, p: int) -> Step<i32> {
    then(
        tag(s, p, "0x"@),
        |a: int, u: ()|
            then(
                run1(s, a, ByteClass::HexDigit),
                |q: int, w: ()|
                    {
                        let v = digits_value(s.subrange(a, q), 16);
                        if v <= i32::MAX {
                            Step::Done(q, v as i32)
                        } else {
                            Step::Error
                        }
                    },
            ),
    )
}

/// A field or enumeration value number.
pub open spec fn number(s: Seq<u8>, p: int) -> Step<i32> {
    alt(hex_integer(s, p), integer(s, p))
}

/// A `//` comment up to and including the end of its line.
pub open spec fn comment(s: Seq<u8>, p: int) -> Step<()> {
    then(tag(s, p, "//"@), |a: int, u: ()| to(until_consume(s, a, "\n"@), ()))
}

/// A `/* */` comment.
pub open spec fn block_comment(s: Seq<u8>, p: int) -> Step<()> {
    then(tag(s, p, "/*"@), |a: int, u: ()| to(until_consume(s, a, "*/"@), ()))
}

/// A documentation comment: `//`, any further slashes, and the text of the
/// rest of the line.
pub open spec fn take_comment(s: Seq<u8>, p: int) -> Step<Seq<char>> {
    then(
        tag(s, p, "//"@),
        |a: int, u: ()|
            then(
                many0(s, a, slash_at(s)),
                |b: int, v: Seq<()>|
                    match until_consume(s, b, "\n"@) {
                        Step::Done(q, e) => match utf8_text(s, b, e) {
                            Some(c) => Step::Done(q, c),
                            None => Step::InvalidComment,
                        },
                        r => fail(r),
                    },
            ),
    )
}

/// A `/* */` comment whose text is the value.
pub open spec fn take_block_comment(s: Seq<u8>, p: int) -> Step<Seq<char>> {
    then(
        tag(s, p, "/*"@),
        |a: int, u: ()|
            match until_consume(s, a, "*/"@) {
                Step::Done(q, e) => match utf8_text(s, a, e) {
                    Some(c) => Step::Done(q, c),
                    None => Step::InvalidComment,
                },
                r => fail(r),
            },
    )
}

/// A documentation comment of either form.
pub open spec fn take_valid_comment(s: Seq<u8>, p: int) -> Step<Seq<char>> {
    alt(take_comment(s, p), take_block_comment(s, p))
}

/// `//` and the text up to the end of the line, which is not read; the text
/// is empty where it is not UTF-8.
pub open spec fn comment2(s: Seq<u8>, p: int) -> Step<Seq<char>> {
    then(
        tag(s, p, "//"@),
        |a: int, u: ()|
            match until(s, a, "\n"@) {
                Step::Done(q, e) => Step::Done(
                    q,
                    match utf8_text(s, a, e) {
                        Some(c) => c,
                        None => Seq::empty(),
                    },
                ),
                r => fail(r),
            },
    )
}

/// A word break: white space or a comment.
pub open spec fn br(s: Seq<u8>, p: int) -> Step<()> {
    alt(run1(s, p, ByteClass::MultiSpace), alt(comment(s, p), block_comment(s, p)))
}

/// The repeated parsers, as functions of the position.
pub open spec fn br_at(s: Seq<u8>) -> spec_fn(int) -> Step<()> {
    |i: int| br(s, i)
}

pub open spec fn slash_at(s: Seq<u8>) -> spec_fn(int) -> Step<()> {
    |i: int| tag(s, i, "/"@)
}

pub open spec fn space_at(s: Seq<u8>) -> spec_fn(int) -> Step<()> {
    |i: int| run1(s, i, ByteClass::Space)
}

pub open spec fn multispace_at(s: Seq<u8>) -> spec_fn(int) -> Step<()> {
    |i: int| run1(s, i, ByteClass::MultiSpace)
}

pub open spec fn semicolon_at(s: Seq<u8>) -> spec_fn(int) -> Step<()> {
    |i: int| tag(s, i, ";"@)
}

pub open spec fn message_field_at(s: Seq<u8>) -> spec_fn(int) -> Step<SpecField> {
    |i: int| message_field(s, i)
}

pub open spec fn message_event_at(s: Seq<u8>) -> spec_fn(int) -> Step<SpecMessageEvent> {
    |i: int| message_event(s, i)
}

pub open spec fn enum_field_at(s: Seq<u8>) -> spec_fn(int) -> Step<(Seq<char>, i32)> {
    |i: int| enum_field(s, i)
}

pub open spec fn event_at(s: Seq<u8>) -> spec_fn(int) -> Step<SpecEvent> {
    |i: int| event(s, i)
}

/// Any number of word breaks.
pub open spec fn brs0(s: Seq<u8>, p: int) -> Step<()> {
    to(many0(s, p, br_at(s)), ())
}

/// At least one word break.
pub open spec fn brs1(s: Seq<u8>, p: int) -> Step<()> {
    to(many1(s, p, br_at(s)), ())
}

/// `syntax = "proto2";` or `syntax = "proto3";`.
pub open spec fn syntax(s: Seq<u8>, p: int) -> Step<Syntax> {
    then(
        tag(s, p, "syntax"@),
        |a: int, u: ()|
            then(
                brs0(s, a),
                |b: int, u: ()|
                    then(
                        tag(s, b, "="@),
                        |c: int, u: ()|
                            then(
                                brs0(s, c),
                                |d: int, u: ()|
                                    then(
                                        alt(
                                            to(tag(s, d, "\"proto2\""@), Syntax::Proto2),
                                            to(tag(s, d, "\"proto3\""@), Syntax::Proto3),
                                        ),
                                        |e: int, v: Syntax|
                                            then(
                                                brs0(s, e),
                                                |f: int, u: ()| to(tag(s, f, ";"@), v),
                                            ),
                                    ),
                            ),
                    ),
            ),
    )
}

/// `import "path";`; the value is the path.
pub open spec fn import(s: Seq<u8>, p: int) -> Step<Seq<char>> {
    then(
        tag(s, p, "import"@),
        |a: int, u: ()|
            then(
                brs1(s, a),
                |b: int, u: ()|
                    then(
                        tag(s, b, "\""@),
                        |c: int, u: ()|
                            then(
                                until(s, c, "\""@),
                                |d: int, e: int|
                                    match utf8_text(s, c, e) {
                                        Some(path) => then(
                                            tag(s, d, "\""@),
                                            |f: int, u: ()|
                                                then(
                                                    brs0(s, f),
                                                    |g: int, u: ()| to(tag(s, g, ";"@), path),
                                                ),
                                        ),
                                        None => Step::Error,
                                    },
                            ),
                    ),
            ),
    )
}

/// `package name;`; the value is the name.
pub open spec fn package(s: Seq<u8>, p: int) -> Step<Seq<char>> {
    then(
        tag(s, p, "package"@),
        |a: int, u: ()|
            then(
                brs1(s, a),
                |b: int, u: ()|
                    then(
                        word(s, b),
                        |c: int, w: Seq<char>|
                            then(brs0(s, c), |d: int, u: ()| to(tag(s, d, ";"@), w)),
                    ),
            ),
    )
}

/// `extensions ...;`, which is skipped.
pub open spec fn extensions(s: Seq<u8>, p: int) -> Step<()> {
    then(tag(s, p, "extensions"@), |a: int, u: ()| to(until_consume(s, a, ";"@), ()))
}

/// `optional`, `repeated` or `required`.
pub open spec fn frequency(s: Seq<u8>, p: int) -> Step<Frequency> {
    alt(
        to(tag(s, p, "optional"@), Frequency::Optional),
        alt(
            to(tag(s, p, "repeated"@), Frequency::Repeated),
            to(tag(s, p, "required"@), Frequency::Required),
        ),
    )
}

/// The keyword written is the frequency read: `optional` gives `Optional`,
/// `repeated` gives `Repeated` and `required` gives `Required`, each after
/// reading its eight bytes.
pub proof fn lemma_frequency_keywords(s: Seq<u8>, p: int)
    requires
        0 <= p,
    ensures
        occurs_at(s, p, "optional"@) ==> frequency(s, p) == Step::Done(p + 8, Frequency::Optional),
        occurs_at(s, p, "repeated"@) ==> frequency(s, p) == Step::Done(p + 8, Frequency::Repeated),
        occurs_at(s, p, "required"@) ==> frequency(s, p) == Step::Done(p + 8, Frequency::Required),
{
    reveal_strlit("optional");
    reveal_strlit("repeated");
    reveal_strlit("required");
    let o = "optional"@;
    let rp = "repeated"@;
    let rq = "required"@;
    if occurs_at(s, p, o) {
        assert(tag(s, p, o) == Step::<()>::Done(p + 8, ()));
    }
    if occurs_at(s, p, rp) {
        assert(byte_is(s[p + 0], rp[0]));
        assert(!byte_is(s[p + 0], o[0]));
        assert(tag(s, p, o) == Step::<()>::Error);
        assert(tag(s, p, rp) == Step::<()>::Done(p + 8, ()));
    }
    if occurs_at(s, p, rq) {
        assert(byte_is(s[p + 0], rq[0]));
        assert(!byte_is(s[p + 0], o[0]));
        assert(tag(s, p, o) == Step::<()>::Error);
        assert(byte_is(s[p + 2], rq[2]));
        assert(!byte_is(s[p + 2], rp[2]));
        assert(tag(s, p, rp) == Step::<()>::Error);
        assert(tag(s, p, rq) == Step::<()>::Done(p + 8, ()));
    }
}

/// A field declared with a frequency keyword has that frequency.
pub proof fn lemma_field_frequency(s: Seq<u8>, p: int)
    requires
        0 <= p,
    ensures
        occurs_at(s, p, "required"@) && message_field(s, p) is Done ==> message_field(s, p)->Done_1.frequency
            == Frequency::Required,
        occurs_at(s, p, "repeated"@) && message_field(s, p) is Done ==> message_field(s, p)->Done_1.frequency
            == Frequency::Repeated,
        occurs_at(s, p, "optional"@) && message_field(s, p) is Done ==> message_field(s, p)->Done_1.frequency
            == Frequency::Optional,
{
    lemma_frequency_keywords(s, p);
}

/// A scalar type keyword, tried in this order.
pub open spec fn scalar_type(s: Seq<u8>, p: int) -> Step<SpecFieldType> {
    alt(to(tag(s, p, "int32"@), SpecFieldType::Int32),
    alt(to(tag(s, p, "int64"@), SpecFieldType::Int64),
    alt(to(tag(s, p, "uint32"@), SpecFieldType::Uint32),
    alt(to(tag(s, p, "uint64"@), SpecFieldType::Uint64),
    alt(to(tag(s, p, "sint32"@), SpecFieldType::Sint32),
    alt(to(tag(s, p, "sint64"@), SpecFieldType::Sint64),
    alt(to(tag(s, p, "fixed32"@), SpecFieldType::Fixed32),
    alt(to(tag(s, p, "sfixed32"@), SpecFieldType::Sfixed32),
    alt(to(tag(s, p, "fixed64"@), SpecFieldType::Fixed64),
    alt(to(tag(s, p, "sfixed64"@), SpecFieldType::Sfixed64),
    alt(to(tag(s, p, "bool"@), SpecFieldType::Bool),
    alt(to(tag(s, p, "string"@), SpecFieldType::StringCow),
    alt(to(tag(s, p, "bytes"@), SpecFieldType::BytesCow),
    alt(to(tag(s, p, "float"@), SpecFieldType::Float),
        to(tag(s, p, "double"@), SpecFieldType::Double)))))))))))))))
}

/// A field type: a scalar keyword, a map, or the name of a message or enum.
pub open spec fn field_type(s: Seq<u8>, p: int) -> Step<SpecFieldType>
    decreases s.len() - p, 1int,
{
    alt(
        scalar_type(s, p),
        alt(
            match map_field(s, p) {
                Step::Done(q, kv) => Step::Done(
                    q,
                    SpecFieldType::Map_(Box::new(kv.0), Box::new(kv.1)),
                ),
                r => fail(r),
            },
            match word(s, p) {
                Step::Done(q, w) => Step::Done(q, SpecFieldType::MessageOrEnum(w)),
                r => fail(r),
            },
        ),
    )
}

/// `map<key, value>`; the value is the key and value types.
pub open spec fn map_field(s: Seq<u8>, p: int) -> Step<(SpecFieldType, SpecFieldType)>
    decreases s.len() - p, 0int,
{
    match tag(s, p, "map"@) {
        Step::Done(a, _) => match brs0(s, a) {
            Step::Done(b, _) => match tag(s, b, "<"@) {
                Step::Done(c, _) => match brs0(s, c) {
                    Step::Done(d, _) => if advanced(s, p, d) {
                        match field_type(s, d) {
                            Step::Done(e, k) => match brs0(s, e) {
                                Step::Done(f, _) => match tag(s, f, ","@) {
                                    Step::Done(g, _) => match brs0(s, g) {
                                        Step::Done(h, _) => if advanced(s, p, h) {
                                            match field_type(s, h) {
                                                Step::Done(i, v) => to(tag(s, i, ">"@), (k, v)),
                                                r => fail(r),
                                            }
                                        } else {
                                            Step::Error
                                        },
                                        r => fail(r),
                                    },
                                    r => fail(r),
                                },
                                r => fail(r),
                            },
                            r => fail(r),
                        }
                    } else {
                        Step::Error
                    },
                    r => fail(r),
                },
                r => fail(r),
            },
            r => fail(r),
        },
        r => fail(r),
    }
}

/// The field that `message_field` builds.
pub open spec fn make_field(
    frequency: Option<Frequency>,
    typ: SpecFieldType,
    name: Seq<char>,
    number: i32,
    comment: Option<Seq<char>>,
) -> SpecField {
    SpecField {
        name: name,
        frequency: match frequency {
            Some(f) => f,
            None => Frequency::Optional,
        },
        typ: typ,
        number: number,
        default: None,
        packed: None,
        boxed: false,
        deprecated: false,
        comment: comment,
    }
}

/// `[frequency] type name = number;` and an optional trailing comment.
pub open spec fn message_field(s: Seq<u8>, p: int) -> Step<SpecField> {
    then(
        opt(frequency(s, p), p),
        |a: int, fr: Option<Frequency>|
            then(
                brs0(s, a),
                |b: int, u: ()|
                    then(
                        field_type(s, b),
                        |c: int, ty: SpecFieldType|
                            then(
                                brs1(s, c),
                                |d: int, u: ()|
                                    then(
                                        word(s, d),
                                        |e: int, name: Seq<char>|
                                            then(
                                                brs0(s, e),
                                                |f: int, u: ()|
                                                    then(
                                                        tag(s, f, "="@),
                                                        |g: int, u: ()|
                                                            field_rest(s, g, fr, ty, name),
                                                    ),
                                            ),
                                    ),
                            ),
                    ),
            ),
    )
}

/// The part of `message_field` after `=`.
pub open spec fn field_rest(
    s: Seq<u8>,
    g: int,
    fr: Option<Frequency>,
    ty: SpecFieldType,
    name: Seq<char>,
) -> Step<SpecField> {
    then(
        brs0(s, g),
        |h: int, u: ()|
            then(
                number(s, h),
                |i: int, n: i32|
                    then(
                        brs0(s, i),
                        |j: int, u: ()|
                            then(
                                tag(s, j, ";"@),
                                |k: int, u: ()|
                                    then(
                                        many0(s, k, space_at(s)),
                                        |l: int, u: Seq<()>|
                                            match opt(take_comment(s, l), l) {
                                                Step::Done(m, c) => Step::Done(
                                                    m,
                                                    make_field(fr, ty, name, n, c),
                                                ),
                                                r => fail(r),
                                            },
                                    ),
                            ),
                    ),
            ),
    )
}

/// `oneof name { fields }`.
pub open spec fn one_of(s: Seq<u8>, p: int) -> Step<SpecOneOf> {
    then(
        tag(s, p, "oneof"@),
        |a: int, u: ()|
            then(
                brs1(s, a),
                |b: int, u: ()|
                    then(
                        word(s, b),
                        |c: int, name: Seq<char>|
                            then(
                                brs0(s, c),
                                |d: int, u: ()|
                                    then(
                                        tag(s, d, "{"@),
                                        |e: int, u: ()|
                                            then(
                                                many1(s, e, message_field_at(s)),
                                                |f: int, fields: Seq<SpecField>|
                                                    then(
                                                        brs0(s, f),
                                                        |g: int, u: ()|
                                                            then(
                                                                tag(s, g, "}"@),
                                                                |h: int, u: ()|
                                                                    to(
                                                                        brs0(s, h),
                                                                        SpecOneOf {
                                                                            name: name,
                                                                            fields: fields,
                                                                            package: Seq::empty(),
                                                                            module: Seq::empty(),
                                                                            imported: false,
                                                                        },
                                                                    ),
                                                            ),
                                                    ),
                                            ),
                                    ),
                            ),
                    ),
            ),
    )
}

/// What can stand inside a message body.
pub enum SpecMessageEvent {
    Field(SpecField),
    OneOf(SpecOneOf),
    Ignore,
}

pub open spec fn message_event(s: Seq<u8>, p: int) -> Step<SpecMessageEvent> {
    alt(
        match message_field(s, p) {
            Step::Done(q, f) => Step::Done(q, SpecMessageEvent::Field(f)),
            r => fail(r),
        },
        alt(
            match one_of(s, p) {
                Step::Done(q, o) => Step::Done(q, SpecMessageEvent::OneOf(o)),
                r => fail(r),
            },
            alt(
                to(extensions(s, p), SpecMessageEvent::Ignore),
                to(br(s, p), SpecMessageEvent::Ignore),
            ),
        ),
    )
}

/// An optional documentation comment, spaces and `message`; the value is
/// the comment's text, empty when there is none.
pub open spec fn message_begin(s: Seq<u8>, p: int) -> Step<Seq<char>> {
    then(
        opt(take_comment(s, p), p),
        |a: int, c: Option<Seq<char>>|
            then(
                many0(s, a, space_at(s)),
                |b: int, u: Seq<()>|
                    to(
                        tag(s, b, "message"@),
                        match c {
                            Some(t) => t,
                            None => Seq::empty(),
                        },
                    ),
            ),
    )
}

/// The end of a message or enum: `}`, white space and any number of `;`.
pub open spec fn close_brace(s: Seq<u8>, p: int) -> Step<()> {
    then(
        tag(s, p, "}"@),
        |a: int, u: ()|
            then(
                many0(s, a, multispace_at(s)),
                |b: int, u: Seq<()>| to(many0(s, b, semicolon_at(s)), ()),
            ),
    )
}

/// A message with its comment, name and body events.
pub open spec fn message_events(s: Seq<u8>, p: int) -> Step<
    (Seq<char>, Seq<char>, Seq<SpecMessageEvent>),
> {
    then(
        message_begin(s, p),
        |a: int, comment: Seq<char>|
            then(
                brs1(s, a),
                |b: int, u: ()|
                    then(
                        word(s, b),
                        |c: int, name: Seq<char>|
                            then(
                                brs0(s, c),
                                |d: int, u: ()|
                                    then(
                                        tag(s, d, "{"@),
                                        |e: int, u: ()|
                                            then(
                                                brs0(s, e),
                                                |f: int, u: ()|
                                                    then(
                                                        many0(s, f, message_event_at(s)),
                                                        |g: int, evs: Seq<SpecMessageEvent>|
                                                            then(
                                                                brs0(s, g),
                                                                |h: int, u: ()|
                                                                    to(
                                                                        close_brace(s, h),
                                                                        (name, comment, evs),
                                                                    ),
                                                            ),
                                                    ),
                                            ),
                                    ),
                            ),
                    ),
            ),
    )
}

/// A message with one more body event taken into account.
pub open spec fn apply_message_event(m: SpecMessage, e: SpecMessageEvent) -> SpecMessage {
    match e {
        SpecMessageEvent::Field(f) => SpecMessage { fields: m.fields.push(f), ..m },
        SpecMessageEvent::OneOf(o) => SpecMessage { oneofs: m.oneofs.push(o), ..m },
        SpecMessageEvent::Ignore => m,
    }
}

pub open spec fn apply_message_events(m: SpecMessage, evs: Seq<SpecMessageEvent>) -> SpecMessage
    decreases evs.len(),
{
    if evs.len() == 0 {
        m
    } else {
        apply_message_event(apply_message_events(m, evs.drop_last()), evs.last())
    }
}

/// The message that a name, a comment and body events describe.
pub open spec fn build_message(
    name: Seq<char>,
    comment: Seq<char>,
    evs: Seq<SpecMessageEvent>,
) -> SpecMessage {
    apply_message_events(
        SpecMessage { name: name, msg_comment: Some(comment), ..empty_message() },
        evs,
    )
}

pub open spec fn message(s: Seq<u8>, p: int) -> Step<SpecMessage> {
    match message_events(s, p) {
        Step::Done(q, v) => Step::Done(q, build_message(v.0, v.1, v.2)),
        r => fail(r),
    }
}

/// `NAME = number;` inside an enum.
pub open spec fn enum_field(s: Seq<u8>, p: int) -> Step<(Seq<char>, i32)> {
    then(
        word(s, p),
        |a: int, name: Seq<char>|
            then(
                brs0(s, a),
                |b: int, u: ()|
                    then(
                        tag(s, b, "="@),
                        |c: int, u: ()|
                            then(
                                brs0(s, c),
                                |d: int, u: ()|
                                    then(
                                        number(s, d),
                                        |e: int, n: i32|
                                            then(
                                                brs0(s, e),
                                                |f: int, u: ()|
                                                    then(
                                                        tag(s, f, ";"@),
                                                        |g: int, u: ()| to(brs0(s, g), (name, n)),
                                                    ),
                                            ),
                                    ),
                            ),
                    ),
            ),
    )
}

/// `enum Name { fields }`.
pub open spec fn enumerator(s: Seq<u8>, p: int) -> Step<SpecEnumerator> {
    then(
        tag(s, p, "enum"@),
        |a: int, u: ()|
            then(
                brs1(s, a),
                |b: int, u: ()|
                    then(
                        word(s, b),
                        |c: int, name: Seq<char>|
                            then(
                                brs0(s, c),
                                |d: int, u: ()|
                                    then(
                                        tag(s, d, "{"@),
                                        |e: int, u: ()|
                                            then(
                                                brs0(s, e),
                                                |f: int, u: ()|
                                                    then(
                                                        many0(s, f, enum_field_at(s)),
                                                        |g: int, fields: Seq<(Seq<char>, i32)>|
                                                            then(
                                                                brs0(s, g),
                                                                |h: int, u: ()|
                                                                    to(
                                                                        close_brace(s, h),
                                                                        SpecEnumerator {
                                                                            name: name,
                                                                            fields: fields,
                                                                            ..empty_enumerator()
                                                                        },
                                                                    ),
                                                            ),
                                                    ),
                                            ),
                                    ),
                            ),
                    ),
            ),
    )
}

/// `option ...;`, which is skipped.
pub open spec fn option_ignore(s: Seq<u8>, p: int) -> Step<()> {
    then(
        tag(s, p, "option"@),
        |a: int, u: ()|
            then(brs1(s, a), |b: int, u: ()| to(until_consume(s, b, ";"@), ())),
    )
}

/// A top-level declaration.
pub enum SpecEvent {
    Syntax(Syntax),
    Import(Seq<char>),
    Package(Seq<char>),
    Message(SpecMessage),
    Enum(SpecEnumerator),
    Ignore,
}

pub open spec fn event(s: Seq<u8>, p: int) -> Step<SpecEvent> {
    alt(match syntax(s, p) { Step::Done(q, v) => Step::Done(q, SpecEvent::Syntax(v)), r => fail(r) },
    alt(match import(s, p) { Step::Done(q, v) => Step::Done(q, SpecEvent::Import(v)), r => fail(r) },
    alt(match package(s, p) { Step::Done(q, v) => Step::Done(q, SpecEvent::Package(v)), r => fail(r) },
    alt(match message(s, p) { Step::Done(q, v) => Step::Done(q, SpecEvent::Message(v)), r => fail(r) },
    alt(match enumerator(s, p) { Step::Done(q, v) => Step::Done(q, SpecEvent::Enum(v)), r => fail(r) },
    alt(to(option_ignore(s, p), SpecEvent::Ignore),
        to(br(s, p), SpecEvent::Ignore)))))))
}

/// A descriptor with one more declaration taken into account.
pub open spec fn apply_event(d: SpecFileDescriptor, e: SpecEvent) -> SpecFileDescriptor {
    match e {
        SpecEvent::Syntax(x) => SpecFileDescriptor { syntax: x, ..d },
        SpecEvent::Import(i) => SpecFileDescriptor { import_paths: d.import_paths.push(i), ..d },
        SpecEvent::Package(n) => SpecFileDescriptor { package: n, ..d },
        SpecEvent::Message(m) => SpecFileDescriptor { messages: d.messages.push(m), ..d },
        SpecEvent::Enum(x) => SpecFileDescriptor { enums: d.enums.push(x), ..d },
        SpecEvent::Ignore => d,
    }
}

pub open spec fn apply_events(d: SpecFileDescriptor, evs: Seq<SpecEvent>) -> SpecFileDescriptor
    decreases evs.len(),
{
    if evs.len() == 0 {
        d
    } else {
        apply_event(apply_events(d, evs.drop_last()), evs.last())
    }
}

/// The number of declarations that are not ignored.
pub open spec fn valid_events(evs: Seq<SpecEvent>) -> int
    decreases evs.len(),
{
    if evs.len() == 0 {
        0
    } else {
        valid_events(evs.drop_last()) + if evs.last() is Ignore {
            0int
        } else {
            1int
        }
    }
}

/// Each import, message and enum adds one valid declaration, and no
/// declaration counts more than once.
proof fn lemma_apply_events_counts(d: SpecFileDescriptor, evs: Seq<SpecEvent>)
    ensures
        0 <= valid_events(evs) <= evs.len(),
        apply_events(d, evs).import_paths.len() + apply_events(d, evs).messages.len()
            + apply_events(d, evs).enums.len() <= d.import_paths.len() + d.messages.len()
            + d.enums.len() + valid_events(evs),
    decreases evs.len(),
{
    if evs.len() > 0 {
        lemma_apply_events_counts(d, evs.drop_last());
    }
}

/// The valid declarations of a file are at most its declarations, and at
/// least its imports, messages and enums together.
pub proof fn lemma_valid_event_count(evs: Seq<SpecEvent>)
    ensures
        build_descriptor(evs).import_paths.len() + build_descriptor(evs).messages.len()
            + build_descriptor(evs).enums.len() <= build_descriptor(evs).valid_event_count
            <= evs.len(),
{
    lemma_apply_events_counts(empty_descriptor(), evs);
}

/// The descriptor that a list of declarations describes.
pub open spec fn build_descriptor(evs: Seq<SpecEvent>) -> SpecFileDescriptor {
    SpecFileDescriptor { valid_event_count: valid_events(evs), ..apply_events(empty_descriptor(), evs) }
}

/// A whole `.proto` file: any number of declarations.
pub open spec fn file_descriptor(s: Seq<u8>) -> Step<SpecFileDescriptor> {
    match many0(s, 0, event_at(s)) {
        Step::Done(q, evs) => Step::Done(q, build_descriptor(evs)),
        r => fail(r),
    }
}

} // verus!
