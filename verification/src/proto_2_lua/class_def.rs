//! The messages of a `.proto` file as the Lua generator sees them, and the
//! pieces of Lua text that each message gives.
use vstd::prelude::*;
use vstd::string::StringExecFns;
use crate::strings::str_eq;
use crate::proto_2_lua::pattern::{compile, regex_compiles, Pattern};

verus! {

/// Where the line scanner stands in a `.proto` file.
#[derive(Debug, Clone, Copy, PartialEq, Eq, Structural)]
pub enum State {
    Normal,
    MessageDefine,
    MessageScopeBegin,
}

/// What a message is for, by the suffix of its name.
#[derive(Debug, Clone, Copy, PartialEq, Eq, PartialOrd, Ord, Structural)]
pub enum MessageType {
    Struct,
    Req,
    Rsp,
    Notify,
}

#[derive(Debug)]
pub struct FileStruct {
    pub messages: Vec<Message>,
    pub mod_name: String,
    pub file_name: String,
}

#[derive(Debug)]
pub struct Message {
    pub msg_type: MessageType,
    pub msg_name_full: String,
    pub short_name: String,
    pub fields: Vec<Field>,
    pub comment: String,
    /// The index, among the messages of the same file, of the response that
    /// answers this request.
    pub p_target: Option<usize>,
}

#[derive(Debug)]
pub struct Field {
    pub is_array: bool,
    pub field_type: String,
    pub field_name: String,
    pub comment: String,
}

/// The mathematical value of a [`Field`].
pub struct FieldView {
    pub is_array: bool,
    pub field_type: Seq<char>,
    pub field_name: Seq<char>,
    pub comment: Seq<char>,
}

/// The mathematical value of a [`Message`].
pub struct MessageView {
    pub msg_type: MessageType,
    pub msg_name_full: Seq<char>,
    pub short_name: Seq<char>,
    pub fields: Seq<FieldView>,
    pub comment: Seq<char>,
    pub p_target: Option<usize>,
}

/// The mathematical value of a [`FileStruct`].
pub struct FileStructView {
    pub messages: Seq<MessageView>,
    pub mod_name: Seq<char>,
    pub file_name: Seq<char>,
}

impl DeepView for Field {
    type V = FieldView;

    open spec fn deep_view(&self) -> FieldView {
        FieldView {
            is_array: self.is_array,
            field_type: self.field_type@,
            field_name: self.field_name@,
            comment: self.comment@,
        }
    }
}

impl DeepView for Message {
    type V = MessageView;

    open spec fn deep_view(&self) -> MessageView {
        MessageView {
            msg_type: self.msg_type,
            msg_name_full: self.msg_name_full@,
            short_name: self.short_name@,
            fields: self.fields.deep_view(),
            comment: self.comment@,
            p_target: self.p_target,
        }
    }
}

impl DeepView for FileStruct {
    type V = FileStructView;

    open spec fn deep_view(&self) -> FileStructView {
        FileStructView {
            messages: self.messages.deep_view(),
            mod_name: self.mod_name@,
            file_name: self.file_name@,
        }
    }
}

impl FileStruct {
    pub fn new() -> (r: FileStruct)
        ensures
            r.deep_view() == (FileStructView {
                messages: Seq::empty(),
                mod_name: Seq::empty(),
                file_name: Seq::empty(),
            }),
    {
        let r = FileStruct { messages: Vec::new(), mod_name: String::new(), file_name: String::new() };
        assert(r.messages.deep_view() =~= Seq::<MessageView>::empty());
        r
    }
}

/// The names of fields joined by `sep`, as `[String]::join` joins them.
pub open spec fn join_names(fs: Seq<FieldView>, sep: Seq<char>) -> Seq<char>
    decreases fs.len(),
{
    if fs.len() == 0 {
        Seq::empty()
    } else if fs.len() == 1 {
        fs[0].field_name
    } else {
        join_names(fs.drop_last(), sep) + sep + fs.last().field_name
    }
}

/// The type of a field as the Lua annotations write it.
pub open spec fn type_string(f: FieldView) -> Seq<char> {
    if f.is_array {
        f.field_type + "[]"@
    } else if f.field_type == "int32"@ || f.field_type == "int64"@ || f.field_type == "float"@ {
        "number"@
    } else if f.field_type == "string"@ {
        Seq::empty()
    } else {
        f.field_type
    }
}

/// The Lua value that a field starts with.
pub open spec fn default_value(f: FieldView) -> Seq<char> {
    if f.is_array {
        "{}"@
    } else if f.field_type == "int32"@ || f.field_type == "int64"@ || f.field_type == "float"@ {
        "0"@
    } else if f.field_type == "string"@ {
        "\"\""@
    } else {
        "nil"@
    }
}

/// The parameter list of a handler function.
pub open spec fn params_in_func(m: MessageView, is_ds: bool, is_need_prefix: bool) -> Seq<char> {
    let joined = join_names(m.fields, ", "@);
    let params = if is_ds {
        if m.fields.len() > 0 {
            "playerUid, "@ + joined
        } else {
            "playerUid"@
        }
    } else {
        joined
    };
    if is_need_prefix {
        ", "@ + params
    } else {
        params
    }
}

/// The arguments that a logging call passes after its format string.
pub open spec fn params_with_message(m: MessageView, need_player_uid: bool, need_message: bool) -> Seq<char> {
    if m.fields.len() > 0 {
        if need_message && !need_player_uid {
            ", message."@ + join_names(m.fields, ", message."@)
        } else if !need_message && need_player_uid {
            ", playerUid, "@ + join_names(m.fields, ", "@)
        } else if need_message && need_player_uid {
            ", playerUid, message."@ + join_names(m.fields, ", message."@)
        } else {
            ", "@ + join_names(m.fields, ", "@)
        }
    } else if need_player_uid {
        ", playerUid"@
    } else {
        Seq::empty()
    }
}

/// The format string that a logging call uses for the fields.
pub open spec fn print_params_format(m: MessageView, need_player_uid: bool) -> Seq<char> {
    let base = join_names(m.fields, ":%s, "@) + ":%s"@;
    if need_player_uid {
        "playerUid:%s, "@ + base
    } else {
        base
    }
}

/// How many times the character `x` directly followed by `y` occurs in `s`.
pub open spec fn count_pair(s: Seq<char>, x: char, y: char) -> nat
    decreases s.len(),
{
    if s.len() < 2 {
        0
    } else {
        count_pair(s.drop_last(), x, y) + if s[s.len() - 2] == x && s[s.len() - 1] == y {
            1nat
        } else {
            0nat
        }
    }
}

/// The pair occurs in `a + b` as often as in `a` and `b`, where no
/// occurrence straddles the two.
proof fn lemma_count_add(a: Seq<char>, b: Seq<char>, x: char, y: char)
    requires
        a.len() == 0 || b.len() == 0 || !(a.last() == x && b[0] == y),
    ensures
        count_pair(a + b, x, y) == count_pair(a, x, y) + count_pair(b, x, y),
    decreases b.len(),
{
    if b.len() == 0 {
        assert(a + b =~= a);
    } else {
        if b.len() > 1 {
            assert(b.drop_last()[0] == b[0]);
        }
        lemma_count_add(a, b.drop_last(), x, y);
        assert((a + b).drop_last() =~= a + b.drop_last());
        if a.len() == 0 {
            assert(a + b =~= b);
        }
    }
}

/// Names in which the pair does not occur, joined by a separator that
/// neither starts with `y` nor ends with `x`, hold the pair as often as the
/// separators do.
proof fn lemma_count_join(fs: Seq<FieldView>, sep: Seq<char>, x: char, y: char)
    requires
        sep.len() > 0,
        sep[0] != y,
        sep.last() != x,
        fs.len() > 0,
        forall|i: int| 0 <= i < fs.len() ==> count_pair(#[trigger] fs[i].field_name, x, y) == 0,
    ensures
        count_pair(join_names(fs, sep), x, y) == (fs.len() - 1) * count_pair(sep, x, y),
    decreases fs.len(),
{
    if fs.len() > 1 {
        let init = fs.drop_last();
        assert forall|i: int| 0 <= i < init.len() implies count_pair(#[trigger] init[i].field_name, x, y)
            == 0 by {
            assert(init[i] == fs[i]);
        }
        lemma_count_join(init, sep, x, y);
        lemma_count_add(join_names(init, sep), sep, x, y);
        let js = join_names(init, sep) + sep;
        assert(js.last() == sep.last());
        lemma_count_add(js, fs.last().field_name, x, y);
        assert(count_pair(fs.last().field_name, x, y) == 0) by {
            assert(fs.last() == fs[fs.len() - 1]);
        }
        assert((fs.len() - 2) * count_pair(sep, x, y) + count_pair(sep, x, y) == (fs.len() - 1)
            * count_pair(sep, x, y)) by (nonlinear_arith);
    } else {
        assert(count_pair(fs[0].field_name, x, y) == 0);
    }
}

/// A logging line passes one argument per placeholder of its format: for
/// field names in which neither `%s` nor `, ` occurs, the format holds one
/// `%s` per field, and one more for the player's id where it is logged, and
/// as many arguments follow it, each after a `, `.
pub proof fn lemma_print_arguments(m: MessageView, need_player_uid: bool, need_message: bool)
    requires
        m.fields.len() > 0,
        forall|i: int|
            0 <= i < m.fields.len() ==> count_pair(#[trigger] m.fields[i].field_name, '%', 's') == 0
                && count_pair(m.fields[i].field_name, ',', ' ') == 0,
    ensures
        count_pair(print_params_format(m, need_player_uid), '%', 's') == m.fields.len()
            + if need_player_uid {
            1nat
        } else {
            0nat
        },
        count_pair(params_with_message(m, need_player_uid, need_message), ',', ' ')
            == m.fields.len() + if need_player_uid {
            1nat
        } else {
            0nat
        },
{
    lemma_count_format_sep();
    lemma_count_format_tail();
    lemma_count_format_head();
    lemma_count_message_sep();
    lemma_count_uid_head();
    lemma_count_comma_sep();
    lemma_count_uid_message_head();
    reveal_strlit(":%s, ");
    reveal_strlit(":%s");
    reveal_strlit("playerUid:%s, ");
    reveal_strlit(", message.");
    reveal_strlit(", playerUid, ");
    reveal_strlit(", ");
    reveal_strlit(", playerUid, message.");
    let fs = m.fields;
    // The format.
    lemma_count_join(fs, ":%s, "@, '%', 's');
    let joined = join_names(fs, ":%s, "@);
    lemma_count_add(joined, ":%s"@, '%', 's');
    lemma_count_add("playerUid:%s, "@, joined + ":%s"@, '%', 's');
    // The arguments.
    assert forall|i: int| 0 <= i < fs.len() implies count_pair(#[trigger] fs[i].field_name, ',', ' ')
        == 0 by {}
    lemma_count_join(fs, ", message."@, ',', ' ');
    lemma_count_join(fs, ", "@, ',', ' ');
    lemma_count_add(", message."@, join_names(fs, ", message."@), ',', ' ');
    lemma_count_add(", playerUid, "@, join_names(fs, ", "@), ',', ' ');
    lemma_count_add(", playerUid, message."@, join_names(fs, ", message."@), ',', ' ');
    lemma_count_add(", "@, join_names(fs, ", "@), ',', ' ');
}

proof fn lemma_count_format_sep()
    ensures
        count_pair(":%s, "@, '%', 's') == 1,
{
    reveal_strlit(":%s, ");
    reveal_with_fuel(count_pair, 6);
}

proof fn lemma_count_format_tail()
    ensures
        count_pair(":%s"@, '%', 's') == 1,
{
    reveal_strlit(":%s");
    reveal_with_fuel(count_pair, 4);
}

proof fn lemma_count_format_head()
    ensures
        count_pair("playerUid:%s, "@, '%', 's') == 1,
{
    reveal_strlit("playerUid:%s, ");
    reveal_with_fuel(count_pair, 15);
}

proof fn lemma_count_message_sep()
    ensures
        count_pair(", message."@, ',', ' ') == 1,
{
    reveal_strlit(", message.");
    reveal_with_fuel(count_pair, 11);
}

proof fn lemma_count_uid_head()
    ensures
        count_pair(", playerUid, "@, ',', ' ') == 2,
{
    reveal_strlit(", playerUid, ");
    reveal_with_fuel(count_pair, 14);
}

proof fn lemma_count_comma_sep()
    ensures
        count_pair(", "@, ',', ' ') == 1,
{
    reveal_strlit(", ");
    reveal_with_fuel(count_pair, 3);
}

proof fn lemma_count_uid_message_head()
    ensures
        count_pair(", playerUid, message."@, ',', ' ') == 2,
{
    reveal_strlit(", playerUid, message.");
    reveal_with_fuel(count_pair, 22);
}

/// One line per field, each made by `line`.
pub open spec fn field_lines(fs: Seq<FieldView>, line: spec_fn(FieldView) -> Seq<char>) -> Seq<char>
    decreases fs.len(),
{
    if fs.len() == 0 {
        Seq::empty()
    } else {
        field_lines(fs.drop_last(), line) + line(fs.last())
    }
}

pub open spec fn param_line(prefix: Seq<char>) -> spec_fn(FieldView) -> Seq<char> {
    |f: FieldView|
        prefix + "---@param "@ + f.field_name + " "@ + type_string(f) + " "@ + f.comment + "\n"@
}

pub open spec fn field_doc_line(prefix: Seq<char>) -> spec_fn(FieldView) -> Seq<char> {
    |f: FieldView|
        prefix + "---@field "@ + f.field_name + " "@ + type_string(f) + " "@ + f.comment + "\n"@
}

pub open spec fn table_line(prefix: Seq<char>, use_value: bool) -> spec_fn(FieldView) -> Seq<char> {
    |f: FieldView|
        prefix + "\t"@ + f.field_name + " = "@ + (if use_value {
            default_value(f)
        } else {
            f.field_name
        }) + ",\n"@
}

/// The documentation comment of a handler function.
pub open spec fn func_doc_comment(m: MessageView, prefix: Seq<char>) -> Seq<char> {
    prefix + "---"@ + m.comment + "\n"@ + field_lines(m.fields, param_line(prefix))
}

/// The documentation comment of a Lua class.
pub open spec fn class_doc_comment(m: MessageView, prefix: Seq<char>) -> Seq<char> {
    prefix + "---@class "@ + m.msg_name_full + "\n"@ + field_lines(m.fields, field_doc_line(prefix))
}

/// A Lua table with one entry per field.
pub open spec fn table_string(
    m: MessageView,
    prefix: Seq<char>,
    new_table_name: Option<Seq<char>>,
    use_value: bool,
) -> Seq<char> {
    let name = match new_table_name {
        Some(n) => n,
        None => m.msg_name_full,
    };
    prefix + "local "@ + name + " = {\n"@ + field_lines(m.fields, table_line(prefix, use_value))
        + prefix + "}\n\n"@
}

/// The header line of a handler function.
pub open spec fn func_string(m: MessageView, is_ds: bool, table_name: Seq<char>) -> Seq<char> {
    let params = params_in_func(m, is_ds, false);
    let sends = "function "@ + table_name + ".send_"@ + m.msg_name_full + "("@ + params + ")\n"@;
    match m.msg_type {
        MessageType::Struct => Seq::empty(),
        MessageType::Req => if is_ds {
            "function "@ + table_name + ".on_"@ + m.msg_name_full + "(playerUid, message)\n"@
        } else {
            sends
        },
        _ => if is_ds {
            sends
        } else {
            "function "@ + table_name + ".on_"@ + m.msg_name_full + "(message)\n"@
        },
    }
}

/// The pattern that finds a message's existing definition in a Lua file.
pub open spec fn func_pattern(m: MessageView, is_ds: bool, table_name: Seq<char>) -> Seq<char> {
    let params = params_in_func(m, is_ds, false);
    let head = "^[ \t]*function[ \t]*"@ + table_name;
    let sends = head + "\\.send_"@ + m.msg_name_full + "\\("@ + params + "\\)"@;
    match m.msg_type {
        MessageType::Struct => "^[ \t]*---@class[ \t]*"@ + m.msg_name_full,
        MessageType::Req => if is_ds {
            head + "\\.on_"@ + m.msg_name_full + "\\(playerUid, message\\)"@
        } else {
            sends
        },
        _ => if is_ds {
            sends
        } else {
            head + "\\.on_"@ + m.msg_name_full + "\\(message\\)"@
        },
    }
}

/// A character that a regular expression does not read literally, among
/// those that a handler's header may hold.
pub open spec fn regex_meta(c: char) -> bool {
    c == '.' || c == '(' || c == ')' || c == '\\'
}

/// `s` with a backslash put before each such character, so that a regular
/// expression reads it literally.
pub open spec fn escape_meta(s: Seq<char>) -> Seq<char>
    decreases s.len(),
{
    if s.len() == 0 {
        Seq::empty()
    } else {
        escape_meta(s.drop_last()) + if regex_meta(s.last()) {
            seq!['\\', s.last()]
        } else {
            seq![s.last()]
        }
    }
}

/// `s` holds no such character.
pub open spec fn plain(s: Seq<char>) -> bool {
    forall|i: int| 0 <= i < s.len() ==> !regex_meta(#[trigger] s[i])
}

proof fn lemma_escape_add(a: Seq<char>, b: Seq<char>)
    ensures
        escape_meta(a + b) == escape_meta(a) + escape_meta(b),
    decreases b.len(),
{
    if b.len() == 0 {
        assert(a + b =~= a);
        assert(escape_meta(a) + escape_meta(b) =~= escape_meta(a));
    } else {
        lemma_escape_add(a, b.drop_last());
        assert((a + b).drop_last() =~= a + b.drop_last());
        assert((a + b).last() == b.last());
        let e = if regex_meta(b.last()) {
            seq!['\\', b.last()]
        } else {
            seq![b.last()]
        };
        assert(escape_meta(a) + escape_meta(b.drop_last()) + e =~= escape_meta(a) + (escape_meta(
            b.drop_last(),
        ) + e));
    }
}

proof fn lemma_escape_plain(s: Seq<char>)
    requires
        plain(s),
    ensures
        escape_meta(s) == s,
    decreases s.len(),
{
    if s.len() > 0 {
        assert(plain(s.drop_last())) by {
            assert forall|i: int| 0 <= i < s.drop_last().len() implies !regex_meta(
                #[trigger] s.drop_last()[i],
            ) by {
                assert(s.drop_last()[i] == s[i]);
            }
        }
        lemma_escape_plain(s.drop_last());
        assert(!regex_meta(s[s.len() - 1]));
        assert(s.drop_last() + seq![s.last()] =~= s);
    }
}

proof fn lemma_plain_add(a: Seq<char>, b: Seq<char>)
    requires
        plain(a),
        plain(b),
    ensures
        plain(a + b),
{
    assert forall|i: int| 0 <= i < (a + b).len() implies !regex_meta(#[trigger] (a + b)[i]) by {
        if i < a.len() {
            assert((a + b)[i] == a[i]);
        } else {
            assert((a + b)[i] == b[i - a.len()]);
        }
    }
}

proof fn lemma_join_plain(fs: Seq<FieldView>, sep: Seq<char>)
    requires
        plain(sep),
        forall|i: int| 0 <= i < fs.len() ==> plain(#[trigger] fs[i].field_name),
    ensures
        plain(join_names(fs, sep)),
    decreases fs.len(),
{
    if fs.len() == 1 {
        assert(plain(fs[0].field_name));
    } else if fs.len() > 1 {
        let init = fs.drop_last();
        assert forall|i: int| 0 <= i < init.len() implies plain(#[trigger] init[i].field_name) by {
            assert(init[i] == fs[i]);
        }
        lemma_join_plain(init, sep);
        lemma_plain_add(join_names(init, sep), sep);
        assert(plain(fs.last().field_name)) by {
            assert(fs.last() == fs[fs.len() - 1]);
        }
        lemma_plain_add(join_names(init, sep) + sep, fs.last().field_name);
    }
}

proof fn lemma_escape_on()
    ensures
        escape_meta(".on_"@) == "\\.on_"@,
{
    reveal_strlit(".on_");
    reveal_strlit("\\.on_");
    reveal_with_fuel(escape_meta, 5);
    assert(escape_meta(".on_"@) =~= "\\.on_"@);
}

proof fn lemma_escape_send()
    ensures
        escape_meta(".send_"@) == "\\.send_"@,
{
    reveal_strlit(".send_");
    reveal_strlit("\\.send_");
    reveal_with_fuel(escape_meta, 7);
    assert(escape_meta(".send_"@) =~= "\\.send_"@);
}

proof fn lemma_escape_uid_message()
    ensures
        escape_meta("(playerUid, message)"@) == "\\(playerUid, message\\)"@,
{
    reveal_strlit("(playerUid, message)");
    reveal_strlit("\\(playerUid, message\\)");
    reveal_with_fuel(escape_meta, 21);
    assert(escape_meta("(playerUid, message)"@) =~= "\\(playerUid, message\\)"@);
}

proof fn lemma_escape_message()
    ensures
        escape_meta("(message)"@) == "\\(message\\)"@,
{
    reveal_strlit("(message)");
    reveal_strlit("\\(message\\)");
    reveal_with_fuel(escape_meta, 10);
    assert(escape_meta("(message)"@) =~= "\\(message\\)"@);
}

proof fn lemma_escape_open()
    ensures
        escape_meta("("@) == "\\("@,
{
    reveal_strlit("(");
    reveal_strlit("\\(");
    reveal_with_fuel(escape_meta, 2);
    assert(escape_meta("("@) =~= "\\("@);
}

proof fn lemma_escape_close()
    ensures
        escape_meta(")"@) == "\\)"@,
{
    reveal_strlit(")");
    reveal_strlit("\\)");
    reveal_with_fuel(escape_meta, 2);
    assert(escape_meta(")"@) =~= "\\)"@);
}

/// A header `function <inner>` and a line end, and the escaped `<inner>`,
/// for `<inner>` made of a plain table name, a piece, a plain message name
/// and a piece.
proof fn lemma_header_text(
    table: Seq<char>,
    infix: Seq<char>,
    name: Seq<char>,
    tail: Seq<char>,
)
    requires
        plain(table),
        plain(name),
    ensures
        ({
            let inner = table + infix + name + tail;
            let h = "function "@ + inner + "\n"@;
            &&& 10 <= h.len()
            &&& h.subrange(0, 9) == "function "@
            &&& h.last() == '\n'
            &&& h.subrange(9, h.len() - 1) == inner
            &&& escape_meta(inner) == table + escape_meta(infix) + name + escape_meta(tail)
        }),
{
    reveal_strlit("function ");
    reveal_strlit("\n");
    let inner = table + infix + name + tail;
    let h = "function "@ + inner + "\n"@;
    assert(h.subrange(0, 9) =~= "function "@);
    assert(h.subrange(9, h.len() - 1) =~= inner);
    lemma_escape_plain(table);
    lemma_escape_plain(name);
    lemma_escape_add(table + infix + name, tail);
    lemma_escape_add(table + infix, name);
    lemma_escape_add(table, infix);
}

/// The parameters of a handler hold no character that needs escaping, where
/// the field names hold none.
proof fn lemma_params_plain(m: MessageView, is_ds: bool)
    requires
        forall|i: int| 0 <= i < m.fields.len() ==> plain(#[trigger] m.fields[i].field_name),
    ensures
        plain(params_in_func(m, is_ds, false)),
{
    reveal_strlit("playerUid, ");
    reveal_strlit("playerUid");
    reveal_strlit(", ");
    assert(plain(", "@));
    assert(plain("playerUid, "@));
    assert(plain("playerUid"@));
    lemma_join_plain(m.fields, ", "@);
    lemma_plain_add("playerUid, "@, join_names(m.fields, ", "@));
}

/// The escaped parameter list of a sending handler.
proof fn lemma_escape_param_list(params: Seq<char>)
    requires
        plain(params),
    ensures
        escape_meta("("@ + params + ")"@) == "\\("@ + params + "\\)"@,
{
    lemma_escape_open();
    lemma_escape_close();
    lemma_escape_plain(params);
    lemma_escape_add("("@ + params, ")"@);
    lemma_escape_add("("@, params);
}

/// The pattern that finds a handler in a Lua file is the handler's header
/// line read literally: for a table name, message name and field names that
/// hold no `.`, `(`, `)` or `\\`, the header is `function `, a text and a
/// line end, and the pattern is that text with those characters escaped,
/// anchored at the start of a line with blanks allowed around `function`.
pub proof fn lemma_pattern_finds_header(m: MessageView, is_ds: bool, table: Seq<char>)
    requires
        m.msg_type != MessageType::Struct,
        plain(table),
        plain(m.msg_name_full),
        forall|i: int| 0 <= i < m.fields.len() ==> plain(#[trigger] m.fields[i].field_name),
    ensures
        ({
            let h = func_string(m, is_ds, table);
            &&& 10 <= h.len()
            &&& h.subrange(0, 9) == "function "@
            &&& h.last() == '\n'
            &&& func_pattern(m, is_ds, table) == "^[ \t]*function[ \t]*"@ + escape_meta(
                h.subrange(9, h.len() - 1),
            )
        }),
{
    let name = m.msg_name_full;
    let on_side = match m.msg_type {
        MessageType::Req => is_ds,
        _ => !is_ds,
    };
    let head = "^[ \t]*function[ \t]*"@;
    if on_side {
        lemma_escape_on();
        if m.msg_type == MessageType::Req {
            lemma_escape_uid_message();
            reveal_strlit("(playerUid, message)\n");
            reveal_strlit("(playerUid, message)");
            reveal_strlit("\n");
            assert("(playerUid, message)\n"@ =~= "(playerUid, message)"@ + "\n"@);
            lemma_header_text(table, ".on_"@, name, "(playerUid, message)"@);
            assert(func_string(m, is_ds, table) =~= "function "@ + (table + ".on_"@ + name
                + "(playerUid, message)"@) + "\n"@);
            assert(func_pattern(m, is_ds, table) =~= head + (table + "\\.on_"@ + name
                + "\\(playerUid, message\\)"@));
        } else {
            lemma_escape_message();
            reveal_strlit("(message)\n");
            reveal_strlit("(message)");
            reveal_strlit("\n");
            assert("(message)\n"@ =~= "(message)"@ + "\n"@);
            lemma_header_text(table, ".on_"@, name, "(message)"@);
            assert(func_string(m, is_ds, table) =~= "function "@ + (table + ".on_"@ + name
                + "(message)"@) + "\n"@);
            assert(func_pattern(m, is_ds, table) =~= head + (table + "\\.on_"@ + name
                + "\\(message\\)"@));
        }
    } else {
        let params = params_in_func(m, is_ds, false);
        lemma_params_plain(m, is_ds);
        lemma_escape_send();
        lemma_escape_param_list(params);
        reveal_strlit(")\n");
        reveal_strlit(")");
        reveal_strlit("\n");
        assert(")\n"@ =~= ")"@ + "\n"@);
        lemma_header_text(table, ".send_"@, name, "("@ + params + ")"@);
        assert(func_string(m, is_ds, table) =~= "function "@ + (table + ".send_"@ + name + ("("@
            + params + ")"@)) + "\n"@);
        assert(func_pattern(m, is_ds, table) =~= head + (table + "\\.send_"@ + name + ("\\("@
            + params + "\\)"@)));
    }
}

/// The names of `fields` joined by `sep`.
fn join_field_names(fields: &Vec<Field>, sep: &str) -> (r: String)
    ensures
        r@ == join_names(fields.deep_view(), sep@),
{
    let ghost fs = fields.deep_view();
    let mut r = String::new();
    let mut i: usize = 0;
    while i < fields.len()
        invariant
            fs == fields.deep_view(),
            i <= fs.len(),
            r@ == join_names(fs.take(i as int), sep@),
        decreases fs.len() - i,
    {
        if i > 0 {
            r.append(sep);
        }
        r.append(fields[i].field_name.as_str());
        assert(fs.take(i + 1).drop_last() =~= fs.take(i as int));
        assert(fs.take(i + 1).last() == fields@[i as int].deep_view());
        proof {
            if i == 0 {
                assert(Seq::<char>::empty() + fields@[0].field_name@ =~= fields@[0].field_name@);
            }
        }
        i = i + 1;
    }
    assert(fs.take(fs.len() as int) =~= fs);
    r
}

impl Message {
    pub fn new() -> (r: Message)
        ensures
            r.deep_view() == (MessageView {
                msg_type: MessageType::Req,
                msg_name_full: Seq::empty(),
                short_name: Seq::empty(),
                fields: Seq::empty(),
                comment: Seq::empty(),
                p_target: None,
            }),
    {
        let r = Message {
            msg_type: MessageType::Req,
            msg_name_full: String::new(),
            short_name: String::new(),
            fields: Vec::new(),
            comment: String::new(),
            p_target: None,
        };
        assert(r.fields.deep_view() =~= Seq::<FieldView>::empty());
        r
    }

    /// The parameter list of a handler function; `is_need_prefix` puts
    /// `, ` in front, as a logging call needs.
    pub fn get_params_str_in_func(&self, is_ds: bool, is_need_prefix: bool) -> (r: String)
        ensures
            r@ == params_in_func(self.deep_view(), is_ds, is_need_prefix),
    {
        let joined = join_field_names(&self.fields, ", ");
        let params = if is_ds {
            if self.fields.len() > 0 {
                let mut p = String::from_str("playerUid, ");
                p.append(joined.as_str());
                p
            } else {
                String::from_str("playerUid")
            }
        } else {
            joined
        };
        if is_need_prefix {
            let mut r = String::from_str(", ");
            r.append(params.as_str());
            r
        } else {
            params
        }
    }

    /// The arguments that a logging call passes after its format string.
    pub fn get_params_str_in_func_with_message(&self, need_player_uid: bool, need_message: bool) -> (r: String)
        ensures
            r@ == params_with_message(self.deep_view(), need_player_uid, need_message),
    {
        if self.fields.len() > 0 {
            let (head, sep) = if need_message && !need_player_uid {
                (", message.", ", message.")
            } else if !need_message && need_player_uid {
                (", playerUid, ", ", ")
            } else if need_message && need_player_uid {
                (", playerUid, message.", ", message.")
            } else {
                (", ", ", ")
            };
            let mut r = String::from_str(head);
            let joined = join_field_names(&self.fields, sep);
            r.append(joined.as_str());
            r
        } else if need_player_uid {
            String::from_str(", playerUid")
        } else {
            String::new()
        }
    }

    /// The format string that a logging call uses for the fields.
    pub fn get_print_params_format_str(&self, need_player_uid: bool) -> (r: String)
        ensures
            r@ == print_params_format(self.deep_view(), need_player_uid),
    {
        let mut base = join_field_names(&self.fields, ":%s, ");
        base.append(":%s");
        if need_player_uid {
            let mut r = String::from_str("playerUid:%s, ");
            r.append(base.as_str());
            r
        } else {
            base
        }
    }

    /// The documentation comment of a handler function.
    pub fn gen_func_doc_comment(&self, prefix: &str) -> (r: String)
        ensures
            r@ == func_doc_comment(self.deep_view(), prefix@),
    {
        let ghost m = self.deep_view();
        let ghost head = prefix@ + "---"@ + m.comment + "\n"@;
        let mut ret = String::from_str(prefix);
        ret.append("---");
        ret.append(self.comment.as_str());
        ret.append("\n");
        let mut i: usize = 0;
        while i < self.fields.len()
            invariant
                m == self.deep_view(),
                i <= m.fields.len(),
                ret@ == head + field_lines(m.fields.take(i as int), param_line(prefix@)),
            decreases m.fields.len() - i,
        {
            let x = &self.fields[i];
            let t = x.get_type_string();
            ret.append(prefix);
            ret.append("---@param ");
            ret.append(x.field_name.as_str());
            ret.append(" ");
            ret.append(t.as_str());
            ret.append(" ");
            ret.append(x.comment.as_str());
            ret.append("\n");
            assert(m.fields.take(i + 1).drop_last() =~= m.fields.take(i as int));
            assert(m.fields.take(i + 1).last() == x.deep_view());
            i = i + 1;
        }
        assert(m.fields.take(m.fields.len() as int) =~= m.fields);
        ret
    }

    /// The documentation comment of a Lua class.
    pub fn gen_class_doc_comment(&self, prefix: &str) -> (r: String)
        ensures
            r@ == class_doc_comment(self.deep_view(), prefix@),
    {
        let ghost m = self.deep_view();
        let ghost head = prefix@ + "---@class "@ + m.msg_name_full + "\n"@;
        let mut ret = String::from_str(prefix);
        ret.append("---@class ");
        ret.append(self.msg_name_full.as_str());
        ret.append("\n");
        let mut i: usize = 0;
        while i < self.fields.len()
            invariant
                m == self.deep_view(),
                i <= m.fields.len(),
                ret@ == head + field_lines(m.fields.take(i as int), field_doc_line(prefix@)),
            decreases m.fields.len() - i,
        {
            let x = &self.fields[i];
            let t = x.get_type_string();
            ret.append(prefix);
            ret.append("---@field ");
            ret.append(x.field_name.as_str());
            ret.append(" ");
            ret.append(t.as_str());
            ret.append(" ");
            ret.append(x.comment.as_str());
            ret.append("\n");
            assert(m.fields.take(i + 1).drop_last() =~= m.fields.take(i as int));
            assert(m.fields.take(i + 1).last() == x.deep_view());
            i = i + 1;
        }
        assert(m.fields.take(m.fields.len() as int) =~= m.fields);
        ret
    }

    /// A Lua table with one entry per field.
    ///
    /// * `prefix`: put before every line, such as `--` or a tab
    /// * `new_table_name`: the table's name; `None` uses the message's name
    /// * `use_value`: give each entry its default value rather than the
    ///   field's name
    pub fn gen_table_string(&self, prefix: &str, new_table_name: Option<&str>, use_value: bool) -> (r: String)
        ensures
            r@ == table_string(
                self.deep_view(),
                prefix@,
                match new_table_name {
                    Some(n) => Some(n@),
                    None => None,
                },
                use_value,
            ),
    {
        let ghost m = self.deep_view();
        let ghost name = match new_table_name {
            Some(n) => n@,
            None => m.msg_name_full,
        };
        let ghost head = prefix@ + "local "@ + name + " = {\n"@;
        let mut ret = String::from_str(prefix);
        ret.append("local ");
        match new_table_name {
            None => ret.append(self.msg_name_full.as_str()),
            Some(table_name) => ret.append(table_name),
        }
        ret.append(" = {\n");
        let mut i: usize = 0;
        while i < self.fields.len()
            invariant
                m == self.deep_view(),
                i <= m.fields.len(),
                ret@ == head + field_lines(m.fields.take(i as int), table_line(prefix@, use_value)),
            decreases m.fields.len() - i,
        {
            let x = &self.fields[i];
            ret.append(prefix);
            ret.append("\t");
            ret.append(x.field_name.as_str());
            ret.append(" = ");
            if use_value {
                ret.append(x.get_default_value());
            } else {
                ret.append(x.field_name.as_str());
            }
            ret.append(",\n");
            assert(m.fields.take(i + 1).drop_last() =~= m.fields.take(i as int));
            assert(m.fields.take(i + 1).last() == x.deep_view());
            i = i + 1;
        }
        assert(m.fields.take(m.fields.len() as int) =~= m.fields);
        ret.append(prefix);
        ret.append("}\n\n");
        ret
    }

    /// The header line of a handler function: what a request, response or
    /// notification handler is called on each side; nothing for a struct.
    pub fn gen_func_string(&self, is_ds: bool, table_name: &str) -> (r: String)
        ensures
            r@ == func_string(self.deep_view(), is_ds, table_name@),
    {
        let params = self.get_params_str_in_func(is_ds, false);
        let mut s = String::new();
        let on_side = match self.msg_type {
            MessageType::Struct => {
                return s;
            },
            MessageType::Req => is_ds,
            _ => !is_ds,
        };
        s.append("function ");
        s.append(table_name);
        if on_side {
            s.append(".on_");
            s.append(self.msg_name_full.as_str());
            match self.msg_type {
                MessageType::Req => s.append("(playerUid, message)\n"),
                _ => s.append("(message)\n"),
            }
        } else {
            s.append(".send_");
            s.append(self.msg_name_full.as_str());
            s.append("(");
            s.append(params.as_str());
            s.append(")\n");
        }
        s
    }

    /// The pattern that finds this message's existing definition in a Lua
    /// file.
    pub fn func_pattern_string(&self, is_ds: bool, table_name: &str) -> (r: String)
        ensures
            r@ == func_pattern(self.deep_view(), is_ds, table_name@),
    {
        let params = self.get_params_str_in_func(is_ds, false);
        let mut s = String::new();
        let on_side = match self.msg_type {
            MessageType::Struct => {
                s.append("^[ \t]*---@class[ \t]*");
                s.append(self.msg_name_full.as_str());
                return s;
            },
            MessageType::Req => is_ds,
            _ => !is_ds,
        };
        s.append("^[ \t]*function[ \t]*");
        s.append(table_name);
        if on_side {
            s.append("\\.on_");
            s.append(self.msg_name_full.as_str());
            match self.msg_type {
                MessageType::Req => s.append("\\(playerUid, message\\)"),
                _ => s.append("\\(message\\)"),
            }
        } else {
            s.append("\\.send_");
            s.append(self.msg_name_full.as_str());
            s.append("\\(");
            s.append(params.as_str());
            s.append("\\)");
        }
        s
    }

    /// The compiled pattern that finds this message's existing definition in
    /// a Lua file; `None` where the `regex` crate refuses the pattern text.
    pub fn make_func_regex(&self, is_ds: bool, table_name: &str) -> (res: Option<Pattern>)
        ensures
            res is Some <==> regex_compiles(func_pattern(self.deep_view(), is_ds, table_name@)),
            res matches Some(p) ==> p@ == func_pattern(self.deep_view(), is_ds, table_name@),
    {
        let text = self.func_pattern_string(is_ds, table_name);
        compile(text.as_str())
    }
}

impl Field {
    pub fn new() -> (r: Field)
        ensures
            r.deep_view() == (FieldView {
                is_array: false,
                field_type: Seq::empty(),
                field_name: Seq::empty(),
                comment: Seq::empty(),
            }),
    {
        Field {
            is_array: false,
            field_name: String::new(),
            field_type: String::new(),
            comment: String::new(),
        }
    }

    /// The type of the field as the Lua annotations write it.
    pub fn get_type_string(&self) -> (r: String)
        ensures
            r@ == type_string(self.deep_view()),
    {
        if self.is_array {
            let mut r = String::from_str(self.field_type.as_str());
            r.append("[]");
            r
        } else {
            let t = self.field_type.as_str();
            if str_eq(t, "int32") || str_eq(t, "int64") || str_eq(t, "float") {
                String::from_str("number")
            } else if str_eq(t, "string") {
                String::new()
            } else {
                String::from_str(t)
            }
        }
    }

    /// The Lua value that the field starts with.
    pub fn get_default_value(&self) -> (r: &'static str)
        ensures
            r@ == default_value(self.deep_view()),
    {
        if self.is_array {
            "{}"
        } else {
            let t = self.field_type.as_str();
            if str_eq(t, "int32") || str_eq(t, "int64") || str_eq(t, "float") {
                "0"
            } else if str_eq(t, "string") {
                "\"\""
            } else {
                "nil"
            }
        }
    }
}

} // verus!
