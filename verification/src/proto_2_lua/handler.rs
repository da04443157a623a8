//! The Lua handler code of the messages of a file, for the client side or the
//! DS side.
use vstd::prelude::*;
use vstd::string::StringExecFns;
use crate::strings::{has_suffix, str_eq};
use crate::proto_2_lua::class_def::{
    class_doc_comment, default_value, field_lines, func_doc_comment, func_string, params_in_func,
    params_with_message, print_params_format, table_line, table_string, FieldView, FileStruct, Message,
    MessageType, MessageView,
};

verus! {

/// The logging line at the start of a handler.
pub open spec fn print_line(m: MessageView, table: Seq<char>, is_ds: bool) -> Seq<char> {
    let start = "\tprint(bWriteLog and string.format(\""@ + table;
    let name = m.msg_name_full;
    let fmt = print_params_format(m, is_ds);
    let bare = start + "."@ + name + " \"))\n"@;
    if m.fields.len() > 0 {
        let (infix, need_message) = match m.msg_type {
            MessageType::Req => if is_ds {
                (".on_"@, true)
            } else {
                (".send_"@, false)
            },
            _ => if is_ds {
                ("."@, false)
            } else {
                (".on_"@, true)
            },
        };
        start + infix + name + " "@ + fmt + "\""@ + params_with_message(m, is_ds, need_message)
            + "))\n"@
    } else if m.msg_type == MessageType::Req && is_ds {
        start + "."@ + name + " playerUid:%s\",playerUid))\n"@
    } else {
        bare
    }
}

/// The line that sends the table `res_param` as the message `name` of the
/// module `mod_name`.
pub open spec fn send_line(mod_name: Seq<char>, name: Seq<char>, is_ds: bool) -> Seq<char> {
    "\tds_net.SendMessage(\""@ + mod_name + "."@ + name + (if is_ds {
        "\", res_param, playerUid)\n"@
    } else {
        "\", res_param)\n"@
    })
}

/// The first of the first `n` messages named `name`.
pub open spec fn first_named(msgs: Seq<MessageView>, name: Seq<char>, n: int) -> Option<usize>
    decreases n,
{
    if n <= 0 {
        None
    } else {
        match first_named(msgs, name, n - 1) {
            Some(k) => Some(k),
            None => if msgs[n - 1].msg_name_full == name {
                Some((n - 1) as usize)
            } else {
                None
            },
        }
    }
}

/// Once found, the first message of a name stays the first as more messages
/// are looked at, and it lies among those looked at.
proof fn lemma_first_named(msgs: Seq<MessageView>, name: Seq<char>, a: int, b: int)
    requires
        0 <= a <= b,
    ensures
        first_named(msgs, name, a) is Some ==> first_named(msgs, name, b) == first_named(msgs, name, a),
        first_named(msgs, name, b) matches Some(k) ==> k < b,
    decreases b,
{
    if b > a {
        lemma_first_named(msgs, name, a, b - 1);
    } else if b > 0 {
        lemma_first_named(msgs, name, 0, b - 1);
    }
}

/// A local variable for a field of the reply, at its default value.
pub open spec fn local_line() -> spec_fn(FieldView) -> Seq<char> {
    |f: FieldView| "\tlocal "@ + f.field_name + " = "@ + default_value(f) + "\n"@
}

/// The DS side's answer to a request: locals for the fields of its response
/// and the call that sends it. The response is found again by name, the
/// first message of the file that bears it.
pub open spec fn reply_code(msgs: Seq<MessageView>, m: MessageView, table: Seq<char>) -> Seq<char> {
    match m.p_target {
        Some(t) => if t < msgs.len() {
            match first_named(msgs, msgs[t as int].msg_name_full, msgs.len() as int) {
                Some(j) => {
                    let x = msgs[j as int];
                    field_lines(x.fields, local_line()) + "\t"@ + table + "."@ + x.msg_name_full + "("@
                        + params_in_func(x, true, false) + ")\n"@
                },
                None => Seq::empty(),
            }
        } else {
            Seq::empty()
        },
        None => Seq::empty(),
    }
}

/// The Lua code of message `k` of a file: a class for a struct, a handler
/// function for the others.
pub open spec fn message_code(
    msgs: Seq<MessageView>,
    k: int,
    mod_name: Seq<char>,
    table: Seq<char>,
    is_ds: bool,
) -> Seq<char> {
    let m = msgs[k];
    let res_table = table_string(m, "\t"@, Some("res_param"@), false);
    match m.msg_type {
        MessageType::Struct => class_doc_comment(m, Seq::empty()) + table_string(m, "--"@, None, true),
        MessageType::Req => func_doc_comment(m, Seq::empty()) + func_string(m, is_ds, table)
            + print_line(m, table, is_ds) + (if is_ds {
            reply_code(msgs, m, table)
        } else {
            res_table + send_line(mod_name, m.msg_name_full, false)
        }) + "end\n\n"@,
        _ => func_doc_comment(m, Seq::empty()) + func_string(m, is_ds, table) + print_line(
            m,
            table,
            is_ds,
        ) + (if is_ds {
            res_table + send_line(mod_name, m.msg_name_full, true)
        } else {
            Seq::empty()
        }) + "end\n\n"@,
    }
}

/// The code of the messages `remain`, by their indices, in that order; an
/// index past the last message gives nothing.
pub open spec fn function_code(
    msgs: Seq<MessageView>,
    remain: Seq<usize>,
    mod_name: Seq<char>,
    table: Seq<char>,
    is_ds: bool,
) -> Seq<char>
    decreases remain.len(),
{
    if remain.len() == 0 {
        Seq::empty()
    } else {
        let k = remain.last();
        function_code(msgs, remain.drop_last(), mod_name, table, is_ds) + (if k < msgs.len() {
            message_code(msgs, k as int, mod_name, table, is_ds)
        } else {
            Seq::empty()
        })
    }
}

/// An entry of the table `res_param`: the field's name bound to the
/// variable of the same name.
pub open spec fn res_param_entry() -> spec_fn(FieldView) -> Seq<char> {
    |f: FieldView| "\t\t"@ + f.field_name + " = "@ + f.field_name + ",\n"@
}

/// How the DS side's handler of a message named `name` with fields `fields`
/// ends when it sends the message: it builds the table `res_param` of the
/// fields, sends it to the player as the message `name` of `mod_name`, and
/// ends the function.
pub open spec fn ds_send_tail(fields: Seq<FieldView>, mod_name: Seq<char>, name: Seq<char>) -> Seq<
    char,
> {
    "\tlocal res_param = {\n"@ + field_lines(fields, res_param_entry()) + "\t}\n\n"@
        + "\tds_net.SendMessage(\""@ + mod_name + "."@ + name + "\", res_param, playerUid)\n"@
        + "end\n\n"@
}

/// On the DS side, the code of a response or a notification sends it: it
/// ends by building `res_param` from the message's fields and sending it to
/// the player.
pub proof fn lemma_ds_sends_responses(
    msgs: Seq<MessageView>,
    k: int,
    mod_name: Seq<char>,
    table: Seq<char>,
)
    requires
        0 <= k < msgs.len() <= usize::MAX,
        msgs[k].msg_type == MessageType::Rsp || msgs[k].msg_type == MessageType::Notify,
    ensures
        has_suffix(
            function_code(msgs, seq![k as usize], mod_name, table, true),
            ds_send_tail(msgs[k].fields, mod_name, msgs[k].msg_name_full),
        ),
{
    let m = msgs[k];
    reveal_strlit("\t");
    reveal_strlit("\t\t");
    reveal_strlit("local ");
    reveal_strlit("res_param");
    reveal_strlit(" = {\n");
    reveal_strlit("\tlocal res_param = {\n");
    reveal_strlit("}\n\n");
    reveal_strlit("\t}\n\n");
    assert(table_line("\t"@, false) =~= res_param_entry()) by {
        assert forall|f: FieldView| #[trigger] table_line("\t"@, false)(f) == res_param_entry()(f) by {
            assert("\t"@ + "\t"@ =~= "\t\t"@);
            assert("\t"@ + "\t"@ + f.field_name + " = "@ + f.field_name + ",\n"@ =~= "\t\t"@
                + f.field_name + " = "@ + f.field_name + ",\n"@);
        }
    }
    let body = field_lines(m.fields, res_param_entry());
    assert(table_string(m, "\t"@, Some("res_param"@), false) =~= "\tlocal res_param = {\n"@ + body
        + "\t}\n\n"@);
    let tail = ds_send_tail(m.fields, mod_name, m.msg_name_full);
    let head = func_doc_comment(m, Seq::empty()) + func_string(m, true, table) + print_line(m, table, true);
    let code = message_code(msgs, k, mod_name, table, true);
    assert(code =~= head + tail);
    assert(seq![k as usize].drop_last() =~= Seq::<usize>::empty());
    assert(seq![k as usize].last() == k as usize);
    let fc = function_code(msgs, seq![k as usize], mod_name, table, true);
    assert(function_code(msgs, Seq::<usize>::empty(), mod_name, table, true).len() == 0);
    assert(fc =~= code);
    assert(fc.subrange(fc.len() - tail.len(), fc.len() as int) =~= tail);
}

/// The logging line at the start of a handler.
fn print_line_of(m: &Message, table_name: &str, is_ds: bool) -> (r: String)
    ensures
        r@ == print_line(m.deep_view(), table_name@, is_ds),
{
    let mut s = String::from_str("\tprint(bWriteLog and string.format(\"");
    s.append(table_name);
    let name = m.msg_name_full.as_str();
    if m.fields.len() > 0 {
        let (infix, need_message) = match m.msg_type {
            MessageType::Req => if is_ds {
                (".on_", true)
            } else {
                (".send_", false)
            },
            _ => if is_ds {
                (".", false)
            } else {
                (".on_", true)
            },
        };
        let fmt = m.get_print_params_format_str(is_ds);
        let params = m.get_params_str_in_func_with_message(is_ds, need_message);
        s.append(infix);
        s.append(name);
        s.append(" ");
        s.append(fmt.as_str());
        s.append("\"");
        s.append(params.as_str());
        s.append("))\n");
    } else if m.msg_type == MessageType::Req && is_ds {
        s.append(".");
        s.append(name);
        s.append(" playerUid:%s\",playerUid))\n");
    } else {
        s.append(".");
        s.append(name);
        s.append(" \"))\n");
    }
    s
}

/// The line that sends `res_param`.
fn send_line_of(mod_name: &str, name: &str, is_ds: bool) -> (r: String)
    ensures
        r@ == send_line(mod_name@, name@, is_ds),
{
    let mut s = String::from_str("\tds_net.SendMessage(\"");
    s.append(mod_name);
    s.append(".");
    s.append(name);
    if is_ds {
        s.append("\", res_param, playerUid)\n");
    } else {
        s.append("\", res_param)\n");
    }
    s
}

/// The first message of `msgs` named `name`.
fn first_named_index(msgs: &Vec<Message>, name: &str) -> (r: Option<usize>)
    ensures
        r == first_named(msgs.deep_view(), name@, msgs.len() as int),
{
    let ghost v = msgs.deep_view();
    let mut i: usize = 0;
    while i < msgs.len()
        invariant
            v == msgs.deep_view(),
            i <= v.len(),
            first_named(v, name@, i as int) is None,
        decreases v.len() - i,
    {
        assert(v[i as int] == msgs[i as int].deep_view());
        if str_eq(msgs[i].msg_name_full.as_str(), name) {
            proof { lemma_first_named(v, name@, i + 1, v.len() as int); }
            return Some(i);
        }
        i = i + 1;
    }
    None
}

/// The DS side's answer to a request.
fn reply_code_of(msgs: &Vec<Message>, m: &Message, table_name: &str) -> (r: String)
    ensures
        r@ == reply_code(msgs.deep_view(), m.deep_view(), table_name@),
{
    let ghost v = msgs.deep_view();
    let mut s = String::new();
    let t = match m.p_target {
        Some(t) => t,
        None => return s,
    };
    if t >= msgs.len() {
        return s;
    }
    assert(v[t as int] == msgs[t as int].deep_view());
    let j = match first_named_index(msgs, msgs[t].msg_name_full.as_str()) {
        Some(j) => j,
        None => return s,
    };
    proof { lemma_first_named(v, v[t as int].msg_name_full, 0, v.len() as int); }
    let x = &msgs[j];
    assert(v[j as int] == x.deep_view());
    let ghost xv = x.deep_view();
    let mut i: usize = 0;
    while i < x.fields.len()
        invariant
            xv == x.deep_view(),
            i <= xv.fields.len(),
            s@ == field_lines(xv.fields.take(i as int), local_line()),
        decreases xv.fields.len() - i,
    {
        let f = &x.fields[i];
        s.append("\tlocal ");
        s.append(f.field_name.as_str());
        s.append(" = ");
        s.append(f.get_default_value());
        s.append("\n");
        assert(xv.fields.take(i + 1).drop_last() =~= xv.fields.take(i as int));
        assert(xv.fields.take(i + 1).last() == f.deep_view());
        i = i + 1;
    }
    assert(xv.fields.take(xv.fields.len() as int) =~= xv.fields);
    let params = x.get_params_str_in_func(true, false);
    s.append("\t");
    s.append(table_name);
    s.append(".");
    s.append(x.msg_name_full.as_str());
    s.append("(");
    s.append(params.as_str());
    s.append(")\n");
    s
}

/// The Lua code of message `k` of the file.
fn message_code_of(file_struct: &FileStruct, k: usize, table_name: &str, is_ds: bool) -> (r: String)
    requires
        k < file_struct.messages.len(),
    ensures
        r@ == message_code(
            file_struct.messages.deep_view(),
            k as int,
            file_struct.mod_name@,
            table_name@,
            is_ds,
        ),
{
    let msgs = &file_struct.messages;
    let m = &msgs[k];
    assert(msgs.deep_view()[k as int] == m.deep_view());
    match m.msg_type {
        MessageType::Struct => {
            let mut s = m.gen_class_doc_comment("");
            let t = m.gen_table_string("--", None, true);
            s.append(t.as_str());
            proof { reveal_strlit(""); }
            assert(""@ =~= Seq::<char>::empty());
            s
        },
        _ => {
            let mut s = m.gen_func_doc_comment("");
            let head = m.gen_func_string(is_ds, table_name);
            s.append(head.as_str());
            let p = print_line_of(m, table_name, is_ds);
            s.append(p.as_str());
            let is_req = m.msg_type == MessageType::Req;
            if is_req && is_ds {
                let reply = reply_code_of(msgs, m, table_name);
                s.append(reply.as_str());
            } else if is_req || is_ds {
                let t = m.gen_table_string("\t", Some("res_param"), false);
                s.append(t.as_str());
                let send = send_line_of(file_struct.mod_name.as_str(), m.msg_name_full.as_str(), is_ds);
                s.append(send.as_str());
            }
            s.append("end\n\n");
            proof { reveal_strlit(""); }
            assert(""@ =~= Seq::<char>::empty());
            s
        },
    }
}

/// The code of the messages `remain` of the file, by their indices, in that
/// order.
pub fn insert_function_code(
    remain: &Vec<usize>,
    table_name: &str,
    file_struct: &FileStruct,
    is_ds: bool,
) -> (r: String)
    ensures
        r@ == function_code(
            file_struct.messages.deep_view(),
            remain@,
            file_struct.mod_name@,
            table_name@,
            is_ds,
        ),
{
    let ghost msgs = file_struct.messages.deep_view();
    let mut s = String::new();
    let mut i: usize = 0;
    while i < remain.len()
        invariant
            msgs == file_struct.messages.deep_view(),
            i <= remain.len(),
            s@ == function_code(msgs, remain@.take(i as int), file_struct.mod_name@, table_name@, is_ds),
        decreases remain.len() - i,
    {
        let k = remain[i];
        if k < file_struct.messages.len() {
            let c = message_code_of(file_struct, k, table_name, is_ds);
            s.append(c.as_str());
        }
        assert(remain@.take(i + 1).drop_last() =~= remain@.take(i as int));
        i = i + 1;
    }
    assert(remain@.take(remain.len() as int) =~= remain@);
    s
}

} // verus!
