//! The route table of a module: which side handles which message of each file.
use vstd::prelude::*;
use vstd::string::StringExecFns;
use crate::proto_2_lua::class_def::{FileStruct, FileStructView, Message, MessageType, MessageView};

verus! {

/// The route of one message in the table of one side: a flag for what that
/// side sends, the name of the handler for what it receives; structs have
/// none.
pub open spec fn route_line(m: MessageView, for_client: bool) -> Seq<char> {
    let flag = "\t\t\t"@ + m.msg_name_full + " = true,\n"@;
    let handler = "\t\t\t"@ + m.msg_name_full + " = \"on_"@ + m.msg_name_full + "\",\n"@;
    match m.msg_type {
        MessageType::Struct => Seq::empty(),
        MessageType::Req => if for_client {
            flag
        } else {
            handler
        },
        _ => if for_client {
            handler
        } else {
            flag
        },
    }
}

/// The routes of the messages of one file.
pub open spec fn route_lines(msgs: Seq<MessageView>, for_client: bool) -> Seq<char>
    decreases msgs.len(),
{
    if msgs.len() == 0 {
        Seq::empty()
    } else {
        route_lines(msgs.drop_last(), for_client) + route_line(msgs.last(), for_client)
    }
}

/// Each side flags what it sends and routes what it receives to its
/// `on_` handler: the client flags requests and handles responses and
/// notifications, the DS side the reverse; structs get no route.
pub proof fn lemma_route_sides(m: MessageView)
    ensures
        ({
            let flag = "\t\t\t"@ + m.msg_name_full + " = true,\n"@;
            let handler = "\t\t\t"@ + m.msg_name_full + " = \"on_"@ + m.msg_name_full + "\",\n"@;
            &&& m.msg_type == MessageType::Req ==> route_lines(seq![m], true) == flag && route_lines(
                seq![m],
                false,
            ) == handler
            &&& (m.msg_type == MessageType::Rsp || m.msg_type == MessageType::Notify) ==> route_lines(
                seq![m],
                true,
            ) == handler && route_lines(seq![m], false) == flag
            &&& m.msg_type == MessageType::Struct ==> route_lines(seq![m], true).len() == 0
                && route_lines(seq![m], false).len() == 0
        }),
{
    assert(seq![m].drop_last() =~= Seq::<MessageView>::empty());
    assert(seq![m].last() == m);
    assert(route_lines(Seq::<MessageView>::empty(), true).len() == 0);
    assert(route_lines(Seq::<MessageView>::empty(), false).len() == 0);
    assert(route_lines(seq![m], true) =~= route_line(m, true));
    assert(route_lines(seq![m], false) =~= route_line(m, false));
    assert(Seq::<char>::empty() + route_line(m, true) =~= route_line(m, true));
    assert(Seq::<char>::empty() + route_line(m, false) =~= route_line(m, false));
}

/// The entry of one file in the table of one side (`side` is `Client` or
/// `DS`).
pub open spec fn route_entry(
    mod_name: Seq<char>,
    f: FileStructView,
    side: Seq<char>,
    for_client: bool,
) -> Seq<char> {
    "\t"@ + f.file_name + " =\n\t{\n"@ + "\t\tmoduleName = \"GameLua.Mod."@ + mod_name + "."@ + side
        + ".Handler."@ + mod_name + "_"@ + f.file_name + "_"@ + side + "_Handler\",\n"@
        + "\t\tpbFileName = \""@ + mod_name + "/"@ + f.file_name + ".pb\",\n"@
        + "\t\troutes =\n\t\t{\n"@ + route_lines(f.messages, for_client) + "\t\t},\n"@ + "\t},\n"@
}

/// The entries of all files in the table of one side.
pub open spec fn route_entries(
    files: Seq<FileStructView>,
    mod_name: Seq<char>,
    side: Seq<char>,
    for_client: bool,
) -> Seq<char>
    decreases files.len(),
{
    if files.len() == 0 {
        Seq::empty()
    } else {
        route_entries(files.drop_last(), mod_name, side, for_client) + route_entry(
            mod_name,
            files.last(),
            side,
            for_client,
        )
    }
}

/// The opening lines of the route file.
pub open spec fn route_header() -> Seq<char> {
    "\n--- 各个Mod PB协议路由定义配置文件，此文件乃自动生成，请勿手动修改\n"@ + "--- samizheng\n\n\n"@
}

/// The closing lines, which hand each side its table.
pub open spec fn route_footer() -> Seq<char> {
    "\nif Client then\n\treturn PBRouteConfig_Client\nelse\n\treturn PBRouteConfig_DS\nend\n"@
}

/// The route file of the files `files`, all of the module of the first.
pub open spec fn route_config_text(files: Seq<FileStructView>) -> Seq<char> {
    let mod_name = files[0].mod_name;
    route_header() + "--1.PB协议：客户端响应DS的协议表\n"@ + "local PBRouteConfig_Client =\n{\n"@
        + route_entries(files, mod_name, "Client"@, true) + "}\n\n"@
        + "--2.PB协议：DS响应客户端的协议表\n"@ + "local PBRouteConfig_DS =\n{\n"@
        + route_entries(files, mod_name, "DS"@, false) + "}\n\n\n"@ + route_footer()
}

/// Appends the routes of `msgs`.
fn push_route_lines(out: &mut String, msgs: &Vec<Message>, for_client: bool)
    ensures
        final(out)@ == old(out)@ + route_lines(msgs.deep_view(), for_client),
{
    let ghost v = msgs.deep_view();
    let ghost start = out@;
    let mut i: usize = 0;
    while i < msgs.len()
        invariant
            v == msgs.deep_view(),
            i <= v.len(),
            out@ == start + route_lines(v.take(i as int), for_client),
        decreases v.len() - i,
    {
        let m = &msgs[i];
        let name = m.msg_name_full.as_str();
        let flag = match m.msg_type {
            MessageType::Struct => None,
            MessageType::Req => Some(for_client),
            _ => Some(!for_client),
        };
        let mut line = String::new();
        if let Some(flag) = flag {
            line.append("\t\t\t");
            line.append(name);
            if flag {
                line.append(" = true,\n");
            } else {
                line.append(" = \"on_");
                line.append(name);
                line.append("\",\n");
            }
        }
        assert(v.take(i + 1).drop_last() =~= v.take(i as int));
        assert(v.take(i + 1).last() == m.deep_view());
        assert(line@ =~= route_line(m.deep_view(), for_client));
        out.append(line.as_str());
        i = i + 1;
    }
    assert(v.take(v.len() as int) =~= v);
}

/// Appends the entries of all files in the table of one side.
fn push_route_entries(
    out: &mut String,
    files: &Vec<FileStruct>,
    mod_name: &str,
    side: &str,
    for_client: bool,
)
    ensures
        final(out)@ == old(out)@ + route_entries(files.deep_view(), mod_name@, side@, for_client),
{
    let ghost v = files.deep_view();
    let ghost start = out@;
    let mut i: usize = 0;
    while i < files.len()
        invariant
            v == files.deep_view(),
            i <= v.len(),
            out@ == start + route_entries(v.take(i as int), mod_name@, side@, for_client),
        decreases v.len() - i,
    {
        let f = &files[i];
        let file_name = f.file_name.as_str();
        let mut e = String::from_str("\t");
        e.append(file_name);
        e.append(" =\n\t{\n");
        e.append("\t\tmoduleName = \"GameLua.Mod.");
        e.append(mod_name);
        e.append(".");
        e.append(side);
        e.append(".Handler.");
        e.append(mod_name);
        e.append("_");
        e.append(file_name);
        e.append("_");
        e.append(side);
        e.append("_Handler\",\n");
        e.append("\t\tpbFileName = \"");
        e.append(mod_name);
        e.append("/");
        e.append(file_name);
        e.append(".pb\",\n");
        e.append("\t\troutes =\n\t\t{\n");
        push_route_lines(&mut e, &f.messages, for_client);
        e.append("\t\t},\n");
        e.append("\t},\n");
        assert(v.take(i + 1).drop_last() =~= v.take(i as int));
        assert(v.take(i + 1).last() == f.deep_view());
        assert(e@ =~= route_entry(mod_name@, f.deep_view(), side@, for_client));
        out.append(e.as_str());
        i = i + 1;
    }
    assert(v.take(v.len() as int) =~= v);
}

/// The route file of the module of the first of `files`: for each file, the
/// handler module, the protocol file and the routes of each side. `None`
/// where there are no files, and so nothing to write.
pub fn route_config(files: &Vec<FileStruct>) -> (res: Option<String>)
    ensures
        res is Some <==> files.len() > 0,
        res matches Some(t) ==> t@ == route_config_text(files.deep_view()),
{
    if files.len() == 0 {
        return None;
    }
    let mod_name = files[0].mod_name.as_str();
    let mut s = String::from_str("\n--- 各个Mod PB协议路由定义配置文件，此文件乃自动生成，请勿手动修改\n");
    s.append("--- samizheng\n\n\n");
    s.append("--1.PB协议：客户端响应DS的协议表\n");
    s.append("local PBRouteConfig_Client =\n{\n");
    push_route_entries(&mut s, files, mod_name, "Client", true);
    s.append("}\n\n");
    s.append("--2.PB协议：DS响应客户端的协议表\n");
    s.append("local PBRouteConfig_DS =\n{\n");
    push_route_entries(&mut s, files, mod_name, "DS", false);
    s.append("}\n\n\n");
    s.append("\nif Client then\n\treturn PBRouteConfig_Client\nelse\n\treturn PBRouteConfig_DS\nend\n");
    Some(s)
}

} // verus!
