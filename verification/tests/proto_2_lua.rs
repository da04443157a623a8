use rust_tools::proto_2_lua::class_def::{Field, FileStruct, Message, MessageType};
use rust_tools::proto_2_lua::handler::insert_function_code;
use rust_tools::proto_2_lua::route::route_config;
use rust_tools::proto_2_lua::scan::parse_lines;
use rust_tools::proto_2_lua::update::{create_or_update_file, handler_table_name, ExistingFile, FileUpdate};

fn lines(text: &[&str]) -> Vec<String> {
    text.iter().map(|l| l.to_string()).collect()
}

fn login_file() -> FileStruct {
    let src = lines(&[
        "// the login request\n",
        "message login_req {\n",
        "    repeated int32 ids = 1; // the ids\n",
        "    string name = 2;\n",
        "}\n",
        "message login_rsp\n",
        "{\n",
        "    int32 code = 1;\n",
        "}\n",
        "message Info {\n",
        "}\n",
    ]);
    parse_lines("Mod".to_string(), "file".to_string(), &src).expect("the patterns compile")
}

fn field(is_array: bool, field_type: &str, field_name: &str, comment: &str) -> Field {
    let mut f = Field::new();
    f.is_array = is_array;
    f.field_type = field_type.to_string();
    f.field_name = field_name.to_string();
    f.comment = comment.to_string();
    f
}

#[test]
fn parse_lines_reads_messages_and_fields() {
    let fs = login_file();
    assert_eq!("Mod", fs.mod_name);
    assert_eq!("file", fs.file_name);
    assert_eq!(3, fs.messages.len());

    let req = &fs.messages[0];
    assert_eq!(MessageType::Req, req.msg_type);
    assert_eq!("login_req", req.msg_name_full);
    assert_eq!("login", req.short_name);
    assert_eq!(" the login request", req.comment);
    assert_eq!(2, req.fields.len());
    assert!(req.fields[0].is_array);
    assert_eq!("int32", req.fields[0].field_type);
    assert_eq!("ids", req.fields[0].field_name);
    assert_eq!(" the ids", req.fields[0].comment);
    assert!(!req.fields[1].is_array);
    assert_eq!("string", req.fields[1].field_type);
    assert_eq!("name", req.fields[1].field_name);
    assert_eq!("", req.fields[1].comment);
    assert_eq!(Some(1), req.p_target);

    let rsp = &fs.messages[1];
    assert_eq!(MessageType::Rsp, rsp.msg_type);
    assert_eq!("login", rsp.short_name);
    assert_eq!(1, rsp.fields.len());
    assert_eq!(None, rsp.p_target);

    let info = &fs.messages[2];
    assert_eq!(MessageType::Struct, info.msg_type);
    assert_eq!("", info.short_name);
    assert_eq!(0, info.fields.len());
}

#[test]
fn parse_lines_links_the_last_response() {
    let src = lines(&[
        "message a_rsp {\n",
        "}\n",
        "message a_req {\n",
        "}\n",
        "message a_rsp {\n",
        "}\n",
        "message b_notify {\n",
        "}\n",
    ]);
    let fs = parse_lines("M".to_string(), "f".to_string(), &src).expect("the patterns compile");
    assert_eq!(4, fs.messages.len());
    assert_eq!(Some(2), fs.messages[1].p_target);
    assert_eq!(None, fs.messages[0].p_target);
    assert_eq!(MessageType::Notify, fs.messages[3].msg_type);
    assert_eq!("b", fs.messages[3].short_name);
}

#[test]
fn parse_lines_without_lines() {
    let fs = parse_lines("M".to_string(), "f".to_string(), &Vec::new()).expect("the patterns compile");
    assert_eq!(0, fs.messages.len());
}

#[test]
fn message_pieces() {
    let mut m = Message::new();
    m.msg_type = MessageType::Req;
    m.msg_name_full = "login_req".to_string();
    m.comment = " log in".to_string();
    m.fields.push(field(true, "int32", "ids", "the ids"));
    m.fields.push(field(false, "string", "name", "who"));

    assert_eq!("ids, name", m.get_params_str_in_func(false, false));
    assert_eq!("playerUid, ids, name", m.get_params_str_in_func(true, false));
    assert_eq!(", playerUid, ids, name", m.get_params_str_in_func(true, true));
    assert_eq!(", playerUid, message.ids, message.name", m.get_params_str_in_func_with_message(true, true));
    assert_eq!(", message.ids, message.name", m.get_params_str_in_func_with_message(false, true));
    assert_eq!(", ids, name", m.get_params_str_in_func_with_message(false, false));
    assert_eq!("playerUid:%s, ids:%s, name:%s", m.get_print_params_format_str(true));
    assert_eq!(
        "function T.on_login_req(playerUid, message)\n",
        m.gen_func_string(true, "T")
    );
    assert_eq!("function T.send_login_req(ids, name)\n", m.gen_func_string(false, "T"));
    assert_eq!(
        "--- log in\n---@param ids int32[] the ids\n---@param name  who\n",
        m.gen_func_doc_comment("")
    );
    assert_eq!(
        "\tlocal res_param = {\n\t\tids = ids,\n\t\tname = name,\n\t}\n\n",
        m.gen_table_string("\t", Some("res_param"), false)
    );
    assert_eq!(
        "--local login_req = {\n--\tids = {},\n--\tname = \"\",\n--}\n\n",
        m.gen_table_string("--", None, true)
    );
    assert_eq!(
        "^[ \t]*function[ \t]*T\\.send_login_req\\(ids, name\\)",
        m.func_pattern_string(false, "T")
    );
    assert!(m.make_func_regex(false, "T").is_some());
}

#[test]
fn field_pieces() {
    assert_eq!("number", field(false, "int64", "a", "").get_type_string());
    assert_eq!("float[]", field(true, "float", "a", "").get_type_string());
    assert_eq!("", field(false, "string", "a", "").get_type_string());
    assert_eq!("Info", field(false, "Info", "a", "").get_type_string());
    assert_eq!("0", field(false, "float", "a", "").get_default_value());
    assert_eq!("{}", field(true, "Info", "a", "").get_default_value());
    assert_eq!("\"\"", field(false, "string", "a", "").get_default_value());
    assert_eq!("nil", field(false, "Info", "a", "").get_default_value());
}

#[test]
fn struct_message_has_no_function() {
    let mut m = Message::new();
    m.msg_type = MessageType::Struct;
    m.msg_name_full = "Info".to_string();
    assert_eq!("", m.gen_func_string(true, "T"));
    assert_eq!("---@class Info\n", m.gen_class_doc_comment(""));
}

#[test]
fn ds_side_answers_a_request() {
    let fs = login_file();
    let code = insert_function_code(&vec![0], "T", &fs, true);
    assert_eq!(
        "--- the login request\n\
         ---@param ids int32[]  the ids\n\
         ---@param name  \n\
         function T.on_login_req(playerUid, message)\n\
         \tprint(bWriteLog and string.format(\"T.on_login_req playerUid:%s, ids:%s, name:%s\", playerUid, message.ids, message.name))\n\
         \tlocal code = 0\n\
         \tT.login_rsp(playerUid, code)\n\
         end\n\n",
        code
    );
}

#[test]
fn client_side_sends_a_request() {
    let fs = login_file();
    let code = insert_function_code(&vec![0], "T", &fs, false);
    assert_eq!(
        "--- the login request\n\
         ---@param ids int32[]  the ids\n\
         ---@param name  \n\
         function T.send_login_req(ids, name)\n\
         \tprint(bWriteLog and string.format(\"T.send_login_req ids:%s, name:%s\", ids, name))\n\
         \tlocal res_param = {\n\t\tids = ids,\n\t\tname = name,\n\t}\n\n\
         \tds_net.SendMessage(\"Mod.login_req\", res_param)\n\
         end\n\n",
        code
    );
}

#[test]
fn response_code_on_both_sides() {
    let fs = login_file();
    let ds = insert_function_code(&vec![1], "T", &fs, true);
    assert_eq!(
        "--- the login request\n\
         ---@param code number \n\
         function T.send_login_rsp(playerUid, code)\n\
         \tprint(bWriteLog and string.format(\"T.login_rsp playerUid:%s, code:%s\", playerUid, code))\n\
         \tlocal res_param = {\n\t\tcode = code,\n\t}\n\n\
         \tds_net.SendMessage(\"Mod.login_rsp\", res_param, playerUid)\n\
         end\n\n",
        ds
    );
    let client = insert_function_code(&vec![1, 7], "T", &fs, false);
    assert_eq!(
        "--- the login request\n\
         ---@param code number \n\
         function T.on_login_rsp(message)\n\
         \tprint(bWriteLog and string.format(\"T.on_login_rsp code:%s\", message.code))\n\
         end\n\n",
        client
    );
}

#[test]
fn table_name_of_a_handler() {
    assert_eq!("Mod_file_DS_Handler", handler_table_name("Mod", "file", "_DS_Handler"));
}

#[test]
fn new_handler_file() {
    let fs = login_file();
    let t = "Mod_file_Client_Handler";
    match create_or_update_file(&None, t, &fs, false) {
        Some(FileUpdate::Create(text)) => {
            let head = "--auto generated--\nlocal Mod_file_Client_Handler = {\t}\nlocal ds_net = require(\"ds_net\")\n\n";
            assert!(text.starts_with(head));
            let all = insert_function_code(&vec![0, 1, 2], t, &fs, false);
            assert_eq!(format!("{}{}return {}\n", head, all, t), text);
            assert!(text.contains("---@class Info\n"));
        }
        _ => panic!("Expecting a new file"),
    }
}

#[test]
fn update_adds_only_missing_functions() {
    let fs = login_file();
    let t = "T";
    let existing = ExistingFile {
        lines: lines(&[
            "local T = {\t}\n",
            "function T.on_login_req(playerUid, message)\n",
            "end\n",
            "return T\n",
        ]),
        line_starts: vec![0, 15, 59, 63],
    };
    match create_or_update_file(&Some(existing), t, &fs, true) {
        Some(FileUpdate::Patch { offset, content }) => {
            assert_eq!(63, offset);
            let code = insert_function_code(&vec![1, 2], t, &fs, true);
            assert_eq!(format!("-----autogen update below-----\n\n{}return T\n", code), content);
        }
        _ => panic!("Expecting a patch"),
    }
}

#[test]
fn update_keeps_a_complete_file() {
    let fs = login_file();
    let existing = ExistingFile {
        lines: lines(&[
            "function T.on_login_req(playerUid, message)\n",
            "  function T.send_login_rsp(playerUid, code)\n",
            "---@class Info\n",
        ]),
        line_starts: vec![0, 44, 88],
    };
    assert!(matches!(create_or_update_file(&Some(existing), "T", &fs, true), Some(FileUpdate::Keep)));
}

#[test]
fn update_without_return_line_starts_over() {
    let fs = login_file();
    let existing = ExistingFile { lines: lines(&["-- nothing here\n"]), line_starts: vec![0] };
    match create_or_update_file(&Some(existing), "T", &fs, false) {
        Some(FileUpdate::Patch { offset, content }) => {
            assert_eq!(0, offset);
            assert!(content.starts_with("local T = {\t}\nlocal ds_net = require(\"ds_net\")\n\n"));
            assert!(content.ends_with("return T\n"));
        }
        _ => panic!("Expecting a patch"),
    }
}

#[test]
fn route_config_lists_every_file() {
    assert!(route_config(&Vec::new()).is_none());
    let fs = login_file();
    let text = route_config(&vec![fs]).expect("one file");
    let expected = "\n--- 各个Mod PB协议路由定义配置文件，此文件乃自动生成，请勿手动修改\n--- samizheng\n\n\n\
--1.PB协议：客户端响应DS的协议表\nlocal PBRouteConfig_Client =\n{\n\
\tfile =\n\t{\n\t\tmoduleName = \"GameLua.Mod.Mod.Client.Handler.Mod_file_Client_Handler\",\n\
\t\tpbFileName = \"Mod/file.pb\",\n\t\troutes =\n\t\t{\n\
\t\t\tlogin_req = true,\n\t\t\tlogin_rsp = \"on_login_rsp\",\n\t\t},\n\t},\n}\n\n\
--2.PB协议：DS响应客户端的协议表\nlocal PBRouteConfig_DS =\n{\n\
\tfile =\n\t{\n\t\tmoduleName = \"GameLua.Mod.Mod.DS.Handler.Mod_file_DS_Handler\",\n\
\t\tpbFileName = \"Mod/file.pb\",\n\t\troutes =\n\t\t{\n\
\t\t\tlogin_req = \"on_login_req\",\n\t\t\tlogin_rsp = true,\n\t\t},\n\t},\n}\n\n\n\
\nif Client then\n\treturn PBRouteConfig_Client\nelse\n\treturn PBRouteConfig_DS\nend\n";
    assert_eq!(expected, text);
}

#[test]
fn logging_arguments_match_placeholders() {
    let fs = login_file();
    let m = &fs.messages[0];
    for need_player_uid in [false, true] {
        let placeholders = m.get_print_params_format_str(need_player_uid).matches("%s").count();
        assert_eq!(m.fields.len() + need_player_uid as usize, placeholders);
        for need_message in [false, true] {
            let args = m.get_params_str_in_func_with_message(need_player_uid, need_message);
            assert_eq!(placeholders, args.matches(", ").count());
        }
    }
}
