//! The line scanner that reads the messages of a `.proto` file, one line at a
//! time, with regular expressions.
use vstd::prelude::*;
use vstd::string::{StrSliceExecFns, StringExecFns};
use crate::strings::{ends_with, has_suffix, str_eq, take_chars};
use crate::proto_2_lua::class_def::{
    Field, FieldView, FileStruct, FileStructView, Message, MessageType, MessageView, State,
};
use crate::proto_2_lua::pattern::{captures, compile, regex_captures, regex_compiles, Pattern};

verus! {

/// A message definition: its name in group 1, an opening brace in group 2.
pub open spec fn message_define_pattern() -> Seq<char> {
    "^[ \t]*message[ \t]*([a-zA-Z_]\\w*)[ \t]*(\\{)?"@
}

/// A line that opens a message body.
pub open spec fn left_brace_pattern() -> Seq<char> {
    "^[ \t]*(\\{)"@
}

/// A line that closes a message body.
pub open spec fn right_brace_pattern() -> Seq<char> {
    "^[ \t]*(})"@
}

/// A comment line: its text in group 1.
pub open spec fn comment_pattern() -> Seq<char> {
    "^[ \t]*//(.*)[\r|\n]+"@
}

/// A field: `repeated` in group 1, type in group 2, name in group 3, the
/// trailing comment in group 4.
pub open spec fn field_pattern() -> Seq<char> {
    "^[ \t]*(repeated)?[ \t]*(\\w+)[ \t]*([a-zA-Z_]\\w*).*;[ \t]*(?://+)?(.*)"@
}

/// The group that reads a name: a letter or `_`, then any letters, digits
/// and `_`.
pub open spec fn identifier_group() -> Seq<char> {
    "([a-zA-Z_]\\w*)"@
}

/// Messages and fields are named alike: the name of a message definition is
/// read by the identifier group right after `message` and blanks, and the
/// name of a field by the same group after its type.
pub proof fn lemma_names_are_identifiers()
    ensures
        message_define_pattern() == "^[ \t]*message[ \t]*"@ + identifier_group()
            + "[ \t]*(\\{)?"@,
        field_pattern() == "^[ \t]*(repeated)?[ \t]*(\\w+)[ \t]*"@ + identifier_group()
            + ".*;[ \t]*(?://+)?(.*)"@,
{
    reveal_strlit("^[ \t]*message[ \t]*([a-zA-Z_]\\w*)[ \t]*(\\{)?");
    reveal_strlit("^[ \t]*message[ \t]*");
    reveal_strlit("([a-zA-Z_]\\w*)");
    reveal_strlit("[ \t]*(\\{)?");
    reveal_strlit("^[ \t]*(repeated)?[ \t]*(\\w+)[ \t]*([a-zA-Z_]\\w*).*;[ \t]*(?://+)?(.*)");
    reveal_strlit("^[ \t]*(repeated)?[ \t]*(\\w+)[ \t]*");
    reveal_strlit(".*;[ \t]*(?://+)?(.*)");
    assert(message_define_pattern() =~= "^[ \t]*message[ \t]*"@ + identifier_group()
        + "[ \t]*(\\{)?"@);
    assert(field_pattern() =~= "^[ \t]*(repeated)?[ \t]*(\\w+)[ \t]*"@ + identifier_group()
        + ".*;[ \t]*(?://+)?(.*)"@);
}

/// The five patterns of the scanner, compiled.
pub struct ScanPatterns {
    pub message_define: Pattern,
    pub left_brace: Pattern,
    pub right_brace: Pattern,
    pub comment: Pattern,
    pub field: Pattern,
}

impl ScanPatterns {
    /// Each pattern was compiled from its text.
    pub open spec fn wf(&self) -> bool {
        &&& self.message_define@ == message_define_pattern()
        &&& self.left_brace@ == left_brace_pattern()
        &&& self.right_brace@ == right_brace_pattern()
        &&& self.comment@ == comment_pattern()
        &&& self.field@ == field_pattern()
    }

    /// Compiles the patterns; `None` where the `regex` crate refuses one.
    pub fn new() -> (res: Option<ScanPatterns>)
        ensures
            res is Some <==> scan_patterns_compile(),
            res matches Some(p) ==> p.wf(),
    {
        let message_define = compile("^[ \t]*message[ \t]*([a-zA-Z_]\\w*)[ \t]*(\\{)?");
        let left_brace = compile("^[ \t]*(\\{)");
        let right_brace = compile("^[ \t]*(})");
        let comment = compile("^[ \t]*//(.*)[\r|\n]+");
        let field = compile("^[ \t]*(repeated)?[ \t]*(\\w+)[ \t]*([a-zA-Z_]\\w*).*;[ \t]*(?://+)?(.*)");
        match (message_define, left_brace, right_brace, comment, field) {
            (Some(message_define), Some(left_brace), Some(right_brace), Some(comment), Some(field)) => {
                Some(ScanPatterns { message_define, left_brace, right_brace, comment, field })
            },
            _ => None,
        }
    }
}

/// The `regex` crate accepts all five patterns of the scanner.
pub open spec fn scan_patterns_compile() -> bool {
    &&& regex_compiles(message_define_pattern())
    &&& regex_compiles(left_brace_pattern())
    &&& regex_compiles(right_brace_pattern())
    &&& regex_compiles(comment_pattern())
    &&& regex_compiles(field_pattern())
}

/// What the patterns find in one line.
pub struct LineMatches {
    pub comment: Option<Vec<Option<String>>>,
    pub message_define: Option<Vec<Option<String>>>,
    pub left_brace: bool,
    pub right_brace: bool,
    pub field: Option<Vec<Option<String>>>,
}

/// The mathematical value of [`LineMatches`].
pub struct LineMatchesView {
    pub comment: Option<Seq<Option<Seq<char>>>>,
    pub message_define: Option<Seq<Option<Seq<char>>>>,
    pub left_brace: bool,
    pub right_brace: bool,
    pub field: Option<Seq<Option<Seq<char>>>>,
}

impl DeepView for LineMatches {
    type V = LineMatchesView;

    open spec fn deep_view(&self) -> LineMatchesView {
        LineMatchesView {
            comment: self.comment.deep_view(),
            message_define: self.message_define.deep_view(),
            left_brace: self.left_brace,
            right_brace: self.right_brace,
            field: self.field.deep_view(),
        }
    }
}

/// What the scanner's patterns find in `line`.
pub open spec fn line_matches(line: Seq<char>) -> LineMatchesView {
    LineMatchesView {
        comment: regex_captures(comment_pattern(), line),
        message_define: regex_captures(message_define_pattern(), line),
        left_brace: regex_captures(left_brace_pattern(), line) is Some,
        right_brace: regex_captures(right_brace_pattern(), line) is Some,
        field: regex_captures(field_pattern(), line),
    }
}

/// Runs the patterns on one line.
pub fn match_line(pats: &ScanPatterns, line: &str) -> (res: LineMatches)
    requires
        pats.wf(),
    ensures
        res.deep_view() == line_matches(line@),
{
    LineMatches {
        comment: captures(&pats.comment, line),
        message_define: captures(&pats.message_define, line),
        left_brace: captures(&pats.left_brace, line).is_some(),
        right_brace: captures(&pats.right_brace, line).is_some(),
        field: captures(&pats.field, line),
    }
}

/// Group `i` of a match, `None` where there is no match or the group took no
/// part in it.
pub open spec fn group(c: Option<Seq<Option<Seq<char>>>>, i: int) -> Option<Seq<char>> {
    match c {
        Some(g) => if 0 <= i < g.len() {
            g[i]
        } else {
            None
        },
        None => None,
    }
}

/// The text of a group, empty where it is absent.
pub open spec fn text_or_empty(t: Option<Seq<char>>) -> Seq<char> {
    match t {
        Some(t) => t,
        None => Seq::empty(),
    }
}

/// A comment line always carries its text in group 1; the scanner reads it
/// there.
pub open spec fn line_ok(m: LineMatchesView) -> bool {
    m.comment is Some ==> group(m.comment, 1) is Some
}

/// The message that a definition line opens, named `name` and documented by
/// `comment`; the suffix of the name gives its kind and its short name.
pub open spec fn named_message(name: Option<Seq<char>>, comment: Seq<char>) -> MessageView {
    let (msg_type, full, short) = match name {
        None => (MessageType::Req, Seq::<char>::empty(), Seq::<char>::empty()),
        Some(n) => if has_suffix(n, "_req"@) {
            (MessageType::Req, n, n.subrange(0, n.len() - 4))
        } else if has_suffix(n, "_rsp"@) {
            (MessageType::Rsp, n, n.subrange(0, n.len() - 4))
        } else if has_suffix(n, "_notify"@) {
            (MessageType::Notify, n, n.subrange(0, n.len() - 7))
        } else {
            (MessageType::Struct, n, Seq::<char>::empty())
        },
    };
    MessageView {
        msg_type,
        msg_name_full: full,
        short_name: short,
        fields: Seq::empty(),
        comment,
        p_target: None,
    }
}

/// The field that a field line declares.
pub open spec fn scanned_field(g: Option<Seq<Option<Seq<char>>>>) -> FieldView {
    FieldView {
        is_array: group(g, 1) is Some,
        field_type: text_or_empty(group(g, 2)),
        field_name: text_or_empty(group(g, 3)),
        comment: text_or_empty(group(g, 4)),
    }
}

/// Where the scanner stands: its state, the last comment it read, and the
/// messages so far.
pub struct ScanView {
    pub state: State,
    pub comment: Seq<char>,
    pub messages: Seq<MessageView>,
}

/// Inside a message there is a message to add fields to.
pub open spec fn scan_wf(s: ScanView) -> bool {
    s.state != State::Normal ==> s.messages.len() > 0
}

/// `msgs` with `f` added to the fields of its last message.
pub open spec fn add_field_to_last(msgs: Seq<MessageView>, f: FieldView) -> Seq<MessageView> {
    let last = msgs.last();
    msgs.update(
        msgs.len() - 1,
        MessageView {
            msg_type: last.msg_type,
            msg_name_full: last.msg_name_full,
            short_name: last.short_name,
            fields: last.fields.push(f),
            comment: last.comment,
            p_target: last.p_target,
        },
    )
}

/// One line's step of the scanner.
pub open spec fn scan_step(s: ScanView, m: LineMatchesView) -> ScanView {
    let comment = if m.comment is Some {
        text_or_empty(group(m.comment, 1))
    } else {
        s.comment
    };
    match s.state {
        State::Normal => if m.message_define is Some {
            ScanView {
                state: if group(m.message_define, 2) is Some {
                    State::MessageScopeBegin
                } else {
                    State::MessageDefine
                },
                comment,
                messages: s.messages.push(named_message(group(m.message_define, 1), comment)),
            }
        } else {
            ScanView { state: s.state, comment, messages: s.messages }
        },
        State::MessageDefine => ScanView {
            state: if m.left_brace {
                State::MessageScopeBegin
            } else {
                State::MessageDefine
            },
            comment,
            messages: s.messages,
        },
        State::MessageScopeBegin => if m.right_brace {
            ScanView { state: State::Normal, comment, messages: s.messages }
        } else if m.field is Some {
            ScanView {
                state: s.state,
                comment,
                messages: add_field_to_last(s.messages, scanned_field(m.field)),
            }
        } else {
            ScanView { state: s.state, comment, messages: s.messages }
        },
    }
}

/// The line scanner over one file.
pub struct LineScanner {
    pub state: State,
    pub comment: String,
    pub file_struct: FileStruct,
}

impl LineScanner {
    pub open spec fn view(&self) -> ScanView {
        ScanView {
            state: self.state,
            comment: self.comment@,
            messages: self.file_struct.messages.deep_view(),
        }
    }

    /// A scanner at the start of the file `file_name` of the module `mod_name`.
    pub fn new(mod_name: String, file_name: String) -> (r: LineScanner)
        ensures
            r.view() == (ScanView { state: State::Normal, comment: Seq::empty(), messages: Seq::empty() }),
            r.file_struct.mod_name@ == mod_name@,
            r.file_struct.file_name@ == file_name@,
    {
        let mut file_struct = FileStruct::new();
        file_struct.mod_name = mod_name;
        file_struct.file_name = file_name;
        LineScanner { state: State::Normal, comment: String::new(), file_struct }
    }

    /// Takes in one line, given what the patterns found in it.
    pub fn scan_line(&mut self, m: &LineMatches)
        requires
            scan_wf(old(self).view()),
            line_ok(m.deep_view()),
        ensures
            final(self).view() == scan_step(old(self).view(), m.deep_view()),
            scan_wf(final(self).view()),
            final(self).file_struct.mod_name@ == old(self).file_struct.mod_name@,
            final(self).file_struct.file_name@ == old(self).file_struct.file_name@,
    {
        if let Some(groups) = &m.comment {
            let text = groups[1].as_ref().unwrap();
            self.comment = String::from_str(text.as_str());
        }
        match self.state {
            State::Normal => {
                if let Some(groups) = &m.message_define {
                    let name = group_of(groups, 1);
                    let message = named_message_of(name, self.comment.as_str());
                    let ghost before = self.file_struct.messages.deep_view();
                    self.file_struct.messages.push(message);
                    assert(self.file_struct.messages.deep_view() =~= before.push(message.deep_view()));
                    self.state = if group_of(groups, 2).is_some() {
                        State::MessageScopeBegin
                    } else {
                        State::MessageDefine
                    };
                }
            },
            State::MessageDefine => {
                if m.left_brace {
                    self.state = State::MessageScopeBegin;
                }
            },
            State::MessageScopeBegin => {
                if m.right_brace {
                    self.state = State::Normal;
                } else if let Some(groups) = &m.field {
                    let field = scanned_field_of(groups);
                    let ghost before = self.file_struct.messages.deep_view();
                    let mut last = self.file_struct.messages.pop().unwrap();
                    assert(self.file_struct.messages.deep_view() =~= before.drop_last());
                    let ghost last_fields = last.fields.deep_view();
                    last.fields.push(field);
                    assert(last.fields.deep_view() =~= last_fields.push(field.deep_view()));
                    self.file_struct.messages.push(last);
                    assert(self.file_struct.messages.deep_view() =~= add_field_to_last(
                        before,
                        scanned_field(m.field.deep_view()),
                    ));
                }
            },
        }
    }
}

/// Group `i` of a match.
fn group_of(groups: &Vec<Option<String>>, i: usize) -> (r: Option<&String>)
    ensures
        r.deep_view() == group(Some(groups.deep_view()), i as int),
{
    if i < groups.len() {
        groups[i].as_ref()
    } else {
        None
    }
}

/// The text of a group, empty where it is absent.
fn text_of(t: Option<&String>) -> (r: String)
    ensures
        r@ == text_or_empty(t.deep_view()),
{
    match t {
        Some(t) => String::from_str(t.as_str()),
        None => String::new(),
    }
}

/// The field that a field line declares.
fn scanned_field_of(groups: &Vec<Option<String>>) -> (r: Field)
    ensures
        r.deep_view() == scanned_field(Some(groups.deep_view())),
{
    Field {
        is_array: group_of(groups, 1).is_some(),
        field_type: text_of(group_of(groups, 2)),
        field_name: text_of(group_of(groups, 3)),
        comment: text_of(group_of(groups, 4)),
    }
}

/// The message that a definition line opens.
fn named_message_of(name: Option<&String>, comment: &str) -> (r: Message)
    ensures
        r.deep_view() == named_message(name.deep_view(), comment@),
{
    let mut message = Message::new();
    message.comment = String::from_str(comment);
    if let Some(n) = name {
        let n = n.as_str();
        let len = n.unicode_len();
        message.msg_name_full = String::from_str(n);
        if ends_with(n, "_req") {
            proof { reveal_strlit("_req"); }
            message.msg_type = MessageType::Req;
            message.short_name = take_chars(n, len - 4);
        } else if ends_with(n, "_rsp") {
            proof { reveal_strlit("_rsp"); }
            message.msg_type = MessageType::Rsp;
            message.short_name = take_chars(n, len - 4);
        } else if ends_with(n, "_notify") {
            proof { reveal_strlit("_notify"); }
            message.msg_type = MessageType::Notify;
            message.short_name = take_chars(n, len - 7);
        } else {
            message.msg_type = MessageType::Struct;
        }
    }
    assert(message.fields.deep_view() =~= Seq::<FieldView>::empty());
    message
}

/// The scanner after the lines `lines`, from the start of a file.
pub open spec fn scan_all(lines: Seq<Seq<char>>) -> ScanView
    decreases lines.len(),
{
    if lines.len() == 0 {
        ScanView { state: State::Normal, comment: Seq::empty(), messages: Seq::empty() }
    } else {
        scan_step(scan_all(lines.drop_last()), line_matches(lines.last()))
    }
}

/// Whenever the scanner is inside a message, after any lines, there is a
/// message to add fields to.
pub proof fn lemma_scan_all_wf(lines: Seq<Seq<char>>)
    ensures
        scan_wf(scan_all(lines)),
    decreases lines.len(),
{
    if lines.len() > 0 {
        lemma_scan_all_wf(lines.drop_last());
    }
}

/// Every line of `lines` can be read by the scanner.
pub open spec fn lines_ok(lines: Seq<Seq<char>>) -> bool {
    forall|i: int| 0 <= i < lines.len() ==> #[trigger] line_ok(line_matches(lines[i]))
}

/// The index of the last response among the first `n` messages whose short
/// name is `short`.
pub open spec fn last_response(msgs: Seq<MessageView>, short: Seq<char>, n: int) -> Option<usize>
    decreases n,
{
    if n <= 0 {
        None
    } else if msgs[n - 1].msg_type == MessageType::Rsp && msgs[n - 1].short_name == short {
        Some((n - 1) as usize)
    } else {
        last_response(msgs, short, n - 1)
    }
}

/// The response that answers message `i`, where it is a request.
pub open spec fn response_of(msgs: Seq<MessageView>, i: int) -> Option<usize> {
    if msgs[i].msg_type == MessageType::Req {
        last_response(msgs, msgs[i].short_name, msgs.len() as int)
    } else {
        None
    }
}

/// `msgs` with each request linked to the last response of the same short
/// name; a request with no such response keeps its link.
pub open spec fn linked(msgs: Seq<MessageView>) -> Seq<MessageView> {
    Seq::new(
        msgs.len(),
        |i: int|
            if response_of(msgs, i) is Some {
                MessageView {
                    msg_type: msgs[i].msg_type,
                    msg_name_full: msgs[i].msg_name_full,
                    short_name: msgs[i].short_name,
                    fields: msgs[i].fields,
                    comment: msgs[i].comment,
                    p_target: response_of(msgs, i),
                }
            } else {
                msgs[i]
            },
    )
}

/// A response of short name `short` among the first `n` messages.
pub open spec fn is_response_to(msgs: Seq<MessageView>, short: Seq<char>, k: int) -> bool {
    msgs[k].msg_type == MessageType::Rsp && msgs[k].short_name == short
}

/// `last_response` finds the last response of the short name, and finds none
/// only where there is none.
proof fn lemma_last_response(msgs: Seq<MessageView>, short: Seq<char>, n: int)
    requires
        0 <= n <= msgs.len() <= usize::MAX,
    ensures
        last_response(msgs, short, n) matches Some(t) ==> {
            &&& t < n
            &&& is_response_to(msgs, short, t as int)
            &&& forall|k: int| t < k < n ==> !#[trigger] is_response_to(msgs, short, k)
        },
        last_response(msgs, short, n) is None ==> forall|k: int|
            0 <= k < n ==> !#[trigger] is_response_to(msgs, short, k),
    decreases n,
{
    if n > 0 {
        lemma_last_response(msgs, short, n - 1);
    }
}

/// Linking changes nothing but links. A request for which the file holds a
/// response of the same short name is linked to the last such response;
/// every other message keeps its link.
pub proof fn lemma_linked(msgs: Seq<MessageView>, i: int)
    requires
        0 <= i < msgs.len() <= usize::MAX,
    ensures
        linked(msgs).len() == msgs.len(),
        linked(msgs)[i].msg_type == msgs[i].msg_type,
        linked(msgs)[i].msg_name_full == msgs[i].msg_name_full,
        linked(msgs)[i].short_name == msgs[i].short_name,
        linked(msgs)[i].fields == msgs[i].fields,
        linked(msgs)[i].comment == msgs[i].comment,
        msgs[i].msg_type == MessageType::Req && (exists|k: int|
            0 <= k < msgs.len() && #[trigger] is_response_to(msgs, msgs[i].short_name, k))
            ==> {
            &&& linked(msgs)[i].p_target matches Some(t)
            &&& t < msgs.len()
            &&& is_response_to(msgs, msgs[i].short_name, t as int)
            &&& forall|k: int|
                t < k < msgs.len() ==> !#[trigger] is_response_to(msgs, msgs[i].short_name, k)
        },
        !(msgs[i].msg_type == MessageType::Req && (exists|k: int|
            0 <= k < msgs.len() && #[trigger] is_response_to(msgs, msgs[i].short_name, k)))
            ==> linked(msgs)[i] == msgs[i],
{
    lemma_last_response(msgs, msgs[i].short_name, msgs.len() as int);
}

/// The index of the last response in `msgs` whose short name is `short`.
fn last_response_index(msgs: &Vec<Message>, short: &str) -> (r: Option<usize>)
    ensures
        r == last_response(msgs.deep_view(), short@, msgs.len() as int),
{
    let ghost v = msgs.deep_view();
    let n = msgs.len();
    let mut j = n;
    while j > 0
        invariant
            j <= n == msgs.len() == v.len(),
            v == msgs.deep_view(),
            last_response(v, short@, n as int) == last_response(v, short@, j as int),
        decreases j,
    {
        let m = &msgs[j - 1];
        assert(v[j - 1] == m.deep_view());
        if m.msg_type == MessageType::Rsp && str_eq(m.short_name.as_str(), short) {
            return Some(j - 1);
        }
        j = j - 1;
    }
    None
}

/// Links each request to the last response of the same short name.
pub fn link_responses(messages: &mut Vec<Message>)
    ensures
        final(messages).deep_view() == linked(old(messages).deep_view()),
{
    let ghost orig = messages.deep_view();
    let n = messages.len();
    let mut targets: Vec<Option<usize>> = Vec::new();
    let mut i: usize = 0;
    while i < n
        invariant
            n == messages.len() == orig.len(),
            orig == messages.deep_view(),
            i <= n,
            targets.len() == i,
            forall|k: int| 0 <= k < i ==> targets[k] == response_of(orig, k),
        decreases n - i,
    {
        assert(orig[i as int] == messages[i as int].deep_view());
        let t = if messages[i].msg_type == MessageType::Req {
            last_response_index(messages, messages[i].short_name.as_str())
        } else {
            None
        };
        targets.push(t);
        i = i + 1;
    }
    let mut i: usize = 0;
    while i < n
        invariant
            n == messages.len() == orig.len() == targets.len(),
            forall|k: int| 0 <= k < n ==> targets[k] == response_of(orig, k),
            i <= n,
            forall|k: int| 0 <= k < i ==> messages.deep_view()[k] == linked(orig)[k],
            forall|k: int| i <= k < n ==> messages.deep_view()[k] == orig[k],
        decreases n - i,
    {
        if let Some(t) = targets[i] {
            messages[i].p_target = Some(t);
        }
        i = i + 1;
    }
    assert(messages.deep_view() =~= linked(orig));
}

/// Reads the messages of the file `file_name` of the module `mod_name` from
/// its lines, each with its line terminator, and links requests to
/// responses. `None` where the `regex` crate refuses a pattern of the
/// scanner, or where a comment line holds no text group.
pub fn parse_lines(mod_name: String, file_name: String, lines: &Vec<String>) -> (res: Option<FileStruct>)
    ensures
        res is Some <==> scan_patterns_compile() && lines_ok(lines.deep_view()),
        res matches Some(fs) ==> fs.deep_view() == (FileStructView {
            messages: linked(scan_all(lines.deep_view()).messages),
            mod_name: mod_name@,
            file_name: file_name@,
        }),
{
    let pats = match ScanPatterns::new() {
        Some(p) => p,
        None => return None,
    };
    let ghost lv = lines.deep_view();
    let mut scanner = LineScanner::new(mod_name, file_name);
    let mut i: usize = 0;
    while i < lines.len()
        invariant
            pats.wf(),
            lv == lines.deep_view(),
            i <= lines.len(),
            scanner.view() == scan_all(lv.take(i as int)),
            scan_wf(scanner.view()),
            forall|k: int| 0 <= k < i ==> #[trigger] line_ok(line_matches(lv[k])),
            scanner.file_struct.mod_name@ == mod_name@,
            scanner.file_struct.file_name@ == file_name@,
        decreases lines.len() - i,
    {
        assert(lv[i as int] == lines[i as int]@);
        let m = match_line(&pats, lines[i].as_str());
        if !line_ok_of(&m) {
            return None;
        }
        scanner.scan_line(&m);
        assert(lv.take(i + 1).drop_last() =~= lv.take(i as int));
        i = i + 1;
    }
    assert(lv.take(lv.len() as int) =~= lv);
    let mut file_struct = scanner.file_struct;
    link_responses(&mut file_struct.messages);
    Some(file_struct)
}

/// Whether the scanner can read a line with these matches.
fn line_ok_of(m: &LineMatches) -> (r: bool)
    ensures
        r == line_ok(m.deep_view()),
{
    match &m.comment {
        Some(groups) => group_of(groups, 1).is_some(),
        None => true,
    }
}

} // verus!
