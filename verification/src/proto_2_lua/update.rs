//! What to write into a handler file: a new file, or the functions that an
//! existing file still lacks.
use vstd::prelude::*;
use vstd::string::StringExecFns;
use crate::strings::{has_prefix, starts_with};
use crate::proto_2_lua::class_def::{func_pattern, FileStruct, FileStructView, MessageView};
use crate::proto_2_lua::handler::{function_code, insert_function_code};
use crate::proto_2_lua::pattern::{captures, regex_captures, regex_compiles, Pattern};

verus! {

/// The lines of a handler file as it stands, each with its terminator, and
/// the byte offset at which each starts.
pub struct ExistingFile {
    pub lines: Vec<String>,
    pub line_starts: Vec<u64>,
}

/// The mathematical value of an [`ExistingFile`].
pub struct ExistingFileView {
    pub lines: Seq<Seq<char>>,
    pub line_starts: Seq<u64>,
}

impl DeepView for ExistingFile {
    type V = ExistingFileView;

    open spec fn deep_view(&self) -> ExistingFileView {
        ExistingFileView { lines: self.lines.deep_view(), line_starts: self.line_starts@ }
    }
}

/// What to do with a handler file.
pub enum FileUpdate {
    /// It has every function already.
    Keep,
    /// Create it with this text.
    Create(String),
    /// Write this text at this offset, over what is there and without
    /// cutting the file short.
    Patch { offset: u64, content: String },
}

/// The mathematical value of a [`FileUpdate`].
pub enum FileUpdateView {
    Keep,
    Create(Seq<char>),
    Patch { offset: u64, content: Seq<char> },
}

impl DeepView for FileUpdate {
    type V = FileUpdateView;

    open spec fn deep_view(&self) -> FileUpdateView {
        match self {
            FileUpdate::Keep => FileUpdateView::Keep,
            FileUpdate::Create(t) => FileUpdateView::Create(t@),
            FileUpdate::Patch { offset, content } => FileUpdateView::Patch {
                offset: *offset,
                content: content@,
            },
        }
    }
}

/// The table of a handler file and the module it needs.
pub open spec fn table_header(table: Seq<char>) -> Seq<char> {
    "local "@ + table + " = {\t}\n"@ + "local ds_net = require(\"ds_net\")\n\n"@
}

/// The line that marks where an update of a file begins.
pub open spec fn update_marker() -> Seq<char> {
    "-----autogen update below-----\n\n"@
}

/// The indices `0..n`.
pub open spec fn all_indices(n: nat) -> Seq<usize> {
    Seq::new(n, |i: int| i as usize)
}

/// The pattern that finds each message's definition.
pub open spec fn func_patterns(msgs: Seq<MessageView>, is_ds: bool, table: Seq<char>) -> Seq<
    Seq<char>,
> {
    Seq::new(msgs.len(), |k: int| func_pattern(msgs[k], is_ds, table))
}

/// The `regex` crate accepts every pattern.
pub open spec fn all_compile(pats: Seq<Seq<char>>) -> bool {
    forall|k: int| 0 <= k < pats.len() ==> #[trigger] regex_compiles(pats[k])
}

/// The indices of `remain` whose pattern finds nothing in `line`.
pub open spec fn unmatched(pats: Seq<Seq<char>>, remain: Seq<usize>, line: Seq<char>) -> Seq<usize>
    decreases remain.len(),
{
    if remain.len() == 0 {
        Seq::empty()
    } else {
        let rest = unmatched(pats, remain.drop_last(), line);
        let k = remain.last();
        if k < pats.len() && regex_captures(pats[k as int], line) is Some {
            rest
        } else {
            rest.push(k)
        }
    }
}

/// The messages, by index, that no line of `lines` defines.
pub open spec fn remaining(pats: Seq<Seq<char>>, lines: Seq<Seq<char>>) -> Seq<usize>
    decreases lines.len(),
{
    if lines.len() == 0 {
        all_indices(pats.len())
    } else {
        unmatched(pats, remaining(pats, lines.drop_last()), lines.last())
    }
}

/// Each index of `s` is below the next.
pub open spec fn increasing(s: Seq<usize>) -> bool {
    forall|a: int, b: int| 0 <= a < b < s.len() ==> s[a] < s[b]
}

/// What `unmatched` keeps comes from `remain`, in order, and its pattern finds
/// nothing in the line.
proof fn lemma_unmatched(pats: Seq<Seq<char>>, remain: Seq<usize>, line: Seq<char>)
    ensures
        forall|j: int|
            0 <= j < unmatched(pats, remain, line).len() ==> {
                let k = #[trigger] unmatched(pats, remain, line)[j];
                &&& remain.contains(k)
                &&& k < pats.len() ==> regex_captures(pats[k as int], line) is None
            },
        increasing(remain) ==> increasing(unmatched(pats, remain, line)),
    decreases remain.len(),
{
    if remain.len() > 0 {
        let rest = unmatched(pats, remain.drop_last(), line);
        lemma_unmatched(pats, remain.drop_last(), line);
        assert forall|j: int| 0 <= j < rest.len() implies remain.contains(#[trigger] rest[j]) by {
            let x = choose|x: int| 0 <= x < remain.drop_last().len() && remain.drop_last()[x] == rest[j];
            assert(remain[x] == rest[j]);
        }
        if increasing(remain) {
            assert forall|j: int| 0 <= j < rest.len() implies #[trigger] rest[j] < remain.last() by {
                let x = choose|x: int| 0 <= x < remain.drop_last().len() && remain.drop_last()[x] == rest[j];
                assert(remain[x] == rest[j]);
            }
        }
        assert(remain.contains(remain.last())) by {
            assert(remain[remain.len() - 1] == remain.last());
        }
    }
}

/// An update writes only functions that no line of the file defines, each
/// once, in the order of the messages.
pub proof fn lemma_remaining(pats: Seq<Seq<char>>, lines: Seq<Seq<char>>)
    requires
        pats.len() <= usize::MAX,
    ensures
        increasing(remaining(pats, lines)),
        forall|j: int, i: int|
            0 <= j < remaining(pats, lines).len() && 0 <= i < lines.len() ==> {
                let k = #[trigger] remaining(pats, lines)[j];
                &&& k < pats.len()
                &&& regex_captures(pats[k as int], #[trigger] lines[i]) is None
            },
    decreases lines.len(),
{
    if lines.len() > 0 {
        let prev = remaining(pats, lines.drop_last());
        lemma_remaining(pats, lines.drop_last());
        lemma_unmatched(pats, prev, lines.last());
        let r = remaining(pats, lines);
        assert forall|j: int, i: int|
            0 <= j < r.len() && 0 <= i < lines.len() implies {
                let k = #[trigger] r[j];
                &&& k < pats.len()
                &&& regex_captures(pats[k as int], #[trigger] lines[i]) is None
            } by {
            let x = choose|x: int| 0 <= x < prev.len() && prev[x] == r[j];
            if i < lines.len() - 1 {
                assert(lines.drop_last()[i] == lines[i]);
            }
        }
    }
}

/// The last of the first `n` lines that begins with `prefix`.
pub open spec fn last_line_with(lines: Seq<Seq<char>>, prefix: Seq<char>, n: int) -> Option<int>
    decreases n,
{
    if n <= 0 {
        None
    } else if has_prefix(lines[n - 1], prefix) {
        Some(n - 1)
    } else {
        last_line_with(lines, prefix, n - 1)
    }
}

/// Where the missing functions go: the start of the last line that returns
/// the table, else the start of the file.
pub open spec fn append_offset(e: ExistingFileView, table: Seq<char>) -> u64 {
    match last_line_with(e.lines, "return "@ + table, e.lines.len() as int) {
        Some(k) => e.line_starts[k],
        None => 0,
    }
}

/// What to write into the handler file of the table `table`: where the file
/// does not exist, all of it; where it does, the functions that none of its
/// lines defines yet, before its `return` line, or over its start where it
/// has none. `None` where a line must be searched with a pattern that the
/// `regex` crate refuses.
pub open spec fn file_update(
    existing: Option<ExistingFileView>,
    fs: FileStructView,
    table: Seq<char>,
    is_ds: bool,
) -> Option<FileUpdateView> {
    let msgs = fs.messages;
    let ret = "return "@ + table + "\n"@;
    match existing {
        None => Some(
            FileUpdateView::Create(
                "--auto generated--\n"@ + table_header(table) + function_code(
                    msgs,
                    all_indices(msgs.len()),
                    fs.mod_name,
                    table,
                    is_ds,
                ) + ret,
            ),
        ),
        Some(e) => {
            let pats = func_patterns(msgs, is_ds, table);
            if e.lines.len() > 0 && !all_compile(pats) {
                None
            } else {
                let r = remaining(pats, e.lines);
                if r.len() == 0 {
                    Some(FileUpdateView::Keep)
                } else {
                    let offset = append_offset(e, table);
                    let head = if offset == 0 {
                        table_header(table)
                    } else {
                        update_marker()
                    };
                    Some(
                        FileUpdateView::Patch {
                            offset,
                            content: head + function_code(msgs, r, fs.mod_name, table, is_ds) + ret,
                        },
                    )
                }
            }
        },
    }
}

/// The pattern of each message, compiled.
fn compile_all(file_struct: &FileStruct, is_ds: bool, table_name: &str) -> (res: Option<Vec<Pattern>>)
    ensures
        res is Some <==> all_compile(func_patterns(file_struct.messages.deep_view(), is_ds, table_name@)),
        res matches Some(ps) ==> {
            &&& ps.len() == file_struct.messages.len()
            &&& forall|k: int|
                0 <= k < ps.len() ==> ps[k]@ == func_patterns(
                    file_struct.messages.deep_view(),
                    is_ds,
                    table_name@,
                )[k]
        },
{
    let ghost texts = func_patterns(file_struct.messages.deep_view(), is_ds, table_name@);
    let mut ps: Vec<Pattern> = Vec::new();
    let mut i: usize = 0;
    while i < file_struct.messages.len()
        invariant
            texts == func_patterns(file_struct.messages.deep_view(), is_ds, table_name@),
            i <= file_struct.messages.len(),
            ps.len() == i,
            forall|k: int| 0 <= k < i ==> ps[k]@ == texts[k],
            forall|k: int| 0 <= k < i ==> #[trigger] regex_compiles(texts[k]),
        decreases file_struct.messages.len() - i,
    {
        let m = &file_struct.messages[i];
        assert(file_struct.messages.deep_view()[i as int] == m.deep_view());
        match m.make_func_regex(is_ds, table_name) {
            Some(p) => ps.push(p),
            None => {
                assert(!regex_compiles(texts[i as int]));
                return None;
            },
        }
        i = i + 1;
    }
    Some(ps)
}

/// The indices of `remain` whose pattern finds nothing in `line`.
fn unmatched_of(
    pats: &Vec<Pattern>,
    Ghost(texts): Ghost<Seq<Seq<char>>>,
    remain: &Vec<usize>,
    line: &str,
) -> (r: Vec<usize>)
    requires
        pats.len() == texts.len(),
        forall|k: int| 0 <= k < pats.len() ==> pats[k]@ == texts[k],
    ensures
        r@ == unmatched(texts, remain@, line@),
{
    let mut r: Vec<usize> = Vec::new();
    let mut i: usize = 0;
    while i < remain.len()
        invariant
            pats.len() == texts.len(),
            forall|k: int| 0 <= k < pats.len() ==> pats[k]@ == texts[k],
            i <= remain.len(),
            r@ == unmatched(texts, remain@.take(i as int), line@),
        decreases remain.len() - i,
    {
        let k = remain[i];
        let found = k < pats.len() && captures(&pats[k], line).is_some();
        if !found {
            r.push(k);
        }
        assert(remain@.take(i + 1).drop_last() =~= remain@.take(i as int));
        i = i + 1;
    }
    assert(remain@.take(remain.len() as int) =~= remain@);
    r
}

/// The indices `0..n`.
fn indices(n: usize) -> (r: Vec<usize>)
    ensures
        r@ == all_indices(n as nat),
{
    let mut r: Vec<usize> = Vec::new();
    let mut i: usize = 0;
    while i < n
        invariant
            i <= n,
            r@ == all_indices(i as nat),
        decreases n - i,
    {
        r.push(i);
        assert(r@ =~= all_indices((i + 1) as nat));
        i = i + 1;
    }
    r
}

/// The last line that begins with `prefix`.
fn last_line_with_of(lines: &Vec<String>, prefix: &str) -> (r: Option<usize>)
    ensures
        r is None <==> last_line_with(lines.deep_view(), prefix@, lines.len() as int) is None,
        r matches Some(k) ==> k < lines.len() && last_line_with(
            lines.deep_view(),
            prefix@,
            lines.len() as int,
        ) == Some(k as int),
{
    let ghost lv = lines.deep_view();
    let mut found: Option<usize> = None;
    let mut i: usize = 0;
    while i < lines.len()
        invariant
            lv == lines.deep_view(),
            i <= lines.len(),
            found is None <==> last_line_with(lv, prefix@, i as int) is None,
            found matches Some(k) ==> k < i && last_line_with(lv, prefix@, i as int) == Some(k as int),
        decreases lines.len() - i,
    {
        assert(lv[i as int] == lines[i as int]@);
        if starts_with(lines[i].as_str(), prefix) {
            found = Some(i);
        }
        i = i + 1;
    }
    found
}

/// What to write into the handler file of the table `table_name` for the
/// messages of `file_struct`, on the DS side or the client side, given the
/// file as it stands or `None` where it cannot be opened. `None` where a
/// line must be searched with a pattern that the `regex` crate refuses.
pub fn create_or_update_file(
    existing: &Option<ExistingFile>,
    table_name: &str,
    file_struct: &FileStruct,
    is_ds: bool,
) -> (res: Option<FileUpdate>)
    requires
        existing matches Some(e) ==> e.lines.len() == e.line_starts.len(),
    ensures
        res.deep_view() == file_update(
            existing.deep_view(),
            file_struct.deep_view(),
            table_name@,
            is_ds,
        ),
{
    let ghost msgs = file_struct.messages.deep_view();
    let mut ret = String::from_str("return ");
    ret.append(table_name);
    let mut header = String::from_str("local ");
    header.append(table_name);
    header.append(" = {\t}\n");
    header.append("local ds_net = require(\"ds_net\")\n\n");
    match existing {
        None => {
            let all = indices(file_struct.messages.len());
            let code = insert_function_code(&all, table_name, file_struct, is_ds);
            let mut s = String::from_str("--auto generated--\n");
            s.append(header.as_str());
            s.append(code.as_str());
            s.append(ret.as_str());
            s.append("\n");
            assert(s@ =~= "--auto generated--\n"@ + table_header(table_name@) + code@ + ("return "@
                + table_name@ + "\n"@));
            Some(FileUpdate::Create(s))
        },
        Some(e) => {
            let ghost texts = func_patterns(msgs, is_ds, table_name@);
            let ghost lv = e.lines.deep_view();
            let mut remain = indices(file_struct.messages.len());
            if e.lines.len() > 0 {
                let pats = match compile_all(file_struct, is_ds, table_name) {
                    Some(ps) => ps,
                    None => return None,
                };
                let mut i: usize = 0;
                while i < e.lines.len()
                    invariant
                        lv == e.lines.deep_view(),
                        pats.len() == texts.len(),
                        forall|k: int| 0 <= k < pats.len() ==> pats[k]@ == texts[k],
                        i <= e.lines.len(),
                        remain@ == remaining(texts, lv.take(i as int)),
                    decreases e.lines.len() - i,
                {
                    assert(lv[i as int] == e.lines[i as int]@);
                    remain = unmatched_of(&pats, Ghost(texts), &remain, e.lines[i].as_str());
                    assert(lv.take(i + 1).drop_last() =~= lv.take(i as int));
                    i = i + 1;
                }
                assert(lv.take(lv.len() as int) =~= lv);
            } else {
                assert(lv.len() == 0);
                assert(texts.len() == msgs.len());
            }
            assert(remain@ == remaining(texts, lv));
            assert(header@ == table_header(table_name@));
            assert(ret@ == "return "@ + table_name@);
            if remain.len() == 0 {
                return Some(FileUpdate::Keep);
            }
            let offset = match last_line_with_of(&e.lines, ret.as_str()) {
                Some(k) => e.line_starts[k],
                None => 0,
            };
            assert(offset == append_offset(e.deep_view(), table_name@));
            let code = insert_function_code(&remain, table_name, file_struct, is_ds);
            let mut s = if offset == 0 {
                header
            } else {
                String::from_str("-----autogen update below-----\n\n")
            };
            let ghost head = s@;
            s.append(code.as_str());
            s.append(ret.as_str());
            s.append("\n");
            assert(s@ =~= head + code@ + ("return "@ + table_name@ + "\n"@));
            Some(FileUpdate::Patch { offset, content: s })
        },
    }
}

/// The name of the Lua table of a handler file, which is also the stem of
/// the file's name: the module, the file and the side's suffix.
pub fn handler_table_name(mod_name: &str, file_name: &str, suffix: &str) -> (r: String)
    ensures
        r@ == mod_name@ + "_"@ + file_name@ + suffix@,
{
    let mut r = String::from_str(mod_name);
    r.append("_");
    r.append(file_name);
    r.append(suffix);
    r
}

} // verus!
