//! A tool call of a session: what its updates say of it, and how the log
//! names and sums it up.

use crate::json::{at, i64_of, items_of, json_views, str_of, Json, JsonView};
use crate::text::{
    chars_of, copy_opt, cut, cut_text, decimal, first_line, first_nonblank, has_prefix, is_alpha,
    is_alpha_char, is_blank, is_digit, is_digit_char, join, joined, law_decimal_reads_back,
    law_first_line_says_something, law_joining_goes_on, law_lines_end_at_line_feeds,
    law_one_line_is_one, law_prefixes_come_off, law_signed_numbers_read_back,
    law_trimming_takes_white_space, lines, lines_of, parse_signed, signed_decimal, signed_value,
    starts_with, strip_prefix, trim, trimmed, without_prefix,
};
use crate::views::{opt_view, views, views_empty, views_push};
use vstd::prelude::*;

verus! {

broadcast use {views_push, views_empty};

// ---- Paths in a call's input -------------------------------------------

/// The path in a tool call's input: the first of the keys that hold one,
/// across agents (some use `file_path`, some `filePath`).
pub open spec fn path_in(input: JsonView) -> Option<Seq<char>> {
    if str_of(at(input, "file_path"@)) is Some {
        str_of(at(input, "file_path"@))
    } else if str_of(at(input, "filePath"@)) is Some {
        str_of(at(input, "filePath"@))
    } else if str_of(at(input, "notebook_path"@)) is Some {
        str_of(at(input, "notebook_path"@))
    } else {
        str_of(at(input, "path"@))
    }
}

fn input_path(input: &Json) -> (r: Option<&str>)
    ensures
        match r {
            Some(p) => path_in(input@) == Some(p@),
            None => path_in(input@) is None,
        },
{
    if let Some(p) = input.at("file_path").as_str() {
        return Some(p);
    }
    if let Some(p) = input.at("filePath").as_str() {
        return Some(p);
    }
    if let Some(p) = input.at("notebook_path").as_str() {
        return Some(p);
    }
    input.at("path").as_str()
}

/// PATH relative to CWD, where it is under it.
pub open spec fn relative(path: Seq<char>, cwd: Seq<char>) -> Seq<char> {
    let under = cwd + "/"@;
    if cwd.len() > 0 && has_prefix(path, under) {
        path.skip(under.len() as int)
    } else {
        path
    }
}

fn relative_to(path: &str, cwd: &str) -> (r: String)
    ensures
        r@ == relative(path@, cwd@),
{
    let mut under = cwd.to_owned();
    under.append("/");
    if cwd.is_empty() {
        return path.to_owned();
    }
    match strip_prefix(path, under.as_str()) {
        Some(rest) => rest,
        None => path.to_owned(),
    }
}

// ---- Output ------------------------------------------------------------

/// Of LINES, trimmed, those that say something: not blank, and not the
/// Markdown code fences some agents wrap output in.
pub open spec fn saying(lines: Seq<Seq<char>>) -> Seq<Seq<char>>
    decreases lines.len(),
{
    if lines.len() == 0 {
        Seq::empty()
    } else {
        let line = trimmed(lines.last());
        let before = saying(lines.drop_last());
        if line.len() > 0 && !has_prefix(line, "```"@) {
            before.push(line)
        } else {
            before
        }
    }
}

/// A tool's output lines that say something.
pub fn output_lines(text: &str) -> (r: Vec<String>)
    ensures
        views(r@) == saying(lines_of(text@)),
{
    let all = lines(text);
    let ghost v = views(all@);
    let mut r: Vec<String> = Vec::new();
    assert(v.take(0) =~= Seq::<Seq<char>>::empty());
    for i in 0..all.len()
        invariant
            v == views(all@),
            views(r@) == saying(v.take(i as int)),
    {
        assert(v.take(i + 1).drop_last() =~= v.take(i as int));
        let line = trim(all[i].as_str());
        if !line.as_str().is_empty() && !starts_with(line.as_str(), "```") {
            r.push(line);
        }
    }
    assert(v.take(all@.len() as int) =~= v);
    r
}

/// The status in a line `Exit code N`.
pub open spec fn exit_code_in(line: Seq<char>) -> Option<int> {
    match without_prefix(line, "Exit code "@) {
        Some(n) => signed_value(n),
        None => None,
    }
}

/// Some agents start a failed command's output with "Exit code N".
pub fn exit_code_line(line: &str) -> (r: Option<i64>)
    ensures
        match r {
            Some(n) => exit_code_in(line@) == Some(n as int),
            None => exit_code_in(line@) is None,
        },
{
    match strip_prefix(line, "Exit code ") {
        Some(n) => parse_signed(n.as_str()),
        None => None,
    }
}

/// The first of LINES that is no exit status, else nothing.
pub open spec fn first_reason(lines: Seq<Seq<char>>) -> Seq<char>
    decreases lines.len(),
{
    if lines.len() == 0 {
        Seq::empty()
    } else if exit_code_in(lines[0]) is None {
        lines[0]
    } else {
        first_reason(lines.skip(1))
    }
}

/// The line of an output that says what went wrong.
pub open spec fn error_line_of(text: Seq<char>) -> Seq<char> {
    cut_text(first_reason(saying(lines_of(text))))
}

/// The line that says what went wrong: a failed shell command's output
/// often starts with "Exit code N", which the log line already shows.
pub fn error_line(text: &str) -> (r: String)
    ensures
        r@ == error_line_of(text@),
{
    let v = output_lines(text);
    let ghost all = views(v@);
    let mut i: usize = 0;
    assert(all.skip(0) =~= all);
    while i < v.len()
        invariant
            i <= v@.len(),
            all == views(v@),
            all == saying(lines_of(text@)),
            first_reason(all) == first_reason(all.skip(i as int)),
        decreases v@.len() - i,
    {
        assert(all.skip(i as int)[0] == v@[i as int]@);
        if exit_code_line(v[i].as_str()).is_none() {
            return cut(v[i].as_str());
        }
        assert(all.skip(i as int).skip(1) =~= all.skip(i + 1));
        i += 1;
    }
    let none = String::new();
    cut(none.as_str())
}

/// The status that output lines start with.
pub open spec fn leading_exit(lines: Seq<Seq<char>>) -> Option<int> {
    if lines.len() > 0 {
        exit_code_in(lines[0])
    } else {
        None
    }
}

/// A shell command's exit status, where the agent reports one.
pub open spec fn exit_status_of(text: Seq<char>, raw_output: JsonView) -> Option<int> {
    let first = leading_exit(saying(lines_of(text)));
    let metadata = i64_of(at(at(raw_output, "metadata"@), "exit"@));
    let code = i64_of(at(raw_output, "exit_code"@));
    if first is Some {
        first
    } else if metadata is Some {
        Some(metadata->0 as int)
    } else if code is Some {
        Some(code->0 as int)
    } else {
        None
    }
}

/// A shell command's exit status, where the agent reports one: in its
/// output's first line, or in rawOutput (opencode: metadata.exit).
pub fn exit_status(text: &str, raw_output: &Json) -> (r: Option<i64>)
    ensures
        match r {
            Some(n) => exit_status_of(text@, raw_output@) == Some(n as int),
            None => exit_status_of(text@, raw_output@) is None,
        },
{
    let v = output_lines(text);
    if v.len() > 0 {
        assert(views(v@)[0] == v@[0]@);
        if let Some(n) = exit_code_line(v[0].as_str()) {
            return Some(n);
        }
    }
    if let Some(n) = raw_output.at("metadata").at("exit").as_i64() {
        return Some(n);
    }
    raw_output.at("exit_code").as_i64()
}

/// The text of a block of a tool call's content.
pub open spec fn block_text(block: JsonView) -> Option<Seq<char>> {
    let inner = str_of(at(at(block, "content"@), "text"@));
    if inner is Some {
        inner
    } else {
        str_of(at(block, "text"@))
    }
}

/// The texts of BLOCKS that have one.
pub open spec fn block_texts(blocks: Seq<JsonView>) -> Seq<Seq<char>>
    decreases blocks.len(),
{
    if blocks.len() == 0 {
        Seq::empty()
    } else {
        let before = block_texts(blocks.drop_last());
        match block_text(blocks.last()) {
            Some(t) => before.push(t),
            None => before,
        }
    }
}

/// The text of a tool call's content: its text blocks, joined.
pub open spec fn content_text_of(content: JsonView) -> Seq<char> {
    joined(block_texts(items_of(content)), "\n"@)
}

/// The text of a tool call's `content`: its text blocks, joined.
pub fn content_text(content: &Json) -> (r: String)
    ensures
        r@ == content_text_of(content@),
{
    let mut texts: Vec<String> = Vec::new();
    if let Some(blocks) = content.as_array() {
        let ghost all = json_views(blocks@);
        assert(all.take(0) =~= Seq::<JsonView>::empty());
        for i in 0..blocks.len()
            invariant
                all == json_views(blocks@),
                views(texts@) == block_texts(all.take(i as int)),
        {
            assert(all.take(i + 1).drop_last() =~= all.take(i as int));
            let block = &blocks[i];
            if let Some(t) = block.at("content").at("text").as_str() {
                texts.push(t.to_owned());
            } else if let Some(t) = block.at("text").as_str() {
                texts.push(t.to_owned());
            }
        }
        assert(all.take(blocks@.len() as int) =~= all);
    }
    join(&texts, "\n")
}

// ---- Names -------------------------------------------------------------

/// A title that is a tool name rather than a description: letters, digits,
/// `_` and `-`.
pub open spec fn names_tool(title: Seq<char>) -> bool {
    title.len() > 0 && forall|i: int|
        0 <= i < title.len() ==> is_alpha_char(#[trigger] title[i]) || is_digit_char(title[i])
            || title[i] == '_' || title[i] == '-'
}

/// A title that is a tool name rather than a description.
pub fn is_tool_name(title: &str) -> (r: bool)
    ensures
        r == names_tool(title@),
{
    let v = chars_of(title);
    if v.len() == 0 {
        return false;
    }
    for i in 0..v.len()
        invariant
            v@ == title@,
            forall|k: int|
                0 <= k < i ==> is_alpha_char(#[trigger] title@[k]) || is_digit_char(title@[k])
                    || title@[k] == '_' || title@[k] == '-',
    {
        let c = v[i];
        if !(is_alpha(c) || is_digit(c) || c == '_' || c == '-') {
            assert(!(is_alpha_char(title@[i as int]) || is_digit_char(title@[i as int])));
            return false;
        }
    }
    true
}

// ---- The call ----------------------------------------------------------

/// A tool call.
#[derive(Debug)]
pub struct ToolCall {
    pub id: String,
    pub name: String,
    pub kind: String,
    pub summary: String,
    /// When it started: the bits of a double, in seconds.
    pub start: u64,
    /// When it ended: the bits of a double, in seconds.
    pub end: Option<u64>,
    /// Whole seconds, once it finished.
    pub duration_s: Option<u64>,
    pub error: Option<bool>,
    /// The first line of a failed call's output.
    pub message: Option<String>,
    pub title: String,
    /// The title the call started with: some agents (opencode) put the
    /// tool's name there.
    pub first_title: String,
    pub raw_input: Json,
    pub raw_output: Json,
    pub content: Json,
}

/// What a tool call holds.
#[verifier::ext_equal]
pub struct CallView {
    pub id: Seq<char>,
    pub name: Seq<char>,
    pub kind: Seq<char>,
    pub summary: Seq<char>,
    pub start: u64,
    pub end: Option<u64>,
    pub duration_s: Option<u64>,
    pub error: Option<bool>,
    pub message: Option<Seq<char>>,
    pub title: Seq<char>,
    pub first_title: Seq<char>,
    pub raw_input: JsonView,
    pub raw_output: JsonView,
    pub content: JsonView,
}

impl View for ToolCall {
    type V = CallView;

    open spec fn view(&self) -> CallView {
        CallView {
            id: self.id@,
            name: self.name@,
            kind: self.kind@,
            summary: self.summary@,
            start: self.start,
            end: self.end,
            duration_s: self.duration_s,
            error: self.error,
            message: opt_view(self.message),
            title: self.title@,
            first_title: self.first_title@,
            raw_input: self.raw_input@,
            raw_output: self.raw_output@,
            content: self.content@,
        }
    }
}

/// The tool calls of a list.
pub open spec fn call_views(v: Seq<ToolCall>) -> Seq<CallView> {
    Seq::new(v.len(), |i: int| v[i]@)
}

/// A tool call of which nothing is known but its id and start.
pub open spec fn new_call(id: Seq<char>, start: u64) -> CallView {
    CallView {
        id,
        name: Seq::empty(),
        kind: Seq::empty(),
        summary: Seq::empty(),
        start,
        end: None,
        duration_s: None,
        error: None,
        message: None,
        title: Seq::empty(),
        first_title: Seq::empty(),
        raw_input: JsonView::Null,
        raw_output: JsonView::Null,
        content: JsonView::Null,
    }
}

/// The tool name in the fields of a call. ACP v1 has no tool name; `name`
/// is a draft field, and agents put theirs in _meta (as
/// claudeCode.toolName).
pub open spec fn tool_name_in(fields: JsonView) -> Option<Seq<char>> {
    let name = str_of(at(fields, "name"@));
    if name is Some {
        name
    } else {
        str_of(at(at(at(fields, "_meta"@), "claudeCode"@), "toolName"@))
    }
}

/// OLD, unless NEW says something.
pub open spec fn unless_null(old_value: JsonView, new_value: JsonView) -> JsonView {
    if new_value is Null {
        old_value
    } else {
        new_value
    }
}

/// OLD, unless there is a new text.
pub open spec fn unless_none(old_text: Seq<char>, new_text: Option<Seq<char>>) -> Seq<char> {
    match new_text {
        Some(t) => t,
        None => old_text,
    }
}

/// The call with what FIELDS say of it.
pub open spec fn merged(call: CallView, fields: JsonView) -> CallView {
    let title = str_of(at(fields, "title"@));
    CallView {
        title: unless_none(call.title, title),
        first_title: if call.first_title.len() == 0 {
            unless_none(call.first_title, title)
        } else {
            call.first_title
        },
        kind: unless_none(call.kind, str_of(at(fields, "kind"@))),
        raw_input: unless_null(call.raw_input, at(fields, "rawInput"@)),
        content: unless_null(call.content, at(fields, "content"@)),
        raw_output: unless_null(call.raw_output, at(fields, "rawOutput"@)),
        name: unless_none(call.name, tool_name_in(fields)),
        ..call
    }
}

/// What a call does, on one line: its command, the path it is about, what
/// it looks for, or its title.
pub open spec fn summary_of(call: CallView, cwd: Seq<char>) -> Seq<char> {
    let input = call.raw_input;
    cut_text(
        if str_of(at(input, "command"@)) is Some {
            first_nonblank(lines_of(str_of(at(input, "command"@))->0))
        } else if path_in(input) is Some {
            relative(path_in(input)->0, cwd)
        } else if str_of(at(input, "pattern"@)) is Some {
            str_of(at(input, "pattern"@))->0
        } else if str_of(at(input, "url"@)) is Some {
            str_of(at(input, "url"@))->0
        } else {
            first_nonblank(lines_of(call.title))
        },
    )
}

/// What the log calls a tool call.
pub open spec fn display_name_of(call: CallView) -> Seq<char> {
    cut_text(
        if call.name.len() > 0 {
            call.name
        } else if names_tool(call.first_title) {
            call.first_title
        } else if call.kind.len() > 0 {
            call.kind
        } else {
            "tool"@
        },
    )
}

impl ToolCall {
    pub fn new(id: String, start: u64) -> (r: ToolCall)
        ensures
            r@ == new_call(id@, start),
    {
        ToolCall {
            id,
            name: String::new(),
            kind: String::new(),
            summary: String::new(),
            start,
            end: None,
            duration_s: None,
            error: None,
            message: None,
            title: String::new(),
            first_title: String::new(),
            raw_input: Json::Null,
            raw_output: Json::Null,
            content: Json::Null,
        }
    }

    /// An equal call.
    pub fn copy(&self) -> (r: ToolCall)
        ensures
            r@ == self@,
    {
        ToolCall {
            id: self.id.clone(),
            name: self.name.clone(),
            kind: self.kind.clone(),
            summary: self.summary.clone(),
            start: self.start,
            end: self.end,
            duration_s: self.duration_s,
            error: self.error,
            message: copy_opt(&self.message),
            title: self.title.clone(),
            first_title: self.first_title.clone(),
            raw_input: self.raw_input.copy(),
            raw_output: self.raw_output.copy(),
            content: self.content.copy(),
        }
    }

    /// Takes over what FIELDS say of the call.
    pub fn merge(&mut self, fields: &Json)
        ensures
            final(self)@ == merged(old(self)@, fields@),
    {
        if let Some(t) = fields.at("title").as_str() {
            self.title = t.to_owned();
            if self.first_title.as_str().is_empty() {
                self.first_title = t.to_owned();
            }
        }
        if let Some(k) = fields.at("kind").as_str() {
            self.kind = k.to_owned();
        }
        let input = fields.at("rawInput");
        if !input.is_null() {
            self.raw_input = input.copy();
        }
        let content = fields.at("content");
        if !content.is_null() {
            self.content = content.copy();
        }
        let output = fields.at("rawOutput");
        if !output.is_null() {
            self.raw_output = output.copy();
        }
        if let Some(n) = fields.at("name").as_str() {
            self.name = n.to_owned();
        } else if let Some(n) = fields.at("_meta").at("claudeCode").at("toolName").as_str() {
            self.name = n.to_owned();
        }
    }

    /// Sums the call up.
    pub fn finish_summary(&mut self, cwd: &str)
        ensures
            final(self)@ == (CallView { summary: summary_of(old(self)@, cwd@), ..old(self)@ }),
    {
        let input = &self.raw_input;
        let summary: String = if let Some(c) = input.at("command").as_str() {
            first_line(c)
        } else if let Some(p) = input_path(input) {
            relative_to(p, cwd)
        } else if let Some(p) = input.at("pattern").as_str() {
            p.to_owned()
        } else if let Some(p) = input.at("url").as_str() {
            p.to_owned()
        } else {
            first_line(self.title.as_str())
        };
        self.summary = cut(summary.as_str());
    }

    /// Its name, else its first title if that looks like a name, else its
    /// kind.
    pub fn display_name(&self) -> (r: String)
        ensures
            r@ == display_name_of(self@),
    {
        // The agent picks the name: keep it to one short line too.
        if !self.name.as_str().is_empty() {
            cut(self.name.as_str())
        } else if is_tool_name(self.first_title.as_str()) {
            cut(self.first_title.as_str())
        } else if !self.kind.as_str().is_empty() {
            cut(self.kind.as_str())
        } else {
            cut("tool")
        }
    }
}

// ---- What the calls say ------------------------------------------------

/// The path of a call's input is the text under the first of the keys
/// `file_path`, `filePath`, `notebook_path` and `path` that holds one.
pub proof fn law_first_path_key_counts(input: JsonView)
    ensures
        ({
            let a = str_of(at(input, "file_path"@));
            let b = str_of(at(input, "filePath"@));
            let c = str_of(at(input, "notebook_path"@));
            let d = str_of(at(input, "path"@));
            &&& a is Some ==> path_in(input) == a
            &&& a is None && b is Some ==> path_in(input) == b
            &&& a is None && b is None && c is Some ==> path_in(input) == c
            &&& a is None && b is None && c is None ==> path_in(input) == d
        }),
{
}

/// A path under the working directory is shown from there; any other path is
/// shown as it is.
pub proof fn law_paths_are_shown_from_the_cwd(cwd: Seq<char>, rest: Seq<char>, path: Seq<char>)
    ensures
        cwd.len() > 0 ==> relative(cwd + "/"@ + rest, cwd) == rest,
        relative(path, Seq::empty()) == path,
        cwd.len() > 0 && !(cwd + "/"@).is_prefix_of(path) ==> relative(path, cwd) == path,
{
    let under = cwd + "/"@;
    assert((under + rest).take(under.len() as int) =~= under);
    assert((under + rest).skip(under.len() as int) =~= rest);
    if has_prefix(path, under) {
        assert(path.subrange(0, under.len() as int) =~= path.take(under.len() as int));
    }
}

/// Of output lines, just those that say something are kept, trimmed and in
/// their order: not the blank ones, nor those that start with a code fence.
pub proof fn law_lines_that_say_something(a: Seq<Seq<char>>, b: Seq<Seq<char>>, line: Seq<char>)
    ensures
        saying(a + b) == saying(a) + saying(b),
        saying(Seq::empty()).len() == 0,
        trimmed(line).len() > 0 && !"```"@.is_prefix_of(trimmed(line)) ==> saying(seq![line])
            == seq![trimmed(line)],
        trimmed(line).len() == 0 || "```"@.is_prefix_of(trimmed(line)) ==> saying(
            seq![line],
        ).len() == 0,
    decreases b.len(),
{
    reveal_with_fuel(saying, 2);
    assert(seq![line].drop_last() =~= Seq::<Seq<char>>::empty());
    if trimmed(line).len() > 0 && !"```"@.is_prefix_of(trimmed(line)) {
        assert(saying(seq![line]) =~= seq![trimmed(line)]) by {
            if has_prefix(trimmed(line), "```"@) {
                assert(trimmed(line).subrange(0, "```"@.len() as int) =~= trimmed(line).take(
                    "```"@.len() as int,
                ));
            }
        }
    }
    if "```"@.is_prefix_of(trimmed(line)) {
        assert(trimmed(line).subrange(0, "```"@.len() as int) =~= trimmed(line).take(
            "```"@.len() as int,
        ));
    }
    if b.len() == 0 {
        assert(a + b =~= a);
        assert(saying(a) + saying(b) =~= saying(a));
    } else {
        law_lines_that_say_something(a, b.drop_last(), line);
        assert((a + b).drop_last() =~= a + b.drop_last());
        assert(saying(a + b) =~= saying(a) + saying(b));
    }
}

/// `Exit code N` gives N, and a line that starts otherwise gives none.
pub proof fn law_exit_code_lines(n: int, line: Seq<char>)
    ensures
        i64::MIN <= n <= i64::MAX ==> exit_code_in("Exit code "@ + signed_decimal(n)) == Some(n),
        !"Exit code "@.is_prefix_of(line) ==> exit_code_in(line) is None,
{
    law_prefixes_come_off("Exit code "@, signed_decimal(n), line);
    law_signed_numbers_read_back(n);
    if has_prefix(line, "Exit code "@) {
        assert(line.subrange(0, "Exit code "@.len() as int) =~= line.take(
            "Exit code "@.len() as int,
        ));
    }
}

/// What went wrong is the first line of the output that says something and
/// is no exit status; nothing, where there is none.
pub proof fn law_error_lines_skip_the_status(text: Seq<char>, i: int)
    requires
        ({
            let said = saying(lines_of(text));
            &&& 0 <= i <= said.len()
            &&& i < said.len() ==> exit_code_in(said[i]) is None
            &&& forall|k: int| 0 <= k < i ==> exit_code_in(#[trigger] said[k]) is Some
        }),
    ensures
        error_line_of(text) == if i < saying(lines_of(text)).len() {
            cut_text(saying(lines_of(text))[i])
        } else {
            Seq::empty()
        },
{
    lemma_first_reason(saying(lines_of(text)), i);
    assert(cut_text(Seq::<char>::empty()) =~= Seq::<char>::empty());
}

proof fn lemma_first_reason(lines: Seq<Seq<char>>, i: int)
    requires
        0 <= i <= lines.len(),
        i < lines.len() ==> exit_code_in(lines[i]) is None,
        forall|k: int| 0 <= k < i ==> exit_code_in(#[trigger] lines[k]) is Some,
    ensures
        first_reason(lines) == if i < lines.len() {
            lines[i]
        } else {
            Seq::empty()
        },
    decreases i,
{
    if i > 0 {
        assert(exit_code_in(lines[0]) is Some);
        let rest = lines.skip(1);
        assert forall|k: int| 0 <= k < i - 1 implies exit_code_in(#[trigger] rest[k]) is Some by {
            assert(rest[k] == lines[k + 1]);
        }
        if i < lines.len() {
            assert(rest[i - 1] == lines[i]);
        }
        lemma_first_reason(rest, i - 1);
    }
}

/// The exit status is the one that the output starts with; where it starts
/// with none, the one in rawOutput's metadata, else its `exit_code`.
pub proof fn law_exit_statuses_are_found(text: Seq<char>, raw_output: JsonView)
    ensures
        ({
            let said = saying(lines_of(text));
            let first = if said.len() > 0 {
                exit_code_in(said[0])
            } else {
                None
            };
            let metadata = i64_of(at(at(raw_output, "metadata"@), "exit"@));
            let code = i64_of(at(raw_output, "exit_code"@));
            let status = exit_status_of(text, raw_output);
            &&& first is Some ==> status == first
            &&& first is None && metadata is Some ==> status == Some(metadata->0 as int)
            &&& first is None && metadata is None && code is Some ==> status == Some(
                code->0 as int,
            )
            &&& first is None && metadata is None && code is None ==> status is None
        }),
{
}

/// The output of a failed command tells its status and, after it, what went
/// wrong.
pub proof fn law_failed_output_is_read(n: int, why: Seq<char>, raw_output: JsonView)
    requires
        i64::MIN <= n <= i64::MAX,
        why.len() > 0,
        forall|i: int| 0 <= i < why.len() ==> why[i] != '\n',
        trimmed(why) == why,
        !"```"@.is_prefix_of(why),
        !"Exit code "@.is_prefix_of(why),
    ensures
        exit_status_of("Exit code "@ + signed_decimal(n) + "\n"@ + why, raw_output) == Some(n),
        error_line_of("Exit code "@ + signed_decimal(n) + "\n"@ + why) == cut_text(why),
{
    let status = "Exit code "@ + signed_decimal(n);
    reveal_strlit("\n");
    reveal_strlit("Exit code ");
    reveal_strlit("```");
    law_signed_numbers_read_back(n);
    let size = (if n < 0 {
        -n
    } else {
        n
    }) as nat;
    law_decimal_reads_back(size);
    assert forall|i: int| 0 <= i < status.len() implies status[i] != '\n' by {
        if i >= 10 {
            let j = i - 10;
            assert(status[i] == signed_decimal(n)[j]);
            if n < 0 && j > 0 {
                assert(signed_decimal(n)[j] == decimal(size)[j - 1]);
                assert(is_digit_char(decimal(size)[j - 1]));
            } else if n >= 0 {
                assert(is_digit_char(decimal(size)[j]));
            }
        }
    }
    assert(is_digit_char(decimal(size)[decimal(size).len() - 1]));
    assert(status.last() == decimal(size).last());
    assert(status + "\n"@ + why =~= status.push('\n') + why);
    law_lines_end_at_line_feeds(status, why);
    law_one_line_is_one(why);
    let empty = Seq::<char>::empty();
    law_trimming_takes_white_space(empty, status, empty);
    assert(empty + status + empty =~= status);
    law_lines_that_say_something(seq![status], seq![why], status);
    law_lines_that_say_something(seq![status], seq![why], why);
    assert(status[0] == 'E');
    if "```"@.is_prefix_of(status) {
        assert(status.subrange(0, 3)[0] == status[0]);
        assert("```"@[0] == '`');
    }
    let said = saying(lines_of(status.push('\n') + why));
    assert(said =~= seq![status, why]);
    law_exit_code_lines(n, why);
    law_error_lines_skip_the_status(status.push('\n') + why, 1);
}

/// The text of a call's content is that of its text blocks, whether it is in
/// the block or in the block's content, each on lines of its own.
pub proof fn law_content_is_its_text_blocks(
    blocks: Seq<JsonView>,
    more: Seq<JsonView>,
    block: JsonView,
    other: JsonView,
)
    ensures
        block_texts(blocks + more) == block_texts(blocks) + block_texts(more),
        ({
            let inner = str_of(at(at(block, "content"@), "text"@));
            let own = str_of(at(block, "text"@));
            &&& inner is Some ==> content_text_of(JsonView::Array(seq![block])) == inner->0
            &&& inner is None && own is Some ==> content_text_of(JsonView::Array(seq![block]))
                == own->0
            &&& inner is None && own is None ==> content_text_of(
                JsonView::Array(seq![block]),
            ).len() == 0
        }),
        block_texts(blocks).len() > 0 && block_texts(more).len() > 0 ==> content_text_of(
            JsonView::Array(blocks + more),
        ) == content_text_of(JsonView::Array(blocks)) + "\n"@ + content_text_of(
            JsonView::Array(more),
        ),
        !(other is Array) ==> content_text_of(other).len() == 0,
    decreases more.len(),
{
    reveal_with_fuel(block_texts, 2);
    assert(seq![block].drop_last() =~= Seq::<JsonView>::empty());
    if more.len() == 0 {
        assert(blocks + more =~= blocks);
        assert(block_texts(blocks) + block_texts(more) =~= block_texts(blocks));
    } else {
        law_content_is_its_text_blocks(blocks, more.drop_last(), block, other);
        assert((blocks + more).drop_last() =~= blocks + more.drop_last());
        assert(block_texts(blocks + more) =~= block_texts(blocks) + block_texts(more));
    }
    law_joining_goes_on(block_texts(blocks), block_texts(more), "\n"@);
}

/// A title is a tool's name where it is not empty and each of its characters
/// is an ASCII letter or digit, an underscore or a dash.
pub proof fn law_tool_names_are_words(title: Seq<char>, i: int)
    ensures
        title.len() == 0 ==> !names_tool(title),
        0 <= i < title.len() && !('a' <= title[i] && title[i] <= 'z') && !('A' <= title[i]
            && title[i] <= 'Z') && !('0' <= title[i] && title[i] <= '9') && title[i] != '_'
            && title[i] != '-' ==> !names_tool(title),
        title.len() > 0 && (forall|k: int|
            0 <= k < title.len() ==> ('a' <= (#[trigger] title[k]) && title[k] <= 'z') || ('A'
                <= title[k] && title[k] <= 'Z') || ('0' <= title[k] && title[k] <= '9')
                || title[k] == '_' || title[k] == '-') ==> names_tool(title),
{
}

/// What an update says of a call counts from then on, and what it does not
/// say stays. The title that the call started with is kept besides.
pub proof fn law_updates_are_taken_over(call: CallView, fields: JsonView)
    ensures
        ({
            let after = merged(call, fields);
            let title = str_of(at(fields, "title"@));
            let kind = str_of(at(fields, "kind"@));
            let name = str_of(at(fields, "name"@));
            let meta = str_of(at(at(at(fields, "_meta"@), "claudeCode"@), "toolName"@));
            &&& title is Some ==> after.title == title->0
            &&& title is None ==> after.title == call.title && after.first_title
                == call.first_title
            &&& call.first_title.len() > 0 ==> after.first_title == call.first_title
            &&& call.first_title.len() == 0 && title is Some ==> after.first_title == title->0
            &&& kind is Some ==> after.kind == kind->0
            &&& kind is None ==> after.kind == call.kind
            &&& name is Some ==> after.name == name->0
            &&& name is None && meta is Some ==> after.name == meta->0
            &&& name is None && meta is None ==> after.name == call.name
            &&& after.raw_input == if at(fields, "rawInput"@) is Null {
                call.raw_input
            } else {
                at(fields, "rawInput"@)
            }
            &&& after.content == if at(fields, "content"@) is Null {
                call.content
            } else {
                at(fields, "content"@)
            }
            &&& after.raw_output == if at(fields, "rawOutput"@) is Null {
                call.raw_output
            } else {
                at(fields, "rawOutput"@)
            }
            &&& after.id == call.id && after.start == call.start && after.end == call.end
            &&& after.duration_s == call.duration_s && after.error == call.error
            &&& after.message == call.message && after.summary == call.summary
        }),
{
}

/// A call is summed up by its command, of which the first line that says
/// something counts; else by the path that it is about, from the working
/// directory; else by what it looks for; else by its title.
pub proof fn law_calls_are_summed_up(call: CallView, cwd: Seq<char>, i: int)
    ensures
        ({
            let input = call.raw_input;
            let command = str_of(at(input, "command"@));
            let pattern = str_of(at(input, "pattern"@));
            let url = str_of(at(input, "url"@));
            let path = path_in(input);
            let lines = lines_of(command->0);
            let titles = lines_of(call.title);
            let sum = summary_of(call, cwd);
            &&& command is Some && 0 <= i < lines.len() && !is_blank(lines[i]) && (forall|k: int|
                0 <= k < i ==> is_blank(#[trigger] lines[k])) ==> sum == cut_text(lines[i])
            &&& command is None && path is Some ==> sum == cut_text(relative(path->0, cwd))
            &&& command is None && path is None && pattern is Some ==> sum == cut_text(pattern->0)
            &&& command is None && path is None && pattern is None && url is Some ==> sum
                == cut_text(url->0)
            &&& command is None && path is None && pattern is None && url is None && 0 <= i
                < titles.len() && !is_blank(titles[i]) && (forall|k: int|
                0 <= k < i ==> is_blank(#[trigger] titles[k])) ==> sum == cut_text(titles[i])
        }),
{
    let lines = lines_of(str_of(at(call.raw_input, "command"@))->0);
    let titles = lines_of(call.title);
    if 0 <= i < lines.len() && !is_blank(lines[i]) && (forall|k: int|
        0 <= k < i ==> is_blank(#[trigger] lines[k])) {
        law_first_line_says_something(lines, i);
    }
    if 0 <= i < titles.len() && !is_blank(titles[i]) && (forall|k: int|
        0 <= k < i ==> is_blank(#[trigger] titles[k])) {
        law_first_line_says_something(titles, i);
    }
}

/// A call goes by its name; without one by the title that it started with,
/// where that is a tool's name, else by its kind, else as a tool.
pub proof fn law_calls_go_by_a_name(call: CallView)
    ensures
        call.name.len() > 0 ==> display_name_of(call) == cut_text(call.name),
        call.name.len() == 0 && names_tool(call.first_title) ==> display_name_of(call) == cut_text(
            call.first_title,
        ),
        call.name.len() == 0 && !names_tool(call.first_title) && call.kind.len() > 0
            ==> display_name_of(call) == cut_text(call.kind),
        call.name.len() == 0 && !names_tool(call.first_title) && call.kind.len() == 0
            ==> display_name_of(call) == cut_text("tool"@),
{
}

} // verus!
