//! What the agent does for a tool call, and how a tool's output is reported
//! back to the model.

use vstd::prelude::*;
use vstd::utf8::*;
use crate::messages::ToolCallInfo;
use crate::text::{opt_view, str_eq};

verus! {

/// The string stored under `key` in the JSON object that `text` holds; `None`
/// when `text` is not JSON, is not an object, lacks the key or holds something
/// other than a string there (what `serde_json` reads).
pub uninterp spec fn json_string_field(text: Seq<char>, key: Seq<char>) -> Option<Seq<char>>;

/// `serde_json::from_str::<serde_json::Value>` on the tool call's arguments
/// (a parse error counts as `null`), then the string under `key`. Its result
/// is named by `json_string_field` and depends on the two texts alone.
#[verifier::external_body]
fn json_string_arg(text: &str, key: &str) -> (r: Option<String>)
    ensures
        opt_view(r) == json_string_field(text@, key@),
{
    let value: serde_json::Value = match serde_json::from_str(text) {
        Ok(v) => v,
        Err(_) => serde_json::Value::Null,
    };
    match value[key].as_str() {
        Some(s) => Some(s.to_string()),
        None => None,
    }
}

/// What every path that `Path::is_absolute` accepts looks like, on Unix and on
/// Windows alike: it is not empty, and it starts with `/` or `\`, or holds a `:`.
pub open spec fn may_be_absolute(path: Seq<char>) -> bool {
    path.len() > 0 && (path[0] == '/' || path[0] == '\\' || path.contains(':'))
}

/// `std::path::Path::is_absolute`. Its documentation: on Unix a path is
/// absolute when it starts with the root `/`; on Windows when it has a prefix
/// (a drive such as `C:`, or a UNC or verbatim prefix, which starts with `\`
/// or `/`) followed by the root. Which paths are absolute depends on the
/// platform, so only what holds on both is stated: an absolute path has the
/// shape `may_be_absolute` gives; the converse is left unsaid.
#[verifier::external_body]
fn path_is_absolute(path: &str) -> (r: bool)
    ensures
        r ==> may_be_absolute(path@),
{
    std::path::Path::new(path).is_absolute()
}

/// The text `String::from_utf8_lossy` makes of a byte sequence: each invalid
/// UTF-8 sequence becomes U+FFFD.
pub uninterp spec fn utf8_lossy(bytes: Seq<u8>) -> Seq<char>;

/// The text `String::from_utf8_lossy` makes of a byte sequence, with what its
/// documentation says written out: valid UTF-8 decodes unchanged; of other
/// bytes the text is named by `utf8_lossy`.
pub open spec fn lossy_text(bytes: Seq<u8>) -> Seq<char> {
    if valid_utf8(bytes) {
        decode_utf8(bytes)
    } else {
        utf8_lossy(bytes)
    }
}

/// `String::from_utf8_lossy`: named by `utf8_lossy`; bytes that are valid UTF-8
/// come back decoded unchanged, as its documentation states (`lossy_text`).
#[verifier::external_body]
pub(crate) fn string_from_utf8_lossy(bytes: &[u8]) -> (r: String)
    ensures
        r@ == utf8_lossy(bytes@),
        r@ == lossy_text(bytes@),
{
    String::from_utf8_lossy(bytes).into_owned()
}

/// What the agent does for one tool call.
#[derive(Clone, Debug)]
pub enum ToolAction {
    /// Run a command with the system shell in the working directory.
    RunShellCommand { command: String },
    /// Read the file at this path.
    ReadFile { path: String },
    /// Answer the model directly with this text.
    Respond { text: String },
}

/// A tool action as plain text.
pub enum ToolActionView {
    RunShellCommand(Seq<char>),
    ReadFile(Seq<char>),
    Respond(Seq<char>),
}

impl View for ToolAction {
    type V = ToolActionView;

    open spec fn view(&self) -> ToolActionView {
        match self {
            ToolAction::RunShellCommand { command } => ToolActionView::RunShellCommand(command@),
            ToolAction::ReadFile { path } => ToolActionView::ReadFile(path@),
            ToolAction::Respond { text } => ToolActionView::Respond(text@),
        }
    }
}

/// The file a `read_file` call names: an absolute path as it is, a relative
/// one below the working directory.
pub open spec fn spec_resolve_tool_path(path: Seq<char>, cwd: Seq<char>, path_is_absolute: bool) -> Seq<char> {
    if path_is_absolute {
        path
    } else {
        cwd + "/"@ + path
    }
}

/// The argument a tool reads from its JSON arguments: `command` for
/// `run_shell_command`, `path` for `read_file`, none for another tool.
pub open spec fn tool_arg_key(name: Seq<char>) -> Option<Seq<char>> {
    if name == "run_shell_command"@ {
        Some("command"@)
    } else if name == "read_file"@ {
        Some("path"@)
    } else {
        None
    }
}

/// What the agent does for a call of the tool `name` whose argument (see
/// `tool_arg_key`) is `arg`, given whether a path argument is absolute.
pub open spec fn spec_action_for_arg(
    name: Seq<char>,
    arg: Option<Seq<char>>,
    cwd: Seq<char>,
    path_is_absolute: bool,
) -> ToolActionView {
    if name == "run_shell_command"@ {
        match arg {
            Some(c) => ToolActionView::RunShellCommand(c),
            None => ToolActionView::Respond("Error: missing 'command' argument"@),
        }
    } else if name == "read_file"@ {
        match arg {
            Some(p) => ToolActionView::ReadFile(spec_resolve_tool_path(p, cwd, path_is_absolute)),
            None => ToolActionView::Respond("Error: missing 'path' argument"@),
        }
    } else {
        ToolActionView::Respond("Unknown tool: "@ + name)
    }
}

/// The argument of a call of tool `name` with the given JSON arguments.
pub open spec fn tool_arg(name: Seq<char>, arguments: Seq<char>) -> Option<Seq<char>> {
    match tool_arg_key(name) {
        Some(k) => json_string_field(arguments, k),
        None => None,
    }
}

/// What the agent does for a call of the tool `name` with the given JSON
/// arguments, given whether a `path` argument is absolute on this platform.
pub open spec fn spec_tool_action(
    name: Seq<char>,
    arguments: Seq<char>,
    cwd: Seq<char>,
    path_is_absolute: bool,
) -> ToolActionView {
    spec_action_for_arg(name, tool_arg(name, arguments), cwd, path_is_absolute)
}

/// Whether the absoluteness answer for a call agrees with what
/// `Path::is_absolute` can answer: it is `true` only for a `read_file` call
/// whose path has the shape of an absolute path.
pub open spec fn abs_answer_fits(name: Seq<char>, arguments: Seq<char>, path_is_absolute: bool) -> bool {
    path_is_absolute ==> (name == "read_file"@ && match json_string_field(arguments, "path"@) {
        Some(p) => may_be_absolute(p),
        None => false,
    })
}

/// The file a `read_file` call names, given whether its path is absolute.
pub fn resolve_tool_path(path: String, cwd: &str, path_is_absolute: bool) -> (r: String)
    ensures
        r@ == spec_resolve_tool_path(path@, cwd@, path_is_absolute),
{
    if path_is_absolute {
        path
    } else {
        String::from_str(cwd).concat("/").concat(path.as_str())
    }
}

/// What to do for a call of the tool `name` once its argument has been read
/// from the JSON arguments and, for a path, whether the path is absolute.
pub fn action_for_arg(name: &str, arg: Option<String>, cwd: &str, path_is_absolute: bool) -> (r: ToolAction)
    ensures
        r@ == spec_action_for_arg(name@, opt_view(arg), cwd@, path_is_absolute),
{
    if str_eq(name, "run_shell_command") {
        match arg {
            Some(c) => ToolAction::RunShellCommand { command: c },
            None => ToolAction::Respond { text: String::from_str("Error: missing 'command' argument") },
        }
    } else if str_eq(name, "read_file") {
        match arg {
            Some(p) => ToolAction::ReadFile { path: resolve_tool_path(p, cwd, path_is_absolute) },
            None => ToolAction::Respond { text: String::from_str("Error: missing 'path' argument") },
        }
    } else {
        ToolAction::Respond { text: String::from_str("Unknown tool: ").concat(name) }
    }
}

/// Decides what to do for a tool call made in the working directory `cwd`:
/// reads the tool's argument from the call's JSON arguments and, for a file
/// path, asks the platform whether it is absolute.
pub fn plan_tool_call(tc: &ToolCallInfo, cwd: &str) -> (r: ToolAction)
    ensures
        exists|abs: bool|
            abs_answer_fits(tc.function.name@, tc.function.arguments@, abs) && r@ == spec_tool_action(
                tc.function.name@,
                tc.function.arguments@,
                cwd@,
                abs,
            ),
{
    let name = tc.function.name.as_str();
    let args = tc.function.arguments.as_str();
    proof {
        reveal_strlit("run_shell_command");
        reveal_strlit("read_file");
        assert("run_shell_command"@.len() != "read_file"@.len());
    }
    let is_read = str_eq(name, "read_file");
    let arg = if str_eq(name, "run_shell_command") {
        json_string_arg(args, "command")
    } else if is_read {
        json_string_arg(args, "path")
    } else {
        None
    };
    let abs = match &arg {
        Some(p) => is_read && path_is_absolute(p.as_str()),
        None => false,
    };
    let r = action_for_arg(name, arg, cwd, abs);
    assert(abs_answer_fits(name@, args@, abs));
    assert(r@ == spec_tool_action(name@, args@, cwd@, abs));
    r
}

/// The most bytes of a tool's output that are reported back to the model.
pub open spec fn output_limit() -> int {
    8192
}

/// Whether cutting `s` after `output_limit()` bytes, as the reporting does
/// when it is longer, would cut through a character (where slicing panics).
pub open spec fn cut_splits_char(s: Seq<char>) -> bool {
    encode_utf8(s).len() > output_limit() && !is_char_boundary(encode_utf8(s), output_limit())
}

/// The first `output_limit()` bytes of `s`, as text.
pub open spec fn head_of(s: Seq<char>) -> Seq<char> {
    decode_utf8(encode_utf8(s).subrange(0, output_limit()))
}

/// What a `read_file` call reports of the file's contents: the contents, or
/// their first 8192 bytes after a note when they are longer.
pub open spec fn spec_file_report(content: Seq<char>) -> Seq<char> {
    if encode_utf8(content).len() > output_limit() {
        "[truncated to 8192 chars]\n"@ + head_of(content)
    } else {
        content
    }
}

fn head_bytes(s: &str) -> (r: &str)
    requires
        encode_utf8(s@).len() > output_limit(),
        !cut_splits_char(s@),
    ensures
        r@ == head_of(s@),
{
    let (head, _) = s.split_at(8192);
    proof {
        encode_utf8_decode_utf8(head@);
    }
    head
}

/// Reports a file's contents to the model.
pub fn report_file_contents(content: String) -> (r: String)
    requires
        !cut_splits_char(content@),
    ensures
        r@ == spec_file_report(content@),
{
    if content.as_str().as_bytes().len() > 8192 {
        String::from_str("[truncated to 8192 chars]\n").concat(head_bytes(content.as_str()))
    } else {
        content
    }
}

/// A command's output and error output, joined: the output, then `[stderr] `
/// and the error output on a line of its own, or `(no output)` when both are empty.
pub open spec fn spec_joined_output(out: Seq<char>, err: Seq<char>) -> Seq<char> {
    let with_err = if err.len() > 0 {
        if out.len() > 0 {
            out + "\n"@ + "[stderr] "@ + err
        } else {
            "[stderr] "@ + err
        }
    } else {
        out
    };
    if with_err.len() == 0 {
        "(no output)"@
    } else {
        with_err
    }
}

/// What a `run_shell_command` call reports: the joined output, cut after its
/// first 8192 bytes with a note when it is longer.
pub open spec fn spec_command_report(joined: Seq<char>) -> Seq<char> {
    if encode_utf8(joined).len() > output_limit() {
        head_of(joined) + "\n[output truncated]"@
    } else {
        joined
    }
}

/// Joins a command's decoded output and error output.
pub fn join_command_output(out: String, err: String) -> (r: String)
    ensures
        r@ == spec_joined_output(out@, err@),
{
    let mut result = String::new();
    if out.as_str().unicode_len() > 0 {
        result.append(out.as_str());
    }
    if err.as_str().unicode_len() > 0 {
        if result.as_str().unicode_len() > 0 {
            result.append("\n");
        }
        result.append("[stderr] ");
        result.append(err.as_str());
    }
    if result.as_str().unicode_len() == 0 {
        result = String::from_str("(no output)");
    }
    proof {
        if err@.len() > 0 && out@.len() > 0 {
            assert(out@ + "\n"@ + "[stderr] "@ + err@ =~= Seq::<char>::empty() + out@ + "\n"@ + "[stderr] "@ + err@);
        }
    }
    assert(result@ =~= spec_joined_output(out@, err@));
    result
}

/// Cuts a command's joined output to what is reported.
pub fn cut_command_output(joined: String) -> (r: String)
    requires
        !cut_splits_char(joined@),
    ensures
        r@ == spec_command_report(joined@),
{
    if joined.as_str().as_bytes().len() > 8192 {
        String::from_str(head_bytes(joined.as_str())).concat("\n[output truncated]")
    } else {
        joined
    }
}

/// Reports a finished command's raw output and error output to the model;
/// `None` where cutting the text after 8192 bytes would split a character.
pub fn report_command_output(stdout: &[u8], stderr: &[u8]) -> (r: Option<String>)
    ensures
        ({
            let joined = spec_joined_output(lossy_text(stdout@), lossy_text(stderr@));
            &&& r is None <==> cut_splits_char(joined)
            &&& r matches Some(s) ==> s@ == spec_command_report(joined)
        }),
{
    let out = string_from_utf8_lossy(stdout);
    let err = string_from_utf8_lossy(stderr);
    let joined = join_command_output(out, err);
    if joined.as_str().as_bytes().len() > 8192 && !joined.as_str().is_char_boundary(8192) {
        return None;
    }
    Some(cut_command_output(joined))
}

} // verus!
