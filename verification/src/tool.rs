//! What the tools share: the result of a call, the commands they run and what
//! a run gives back, and the first step of every call.

use vstd::prelude::*;
use crate::text::{i32_to_decimal, signed_decimal};

verus! {

/// The answer of a tool call.
pub struct ToolResult {
    pub success: bool,
    pub output: String,
    pub error: Option<String>,
}

/// The answer of a tool call, as text.
pub struct ReplyView {
    pub success: bool,
    pub output: Seq<char>,
    pub error: Option<Seq<char>>,
}

impl ReplyView {
    /// An answer reports an error exactly when it reports no success.
    pub open spec fn wf(self) -> bool {
        self.success == self.error.is_none()
    }
}

pub open spec fn opt_view(o: Option<String>) -> Option<Seq<char>> {
    match o {
        Some(s) => Some(s@),
        None => None,
    }
}

impl View for ToolResult {
    type V = ReplyView;

    open spec fn view(&self) -> ReplyView {
        ReplyView { success: self.success, output: self.output@, error: opt_view(self.error) }
    }
}

/// A successful answer with the given output.
pub open spec fn reply_ok(output: Seq<char>) -> ReplyView {
    ReplyView { success: true, output, error: None }
}

/// A failed answer with the given output and error.
pub open spec fn reply_err(output: Seq<char>, error: Seq<char>) -> ReplyView {
    ReplyView { success: false, output, error: Some(error) }
}

pub fn ok_result(output: String) -> (r: ToolResult)
    ensures
        r@ == reply_ok(output@),
{
    ToolResult { success: true, output, error: None }
}

pub fn err_result(output: String, error: String) -> (r: ToolResult)
    ensures
        r@ == reply_err(output@, error@),
{
    ToolResult { success: false, output, error: Some(error) }
}

/// A failed answer with empty output.
pub fn err_only(error: String) -> (r: ToolResult)
    ensures
        r@ == reply_err(Seq::empty(), error@),
{
    err_result(String::new(), error)
}

/// A program and its arguments.
pub struct CommandSpec {
    pub program: String,
    pub args: Vec<String>,
}

pub struct CommandView {
    pub program: Seq<char>,
    pub args: Seq<Seq<char>>,
}

impl View for CommandSpec {
    type V = CommandView;

    open spec fn view(&self) -> CommandView {
        CommandView { program: self.program@, args: self.args@.map_values(|a: String| a@) }
    }
}

/// How a command run ended.
pub enum CommandOutcome {
    /// The command could not be started; the text describes why.
    SpawnFailed(String),
    /// The command ran and exited.
    Exited { success: bool, code: Option<i32>, stdout: String, stderr: String },
}

pub enum OutcomeView {
    SpawnFailed(Seq<char>),
    Exited { success: bool, code: Option<i32>, stdout: Seq<char>, stderr: Seq<char> },
}

impl View for CommandOutcome {
    type V = OutcomeView;

    open spec fn view(&self) -> OutcomeView {
        match self {
            CommandOutcome::SpawnFailed(e) => OutcomeView::SpawnFailed(e@),
            CommandOutcome::Exited { success, code, stdout, stderr } => OutcomeView::Exited {
                success: *success,
                code: *code,
                stdout: stdout@,
                stderr: stderr@,
            },
        }
    }
}

/// The exit code as the tools print it: its decimal text, or `unknown`.
pub open spec fn code_text(code: Option<i32>) -> Seq<char> {
    match code {
        Some(c) => signed_decimal(c as int),
        None => "unknown"@,
    }
}

pub fn exit_code_text(code: Option<i32>) -> (r: String)
    ensures
        r@ == code_text(code),
{
    match code {
        Some(c) => i32_to_decimal(c),
        None => String::from_str("unknown"),
    }
}

/// What a policy answered about letting a tool act.
pub open spec fn verdict_view(v: Result<(), String>) -> Result<(), Seq<char>> {
    match v {
        Ok(()) => Ok(()),
        Err(e) => Err(e@),
    }
}

/// The first step of a call, taken before anything else is looked at.
pub enum Opening {
    /// The call fails with this message.
    Fail(String),
    /// The call answers at once.
    Reply(ToolResult),
    /// The security policy must first allow the named tool to act.
    CheckPolicy(String),
}

pub enum OpeningView {
    Fail(Seq<char>),
    Reply(ReplyView),
    CheckPolicy(Seq<char>),
}

impl View for Opening {
    type V = OpeningView;

    open spec fn view(&self) -> OpeningView {
        match self {
            Opening::Fail(m) => OpeningView::Fail(m@),
            Opening::Reply(r) => OpeningView::Reply(r@),
            Opening::CheckPolicy(t) => OpeningView::CheckPolicy(t@),
        }
    }
}

pub open spec fn opening_spec(
    request: Option<Seq<char>>,
    missing: Seq<char>,
    help: Seq<char>,
    tool: Seq<char>,
) -> OpeningView {
    match request {
        None => OpeningView::Fail(missing),
        Some(r) => if r == "help"@ {
            OpeningView::Reply(reply_ok(help))
        } else {
            OpeningView::CheckPolicy(tool)
        },
    }
}

/// The first step fails exactly when the request is absent, answers at once
/// (successfully, with the help text) exactly when it is `help`, and in every
/// other case asks the policy about the tool.
pub proof fn lemma_opening_asks_policy_unless_help(
    request: Option<Seq<char>>,
    missing: Seq<char>,
    help: Seq<char>,
    tool: Seq<char>,
)
    ensures
        opening_spec(request, missing, help, tool) == OpeningView::Fail(missing) <==> request is None,
        opening_spec(request, missing, help, tool) == OpeningView::Reply(
            ReplyView { success: true, output: help, error: None },
        ) <==> request == Some("help"@),
        opening_spec(request, missing, help, tool) == OpeningView::CheckPolicy(tool) <==> (
        request matches Some(r) && r != "help"@),
{
}

/// Whether the text of `s` is `lit`.
pub fn text_is(s: &String, lit: &str) -> (r: bool)
    ensures
        r == (s@ == lit@),
{
    let l = String::from_str(lit);
    *s == l
}

/// Whether the text of `s` is `help`.
pub fn is_help(s: &String) -> (r: bool)
    ensures
        r == (s@ == "help"@),
{
    let h = String::from_str("help");
    *s == h
}

/// One string parameter of a tool: its name, its description and, where it
/// takes one of a fixed set of values, those values.
pub struct ParamSpec {
    pub name: String,
    pub description: String,
    pub choices: Option<Vec<String>>,
}

/// The parameters a tool takes (all strings) and the names of those required.
pub struct ParamSchema {
    pub properties: Vec<ParamSpec>,
    pub required: Vec<String>,
}

pub struct ParamView {
    pub name: Seq<char>,
    pub description: Seq<char>,
    pub choices: Option<Seq<Seq<char>>>,
}

pub struct SchemaView {
    pub properties: Seq<ParamView>,
    pub required: Seq<Seq<char>>,
}

pub open spec fn texts_view(v: Vec<String>) -> Seq<Seq<char>> {
    v@.map_values(|s: String| s@)
}

impl View for ParamSpec {
    type V = ParamView;

    open spec fn view(&self) -> ParamView {
        ParamView {
            name: self.name@,
            description: self.description@,
            choices: match self.choices {
                Some(c) => Some(texts_view(c)),
                None => None,
            },
        }
    }
}

impl View for ParamSchema {
    type V = SchemaView;

    open spec fn view(&self) -> SchemaView {
        SchemaView {
            properties: self.properties@.map_values(|p: ParamSpec| p@),
            required: texts_view(self.required),
        }
    }
}

/// The given texts as owned strings.
pub fn texts(items: &[&str]) -> (r: Vec<String>)
    ensures
        texts_view(r) == items@.map_values(|a: &str| a@),
{
    let mut v: Vec<String> = Vec::new();
    let mut i: usize = 0;
    while i < items.len()
        invariant
            i <= items@.len(),
            texts_view(v) == items@.take(i as int).map_values(|a: &str| a@),
        decreases items@.len() - i,
    {
        v.push(String::from_str(items[i]));
        assert(items@.take(i + 1).map_values(|a: &str| a@) =~= items@.take(i as int).map_values(
            |a: &str| a@,
        ).push(items@[i as int]@));
        assert(texts_view(v) =~= items@.take(i + 1).map_values(|a: &str| a@));
        i = i + 1;
    }
    assert(items@.take(items@.len() as int) =~= items@);
    v
}

/// A program and its arguments, as owned strings.
pub fn command_of(program: &str, args: &[&str]) -> (c: CommandSpec)
    ensures
        c@.program == program@,
        c@.args == args@.map_values(|a: &str| a@),
{
    CommandSpec { program: String::from_str(program), args: texts(args) }
}

pub fn param(name: &str, description: &str, choices: Option<&[&str]>) -> (p: ParamSpec)
    ensures
        p@.name == name@,
        p@.description == description@,
        p@.choices == (match choices {
            Some(c) => Some(c@.map_values(|a: &str| a@)),
            None => None,
        }),
{
    let choices = match choices {
        Some(c) => Some(texts(c)),
        None => None,
    };
    ParamSpec { name: String::from_str(name), description: String::from_str(description), choices }
}

} // verus!
