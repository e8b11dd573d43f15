//! Requests from Vim, the commands they carry, and what is sent back.

use vstd::prelude::*;
use crate::json::{Json, JsonValue};

verus! {

/// A line in a source file.
#[derive(Clone, Debug, PartialEq, Eq)]
pub struct FileLocation {
    name: String,
    line_num: u64,
}

/// The model of a file location: the file's name and the line number.
pub struct FileLocationView {
    pub name: Seq<char>,
    pub line_num: u64,
}

impl View for FileLocation {
    type V = FileLocationView;

    closed spec fn view(&self) -> FileLocationView {
        FileLocationView { name: self.name@, line_num: self.line_num }
    }
}

impl FileLocation {
    /// The location of line `line_num` of file `name`.
    pub fn new(name: String, line_num: u64) -> (r: FileLocation)
        ensures
            r@ == (FileLocationView { name: name@, line_num }),
    {
        FileLocation { name, line_num }
    }

    /// The file's name.
    pub fn name(&self) -> (r: &str)
        ensures
            r@ == self@.name,
    {
        self.name.as_str()
    }

    /// The line number.
    pub fn line_num(&self) -> (r: u64)
        ensures
            r == self@.line_num,
    {
        self.line_num
    }
}

/// A variable, by name.
#[derive(Clone, Debug, PartialEq, Eq)]
pub struct Variable {
    name: String,
}

impl View for Variable {
    type V = Seq<char>;

    closed spec fn view(&self) -> Seq<char> {
        self.name@
    }
}

impl Variable {
    /// The variable called `name`.
    pub fn new(name: String) -> (r: Variable)
        ensures
            r@ == name@,
    {
        Variable { name }
    }

    /// The variable's name.
    pub fn name(&self) -> (r: &str)
        ensures
            r@ == self@,
    {
        self.name.as_str()
    }
}

/// A command for the debugger.
#[derive(Clone, Debug, PartialEq)]
pub enum DebuggerCmd {
    Run,
    Breakpoint(FileLocation),
    Unbreakpoint(FileLocation),
    /// Step in, this many times.
    StepIn(u64),
    /// Step over, this many times.
    StepOver(u64),
    Continue,
    Print(Variable),
}

/// The model of a debugger command.
pub enum DebuggerCmdView {
    Run,
    Breakpoint(FileLocationView),
    Unbreakpoint(FileLocationView),
    StepIn(u64),
    StepOver(u64),
    Continue,
    Print(Seq<char>),
}

impl View for DebuggerCmd {
    type V = DebuggerCmdView;

    open spec fn view(&self) -> DebuggerCmdView {
        match self {
            DebuggerCmd::Run => DebuggerCmdView::Run,
            DebuggerCmd::Breakpoint(fl) => DebuggerCmdView::Breakpoint(fl@),
            DebuggerCmd::Unbreakpoint(fl) => DebuggerCmdView::Unbreakpoint(fl@),
            DebuggerCmd::StepIn(n) => DebuggerCmdView::StepIn(*n),
            DebuggerCmd::StepOver(n) => DebuggerCmdView::StepOver(*n),
            DebuggerCmd::Continue => DebuggerCmdView::Continue,
            DebuggerCmd::Print(v) => DebuggerCmdView::Print(v@),
        }
    }
}

/// A command for PADRE itself.
#[derive(Clone, Debug, PartialEq)]
pub enum PadreCmd {
    Ping,
    Pings,
    GetConfig(String),
    SetConfig(String, i64),
}

/// The model of a PADRE command.
pub enum PadreCmdView {
    Ping,
    Pings,
    GetConfig(Seq<char>),
    SetConfig(Seq<char>, i64),
}

impl View for PadreCmd {
    type V = PadreCmdView;

    open spec fn view(&self) -> PadreCmdView {
        match self {
            PadreCmd::Ping => PadreCmdView::Ping,
            PadreCmd::Pings => PadreCmdView::Pings,
            PadreCmd::GetConfig(k) => PadreCmdView::GetConfig(k@),
            PadreCmd::SetConfig(k, v) => PadreCmdView::SetConfig(k@, *v),
        }
    }
}

/// The command of a request: for PADRE or for the debugger.
#[derive(Clone, Debug, PartialEq)]
pub enum RequestCmd {
    PadreCmd(PadreCmd),
    DebuggerCmd(DebuggerCmd),
}

/// The model of a request's command.
pub enum RequestCmdView {
    Padre(PadreCmdView),
    Debugger(DebuggerCmdView),
}

impl View for RequestCmd {
    type V = RequestCmdView;

    open spec fn view(&self) -> RequestCmdView {
        match self {
            RequestCmd::PadreCmd(c) => RequestCmdView::Padre(c@),
            RequestCmd::DebuggerCmd(c) => RequestCmdView::Debugger(c@),
        }
    }
}

/// A request: the id to answer to and the command.
#[derive(Clone, Debug, PartialEq)]
pub struct PadreRequest {
    id: u64,
    cmd: RequestCmd,
}

/// The model of a request.
pub struct PadreRequestView {
    pub id: u64,
    pub cmd: RequestCmdView,
}

impl View for PadreRequest {
    type V = PadreRequestView;

    closed spec fn view(&self) -> PadreRequestView {
        PadreRequestView { id: self.id, cmd: self.cmd@ }
    }
}

impl PadreRequest {
    /// The request `id` for command `cmd`.
    pub fn new(id: u64, cmd: RequestCmd) -> (r: PadreRequest)
        ensures
            r@ == (PadreRequestView { id, cmd: cmd@ }),
    {
        PadreRequest { id, cmd }
    }

    /// The id of the request.
    pub fn id(&self) -> (r: u64)
        ensures
            r == self@.id,
    {
        self.id
    }

    /// The command of the request.
    pub fn cmd(&self) -> (r: &RequestCmd)
        ensures
            r@ == self@.cmd,
    {
        &self.cmd
    }
}

/// The answer to request `id`.
#[derive(Debug)]
pub struct PadreResponse {
    id: u64,
    resp: JsonValue,
}

impl View for PadreResponse {
    type V = (u64, Json);

    closed spec fn view(&self) -> (u64, Json) {
        (self.id, self.resp@)
    }
}

impl PadreResponse {
    /// The answer `resp` to request `id`.
    pub fn new(id: u64, resp: JsonValue) -> (r: PadreResponse)
        ensures
            r@ == (id, resp@),
    {
        PadreResponse { id, resp }
    }

    /// The id of the request answered.
    pub fn id(&self) -> (r: u64)
        ensures
            r == self@.0,
    {
        self.id
    }

    /// The answer.
    pub fn resp(&self) -> (r: &JsonValue)
        ensures
            r@ == self@.1,
    {
        &self.resp
    }

    /// The id and the answer, taken apart.
    pub fn into_parts(self) -> (r: (u64, JsonValue))
        ensures
            (r.0, r.1@) == self@,
    {
        (self.id, self.resp)
    }
}

/// A notification to Vim: the Vim function to call and its arguments.
#[derive(Debug)]
pub struct Notification {
    cmd: String,
    args: Vec<JsonValue>,
}

impl View for Notification {
    type V = (Seq<char>, Seq<Json>);

    closed spec fn view(&self) -> (Seq<char>, Seq<Json>) {
        (self.cmd@, self.args@.map_values(|a: JsonValue| a@))
    }
}

impl Notification {
    /// A call of the Vim function `cmd` with arguments `args`.
    pub fn new(cmd: String, args: Vec<JsonValue>) -> (r: Notification)
        ensures
            r@ == (cmd@, args@.map_values(|a: JsonValue| a@)),
    {
        Notification { cmd, args }
    }

    /// The Vim function to call.
    pub fn cmd(&self) -> (r: &str)
        ensures
            r@ == self@.0,
    {
        self.cmd.as_str()
    }

    /// The arguments.
    pub fn args(&self) -> (r: &Vec<JsonValue>)
        ensures
            r@.map_values(|a: JsonValue| a@) == self@.1,
    {
        &self.args
    }

    /// The Vim function and the arguments, taken apart.
    pub fn into_parts(self) -> (r: (String, Vec<JsonValue>))
        ensures
            (r.0@, r.1@.map_values(|a: JsonValue| a@)) == self@,
    {
        (self.cmd, self.args)
    }
}

/// What is sent to Vim: an answer to a request, or a notification.
#[derive(Debug)]
pub enum PadreSend {
    Response(PadreResponse),
    Notification(Notification),
}

/// The model of what is sent to Vim.
pub enum PadreSendView {
    Response(u64, Json),
    Notification(Seq<char>, Seq<Json>),
}

impl View for PadreSend {
    type V = PadreSendView;

    open spec fn view(&self) -> PadreSendView {
        match self {
            PadreSend::Response(r) => PadreSendView::Response(r@.0, r@.1),
            PadreSend::Notification(n) => PadreSendView::Notification(n@.0, n@.1),
        }
    }
}

} // verus!
