//! The messages of a running transfer, and how the tools are started.

use crate::binary64::Magnitude;
use crate::messages;
use crate::sendme;
use crate::text;
use std::path::PathBuf;
use vstd::prelude::*;

verus! {

/// A path of the operating system, carried through unread.
#[verifier::external_type_specification]
#[verifier::external_body]
pub struct ExPathBuf(PathBuf);

/// What a running transfer reports.
pub enum TransferMsg {
    Output(String),
    /// The part that is done, in single precision.
    Progress(Magnitude),
    Code(String),
    Completed,
    Error(String),
    Started,
    PeerDisconnected,
    WaitingForReceiver,
    SenderTransferActivity,
    ActiveTransfers(usize),
}

pub enum MsgModel {
    Output(Seq<char>),
    Progress(nat),
    Code(Seq<char>),
    Completed,
    Error(Seq<char>),
    Started,
    PeerDisconnected,
    WaitingForReceiver,
    SenderTransferActivity,
    ActiveTransfers(usize),
}

impl View for TransferMsg {
    type V = MsgModel;

    open spec fn view(&self) -> MsgModel {
        match *self {
            TransferMsg::Output(s) => MsgModel::Output(s@),
            TransferMsg::Progress(p) => MsgModel::Progress(p@),
            TransferMsg::Code(s) => MsgModel::Code(s@),
            TransferMsg::Completed => MsgModel::Completed,
            TransferMsg::Error(s) => MsgModel::Error(s@),
            TransferMsg::Started => MsgModel::Started,
            TransferMsg::PeerDisconnected => MsgModel::PeerDisconnected,
            TransferMsg::WaitingForReceiver => MsgModel::WaitingForReceiver,
            TransferMsg::SenderTransferActivity => MsgModel::SenderTransferActivity,
            TransferMsg::ActiveTransfers(n) => MsgModel::ActiveTransfers(n),
        }
    }
}

pub open spec fn msgs(v: Seq<TransferMsg>) -> Seq<MsgModel> {
    v.map_values(|m: TransferMsg| m@)
}

/// Appends a message.
pub fn say(out: &mut Vec<TransferMsg>, m: TransferMsg)
    ensures
        msgs(final(out)@) == msgs(old(out)@).push(m@),
{
    out.push(m);
    assert(msgs(out@) =~= msgs(old(out)@).push(m@));
}

/// A string that reads `s`.
pub fn owned(s: &str) -> (r: String)
    ensures
        r@ == s@,
{
    s.to_owned()
}

// ── Starting the tools ──

pub struct CrocSendOptions {
    pub paths: Vec<PathBuf>,
    pub custom_code: Option<String>,
    pub text_mode: bool,
    pub text_value: Option<String>,
}

pub struct CrocReceiveOptions {
    pub code: String,
    pub output_dir: Option<PathBuf>,
}

pub struct SendmeSendOptions {
    pub paths: Vec<PathBuf>,
    pub one_shot: bool,
    pub blob_dir: Option<PathBuf>,
}

pub struct SendmeReceiveOptions {
    pub ticket: String,
    pub output_dir: Option<PathBuf>,
    pub blob_dir: Option<PathBuf>,
    pub overwrite: bool,
}

/// One argument of a command.
pub enum Argument {
    Text(String),
    Path(PathBuf),
}

pub enum ArgumentModel {
    Text(Seq<char>),
    Path(PathBuf),
}

impl View for Argument {
    type V = ArgumentModel;

    open spec fn view(&self) -> ArgumentModel {
        match *self {
            Argument::Text(s) => ArgumentModel::Text(s@),
            Argument::Path(p) => ArgumentModel::Path(p),
        }
    }
}

pub open spec fn arguments(v: Seq<Argument>) -> Seq<ArgumentModel> {
    v.map_values(|a: Argument| a@)
}

/// A command: its arguments, and the secret that croc takes from its environment.
pub struct CrocCommand {
    pub arguments: Vec<Argument>,
    pub secret: Option<String>,
}

fn argue(out: &mut Vec<Argument>, a: Argument)
    ensures
        arguments(final(out)@) == arguments(old(out)@).push(a@),
{
    out.push(a);
    assert(arguments(out@) =~= arguments(old(out)@).push(a@));
}

/// The arguments of `croc send`: the flag that answers every question stands
/// before the subcommand; then the text, or the paths.
pub open spec fn croc_send_arguments(
    paths: Seq<PathBuf>,
    text_mode: bool,
    text_value: Option<Seq<char>>,
) -> Seq<ArgumentModel> {
    let head = seq![ArgumentModel::Text("--yes"@), ArgumentModel::Text("send"@)];
    if text_mode {
        match text_value {
            Some(t) => head.push(ArgumentModel::Text("--text"@)).push(ArgumentModel::Text(t)),
            None => head.push(ArgumentModel::Text("--text"@)),
        }
    } else {
        head + paths.map_values(|p: PathBuf| ArgumentModel::Path(p))
    }
}

/// The command that sends with croc. A custom code goes to croc as its secret.
pub fn croc_send_command(opts: CrocSendOptions) -> (r: CrocCommand)
    ensures
        arguments(r.arguments@) == croc_send_arguments(
            opts.paths@,
            opts.text_mode,
            sendme::string_view(opts.text_value),
        ),
        r.secret == opts.custom_code,
{
    let mut out: Vec<Argument> = Vec::new();
    assert(arguments(out@) =~= Seq::empty());
    argue(&mut out, Argument::Text(owned("--yes")));
    argue(&mut out, Argument::Text(owned("send")));
    let ghost head = arguments(out@);
    assert(head =~= seq![ArgumentModel::Text("--yes"@), ArgumentModel::Text("send"@)]);
    if opts.text_mode {
        argue(&mut out, Argument::Text(owned("--text")));
        match opts.text_value {
            Some(t) => {
                argue(&mut out, Argument::Text(t));
            },
            None => {},
        }
    } else {
        let ghost all = opts.paths@;
        let mut left: Vec<PathBuf> = opts.paths;
        let mut rest: Vec<Argument> = Vec::new();
        // The paths leave from the end, so they are collected backwards first.
        while left.len() > 0
            invariant
                left@.len() <= all.len(),
                left@ == all.take(left@.len() as int),
                rest@.len() == all.len() - left@.len(),
                forall|i: int|
                    0 <= i < rest@.len() ==> (#[trigger] rest@[i])@ == ArgumentModel::Path(
                        all[all.len() - 1 - i],
                    ),
            decreases left@.len(),
        {
            let ghost n = left@.len();
            match left.pop() {
                Some(p) => {
                    rest.push(Argument::Path(p));
                },
                None => {},
            }
            assert(left@ =~= all.take(n - 1));
        }
        while rest.len() > 0
            invariant
                rest@.len() <= all.len(),
                forall|i: int|
                    0 <= i < rest@.len() ==> (#[trigger] rest@[i])@ == ArgumentModel::Path(
                        all[all.len() - 1 - i],
                    ),
                arguments(out@) == head + all.take(all.len() - rest@.len()).map_values(
                    |p: PathBuf| ArgumentModel::Path(p),
                ),
            decreases rest@.len(),
        {
            let ghost n = rest@.len();
            let ghost before = arguments(out@);
            assert(rest@[n - 1]@ == ArgumentModel::Path(all[all.len() - n]));
            match rest.pop() {
                Some(a) => {
                    argue(&mut out, a);
                },
                None => {},
            }
            assert(arguments(out@) =~= head + all.take(all.len() - (n - 1)).map_values(
                |p: PathBuf| ArgumentModel::Path(p),
            ));
        }
        assert(all.take(all.len() as int) =~= all);
    }
    CrocCommand { arguments: out, secret: opts.custom_code }
}

/// The arguments of a receiving croc.
pub open spec fn croc_receive_arguments(output_dir: Option<PathBuf>) -> Seq<ArgumentModel> {
    match output_dir {
        Some(dir) => seq![
            ArgumentModel::Text("--yes"@),
            ArgumentModel::Text("--out"@),
            ArgumentModel::Path(dir),
        ],
        None => seq![ArgumentModel::Text("--yes"@)],
    }
}

/// The flag stands at `i`, and its value directly behind it.
pub open spec fn is_set(args: Seq<ArgumentModel>, i: int, flag: Seq<char>, value: ArgumentModel) -> bool {
    &&& 0 <= i
    &&& i + 1 < args.len()
    &&& args[i] == ArgumentModel::Text(flag)
    &&& args[i + 1] == value
}

/// croc receives without asking, into the folder that was chosen, which directly
/// follows the flag for it; where none was chosen, no folder is named. A code is never
/// among the arguments.
pub proof fn law_croc_receives_into_the_chosen_folder(output_dir: Option<PathBuf>)
    ensures
        ({
            let args = croc_receive_arguments(output_dir);
            &&& args.len() > 0
            &&& args[0] == ArgumentModel::Text("--yes"@)
            &&& match output_dir {
                Some(dir) => args.len() == 3 && is_set(args, 1, "--out"@, ArgumentModel::Path(dir)),
                None => args.len() == 1,
            }
        }),
{
}

/// croc sends without asking, which is said before the subcommand. It is handed every
/// path in its order, or the text directly behind the flag for it, and nothing else.
pub proof fn law_croc_sends_what_was_chosen(
    paths: Seq<PathBuf>,
    text_mode: bool,
    text_value: Option<Seq<char>>,
)
    ensures
        ({
            let args = croc_send_arguments(paths, text_mode, text_value);
            &&& args.len() >= 2
            &&& args[0] == ArgumentModel::Text("--yes"@)
            &&& args[1] == ArgumentModel::Text("send"@)
            &&& !text_mode ==> args.len() == paths.len() + 2 && forall|i: int|
                0 <= i < paths.len() ==> args[i + 2] == ArgumentModel::Path(#[trigger] paths[i])
            &&& text_mode && text_value is Some ==> args.len() == 4 && is_set(
                args,
                2,
                "--text"@,
                ArgumentModel::Text(text_value->0),
            )
            &&& text_mode && text_value is None ==> args.len() == 3 && args[2]
                == ArgumentModel::Text("--text"@)
        }),
{
    let args = croc_send_arguments(paths, text_mode, text_value);
    assert forall|i: int| !text_mode && 0 <= i < paths.len() implies args[i + 2]
        == ArgumentModel::Path(#[trigger] paths[i]) by {}
}

/// The command that receives with croc. The code goes to croc as its secret.
pub fn croc_receive_command(opts: CrocReceiveOptions) -> (r: CrocCommand)
    ensures
        arguments(r.arguments@) == croc_receive_arguments(opts.output_dir),
        r.secret == Some(opts.code),
{
    let mut out: Vec<Argument> = Vec::new();
    assert(arguments(out@) =~= Seq::empty());
    argue(&mut out, Argument::Text(owned("--yes")));
    match opts.output_dir {
        Some(dir) => {
            argue(&mut out, Argument::Text(owned("--out")));
            argue(&mut out, Argument::Path(dir));
            assert(arguments(out@) =~= croc_receive_arguments(opts.output_dir));
        },
        None => {
            assert(arguments(out@) =~= croc_receive_arguments(opts.output_dir));
        },
    }
    CrocCommand { arguments: out, secret: Some(opts.code) }
}

/// How a croc process ended: `Ok` with the status as text and whether it is a
/// success, `Err` with the error of waiting for it.
pub enum ProcessEnd {
    Success,
    Exit(String),
    WaitFailed(String),
}

/// The last message of a croc process.
pub open spec fn croc_end_message(cancelled: bool, end: ProcessEnd) -> MsgModel {
    if cancelled {
        MsgModel::Error("Transfer cancelled"@)
    } else {
        match end {
            ProcessEnd::Success => MsgModel::Completed,
            ProcessEnd::Exit(status) => MsgModel::Error("Process exited with code: "@ + status@),
            ProcessEnd::WaitFailed(e) => MsgModel::Error("Process error: "@ + e@),
        }
    }
}

/// A process that was cancelled says so, however it ended. Otherwise only one that
/// succeeded completes its transfer, and the reason of any other is passed on whole.
pub proof fn law_only_success_completes(cancelled: bool, end: ProcessEnd)
    ensures
        croc_end_message(cancelled, end) is Completed <==> !cancelled && end is Success,
        croc_end_message(cancelled, end) is Completed || croc_end_message(cancelled, end) is Error,
        cancelled ==> croc_end_message(cancelled, end) == MsgModel::Error("Transfer cancelled"@),
        !cancelled ==> (end matches ProcessEnd::Exit(status) ==> croc_end_message(cancelled, end)
            == MsgModel::Error("Process exited with code: "@ + status@)),
        !cancelled ==> (end matches ProcessEnd::WaitFailed(e) ==> croc_end_message(cancelled, end)
            == MsgModel::Error("Process error: "@ + e@)),
{
}

/// The last message of a croc process. A cancelled one reports that and nothing else.
pub fn croc_end(cancelled: bool, end: ProcessEnd) -> (r: TransferMsg)
    ensures
        r@ == croc_end_message(cancelled, end),
{
    if cancelled {
        return TransferMsg::Error(owned("Transfer cancelled"));
    }
    match end {
        ProcessEnd::Success => TransferMsg::Completed,
        ProcessEnd::Exit(status) => TransferMsg::Error(
            text::join2("Process exited with code: ", status.as_str()),
        ),
        ProcessEnd::WaitFailed(e) => TransferMsg::Error(text::join2("Process error: ", e.as_str())),
    }
}

/// The messages for a line from croc, and whether the transfer is to be cancelled.
pub open spec fn croc_line_messages(line: messages::CrocLineModel) -> (Seq<MsgModel>, bool) {
    match line {
        messages::CrocLineModel::Nothing => (Seq::empty(), false),
        messages::CrocLineModel::Conflict => (
            seq![MsgModel::Error("conflict-detected"@)],
            true,
        ),
        messages::CrocLineModel::Line { code: Some(code), text } => (
            seq![MsgModel::Code(code), MsgModel::Output(text)],
            false,
        ),
        messages::CrocLineModel::Line { code: None, text } => (
            seq![MsgModel::Output(text)],
            false,
        ),
    }
}

/// The messages for a line from croc, and whether the transfer is to be cancelled.
pub fn report_croc_line(line: messages::CrocLine) -> (r: (Vec<TransferMsg>, bool))
    ensures
        (msgs(r.0@), r.1) == croc_line_messages(line@),
{
    let mut out: Vec<TransferMsg> = Vec::new();
    assert(msgs(out@) =~= Seq::empty());
    match line {
        messages::CrocLine::Nothing => (out, false),
        messages::CrocLine::Conflict => {
            say(&mut out, TransferMsg::Error(owned("conflict-detected")));
            assert(msgs(out@) =~= croc_line_messages(line@).0);
            (out, true)
        },
        messages::CrocLine::Line { code, text } => {
            match code {
                Some(code) => {
                    say(&mut out, TransferMsg::Code(code));
                },
                None => {},
            }
            say(&mut out, TransferMsg::Output(text));
            assert(msgs(out@) =~= croc_line_messages(line@).0);
            (out, false)
        },
    }
}

} // verus!
