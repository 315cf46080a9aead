//! How a server answers.
use crate::protocols::wctl::messages::{InfoModel, Request, Response, ResponseModel, ServerInfo};
use crate::utils::text::owned;
use vstd::prelude::*;

verus! {

/// Something that answers questions.
pub trait Handler: Sized {
    /// Whether a question may get an answer, and leave the handler as it is then. Any may, unless
    /// the handler says more.
    open spec fn answers(before: Self, req: Request, after: Self, resp: Response) -> bool {
        true
    }

    fn handle(&mut self, req: Request) -> (resp: Response)
        ensures
            Self::answers(*old(self), req, *final(self), resp),
    ;
}

/// The process whose windows are captured, where the backend can tell windows apart.
#[derive(Debug, Clone, Copy, PartialEq, Eq, Structural)]
pub struct TargetPid {
    pub pid: Option<u32>,
}

/// Answers for a server.
#[derive(Debug)]
pub struct ControlHandler {
    pub server_info: ServerInfo,
    pub target_pid: Option<TargetPid>,
}

/// The answer to a question, and the process that is captured after it.
pub open spec fn control_answer(
    info: InfoModel,
    target: Option<TargetPid>,
    req: Request,
) -> (ResponseModel, Option<TargetPid>) {
    match req {
        Request::Ping => (ResponseModel::Pong, target),
        Request::ServerInfo => (ResponseModel::ServerInfo(info), target),
        Request::SetCaptureTargetPid { pid } => target_set(target, pid),
        Request::StartSession { child_pid } => target_set(target, Some(child_pid)),
        Request::StopSession => target_set(target, None),
    }
}

pub open spec fn target_set(target: Option<TargetPid>, pid: Option<u32>) -> (
    ResponseModel,
    Option<TargetPid>,
) {
    if target is Some {
        (ResponseModel::Done, Some(TargetPid { pid }))
    } else {
        (
            ResponseModel::Error(
                "capture target pid is not supported by the current backend"@,
            ),
            None,
        )
    }
}

impl ControlHandler {
    pub fn new(server_info: ServerInfo, target_pid: Option<TargetPid>) -> (r: Self)
        ensures
            r.server_info == server_info,
            r.target_pid == target_pid,
    {
        ControlHandler { server_info, target_pid }
    }

    fn set_target(&mut self, pid: Option<u32>) -> (resp: Response)
        ensures
            (resp@, final(self).target_pid) == target_set(old(self).target_pid, pid),
            final(self).server_info == old(self).server_info,
    {
        if self.target_pid.is_none() {
            return Response::Error {
                message: owned("capture target pid is not supported by the current backend"),
            };
        }
        self.target_pid = Some(TargetPid { pid });
        Response::Done
    }
}

impl Handler for ControlHandler {
    open spec fn answers(before: Self, req: Request, after: Self, resp: Response) -> bool {
        &&& (resp@, after.target_pid) == control_answer(
            before.server_info@,
            before.target_pid,
            req,
        )
        &&& after.server_info == before.server_info
    }

    fn handle(&mut self, req: Request) -> (resp: Response) {
        match req {
            Request::Ping => Response::Pong,
            Request::ServerInfo => Response::ServerInfo(self.server_info.clone()),
            Request::SetCaptureTargetPid { pid } => self.set_target(pid),
            Request::StartSession { child_pid } => self.set_target(Some(child_pid)),
            Request::StopSession => self.set_target(None),
        }
    }
}

/// Why something could not be read or written, as far as it matters.
#[derive(Debug, Clone, Copy, PartialEq, Eq, Structural)]
pub enum IoErrorKind {
    UnexpectedEof,
    ConnectionReset,
    ConnectionAborted,
    BrokenPipe,
    NotConnected,
    Other,
}

/// Whether an error, or one that caused it, says that the other end has gone. The kinds are those
/// of the errors about reading and writing among them.
pub fn is_disconnect_error(kinds: &Vec<IoErrorKind>) -> (r: bool)
    ensures
        r == exists|i: int| 0 <= i < kinds@.len() && #[trigger] kinds@[i] != IoErrorKind::Other,
{
    let mut i: usize = 0;
    while i < kinds.len()
        invariant
            i <= kinds@.len(),
            forall|j: int| 0 <= j < i ==> #[trigger] kinds@[j] == IoErrorKind::Other,
        decreases kinds@.len() - i,
    {
        if kinds[i] != IoErrorKind::Other {
            return true;
        }
        i = i + 1;
    }
    false
}

/// A question does not change what the server tells of itself.
pub proof fn answers_keep_the_server_info(
    before: ControlHandler,
    req: Request,
    after: ControlHandler,
    resp: Response,
)
    requires
        ControlHandler::answers(before, req, after, resp),
    ensures
        after.server_info == before.server_info,
        resp@ matches ResponseModel::ServerInfo(info) ==> info == before.server_info@,
{
}

/// Pings and questions about the server are answered and change nothing.
pub proof fn questions_are_answered(info: InfoModel, target: Option<TargetPid>)
    ensures
        control_answer(info, target, Request::Ping) == (ResponseModel::Pong, target),
        control_answer(info, target, Request::ServerInfo) == (
            ResponseModel::ServerInfo(info),
            target,
        ),
{
}

/// A session captures its program, and its end captures everything again. A backend that cannot
/// choose says so and goes on as it was.
pub proof fn sessions_choose_what_is_captured(
    info: InfoModel,
    target: TargetPid,
    child_pid: u32,
    pid: Option<u32>,
)
    ensures
        control_answer(info, Some(target), Request::StartSession { child_pid }) == (
            ResponseModel::Done,
            Some(TargetPid { pid: Some(child_pid) }),
        ),
        control_answer(info, Some(target), Request::StopSession) == (
            ResponseModel::Done,
            Some(TargetPid { pid: None }),
        ),
        control_answer(info, Some(target), Request::SetCaptureTargetPid { pid }) == (
            ResponseModel::Done,
            Some(TargetPid { pid }),
        ),
        control_answer(info, None, Request::StartSession { child_pid }).0 is Error,
        control_answer(info, None, Request::StopSession).0 is Error,
        control_answer(info, None, Request::SetCaptureTargetPid { pid }).0 is Error,
        control_answer(info, None, Request::StartSession { child_pid }).1 is None,
        control_answer(info, None, Request::StopSession).1 is None,
        control_answer(info, None, Request::SetCaptureTargetPid { pid }).1 is None,
{
}

} // verus!
