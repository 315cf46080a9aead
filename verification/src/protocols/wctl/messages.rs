use crate::models::surface_model::{clone_text, text_view};
use crate::utils::text::{debug_text, decimal, owned, push_decimal, quoted};
use vstd::prelude::*;

verus! {

#[derive(Debug, Clone, Copy, PartialEq, Eq, Structural)]
pub enum Request {
    Ping,
    ServerInfo,
    /// Limits capture to the windows of one process, where the backend can.
    SetCaptureTargetPid { pid: Option<u32> },
    /// A program was started, whose windows are to be captured.
    StartSession { child_pid: u32 },
    /// The program ended.
    StopSession,
}

/// Where a server and its displays are.
#[derive(Debug, PartialEq, Eq)]
pub struct ServerInfo {
    pub wprs_endpoint: String,
    pub wayland_display: Option<String>,
    pub xwayland_display: Option<u32>,
}

#[derive(Debug, PartialEq, Eq)]
pub enum Response {
    Pong,
    ServerInfo(ServerInfo),
    Done,
    Error { message: String },
}

#[verifier::ext_equal]
pub struct InfoModel {
    pub wprs_endpoint: Seq<char>,
    pub wayland_display: Option<Seq<char>>,
    pub xwayland_display: Option<u32>,
}

#[verifier::ext_equal]
pub enum ResponseModel {
    Pong,
    ServerInfo(InfoModel),
    Done,
    Error(Seq<char>),
}

impl View for ServerInfo {
    type V = InfoModel;

    open spec fn view(&self) -> InfoModel {
        InfoModel {
            wprs_endpoint: self.wprs_endpoint@,
            wayland_display: text_view(self.wayland_display),
            xwayland_display: self.xwayland_display,
        }
    }
}

impl View for Response {
    type V = ResponseModel;

    open spec fn view(&self) -> ResponseModel {
        match *self {
            Response::Pong => ResponseModel::Pong,
            Response::ServerInfo(info) => ResponseModel::ServerInfo(info@),
            Response::Done => ResponseModel::Done,
            Response::Error { message } => ResponseModel::Error(message@),
        }
    }
}

impl Clone for ServerInfo {
    fn clone(&self) -> (r: Self)
        ensures
            r@ == self@,
    {
        ServerInfo {
            wprs_endpoint: owned(self.wprs_endpoint.as_str()),
            wayland_display: clone_text(&self.wayland_display),
            xwayland_display: self.xwayland_display,
        }
    }
}

/// An answer as it is told to those who look for mistakes.
pub open spec fn response_text(response: ResponseModel) -> Seq<char> {
    match response {
        ResponseModel::Pong => "Pong"@,
        ResponseModel::Done => "Ok"@,
        ResponseModel::Error(message) => "Error { message: "@ + debug_text(message) + " }"@,
        ResponseModel::ServerInfo(info) => "ServerInfo(ServerInfo { wprs_endpoint: "@ + debug_text(
            info.wprs_endpoint,
        ) + ", wayland_display: "@ + (match info.wayland_display {
            Some(display) => "Some("@ + debug_text(display) + ")"@,
            None => "None"@,
        }) + ", xwayland_display: "@ + (match info.xwayland_display {
            Some(display) => "Some("@ + decimal(display as nat) + ")"@,
            None => "None"@,
        }) + " })"@,
    }
}

impl Response {
    /// The answer as it is told to those who look for mistakes.
    pub fn debug_text(&self) -> (r: String)
        ensures
            r@ == response_text(self@),
    {
        match self {
            Response::Pong => owned("Pong"),
            Response::Done => owned("Ok"),
            Response::Error { message } => {
                let mut text = owned("Error { message: ");
                text.append(quoted(message.as_str()).as_str());
                text.append(" }");
                text
            },
            Response::ServerInfo(info) => {
                let mut text = owned("ServerInfo(ServerInfo { wprs_endpoint: ");
                text.append(quoted(info.wprs_endpoint.as_str()).as_str());
                text.append(", wayland_display: ");
                let mut display_text = String::new();
                match &info.wayland_display {
                    Some(display) => {
                        display_text.append("Some(");
                        display_text.append(quoted(display.as_str()).as_str());
                        display_text.append(")");
                    },
                    None => {
                        display_text.append("None");
                    },
                }
                text.append(display_text.as_str());
                text.append(", xwayland_display: ");
                let mut number_text = String::new();
                match info.xwayland_display {
                    Some(display) => {
                        number_text.append("Some(");
                        push_decimal(&mut number_text, display as u64);
                        number_text.append(")");
                    },
                    None => {
                        number_text.append("None");
                    },
                }
                text.append(number_text.as_str());
                text.append(" })");
                assert(text@ =~= response_text(self@));
                text
            },
        }
    }
}

} // verus!
