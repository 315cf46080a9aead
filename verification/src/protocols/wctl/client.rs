//! What those who control a server make of its answers.
use crate::error::Error;
use crate::protocols::wctl::endpoint::Endpoint;
use crate::protocols::wctl::messages::{InfoModel, Response, ResponseModel, ServerInfo, response_text};
use crate::utils::text::joined;
use vstd::prelude::*;

verus! {

/// What was asked for.
#[derive(Debug, Clone, Copy, PartialEq, Eq, Structural)]
pub enum Question {
    Ping,
    StartSession,
    StopSession,
}

pub open spec fn question_name(question: Question) -> Seq<char> {
    match question {
        Question::Ping => "ping"@,
        Question::StartSession => "start session"@,
        Question::StopSession => "stop session"@,
    }
}

/// What is wrong with an answer that is not the one that was asked for.
pub open spec fn wrong_answer(name: Seq<char>, response: ResponseModel) -> Seq<char> {
    match response {
        ResponseModel::Error(message) => "wctl "@ + name + " failed: "@ + message,
        other => "unexpected wctl response: "@ + response_text(other),
    }
}

/// What is wrong with the answer to a question, if something is.
pub open spec fn answer_fault(question: Question, response: ResponseModel) -> Option<Seq<char>> {
    let wanted = if question == Question::Ping {
        ResponseModel::Pong
    } else {
        ResponseModel::Done
    };
    if response == wanted {
        None
    } else {
        Some(wrong_answer(question_name(question), response))
    }
}

fn tell_wrong_answer(name: &str, response: &Response) -> (r: String)
    ensures
        r@ == wrong_answer(name@, response@),
{
    match response {
        Response::Error { message } => {
            let mut text = joined("wctl ", name);
            text.append(" failed: ");
            text.append(message.as_str());
            text
        },
        other => joined("unexpected wctl response: ", other.debug_text().as_str()),
    }
}

/// What is wrong with the answer to a question, if something is.
pub fn check_answer(question: Question, response: &Response) -> (r: Option<String>)
    ensures
        match answer_fault(question, response@) {
            Some(text) => r matches Some(t) && t@ == text,
            None => r is None,
        },
{
    match (question, response) {
        (Question::Ping, Response::Pong) => None,
        (Question::Ping, other) => Some(tell_wrong_answer("ping", other)),
        (Question::StartSession, Response::Done) => None,
        (Question::StartSession, other) => Some(tell_wrong_answer("start session", other)),
        (Question::StopSession, Response::Done) => None,
        (Question::StopSession, other) => Some(tell_wrong_answer("stop session", other)),
    }
}

/// What a server tells of itself, or what is wrong with its answer.
pub open spec fn told_info(response: ResponseModel) -> Result<InfoModel, Seq<char>> {
    match response {
        ResponseModel::ServerInfo(info) => Ok(info),
        other => Err(wrong_answer("server_info"@, other)),
    }
}

/// What a server tells of itself, or what is wrong with its answer.
pub fn take_info(response: Response) -> (r: Result<ServerInfo, String>)
    ensures
        match told_info(response@) {
            Ok(info) => r matches Ok(i) && i@ == info,
            Err(text) => r matches Err(t) && t@ == text,
        },
{
    match response {
        Response::ServerInfo(info) => Ok(info),
        other => Err(tell_wrong_answer("server_info", &other)),
    }
}

/// Controls a server through a socket.
#[derive(Debug)]
pub struct Client {
    pub endpoint: Endpoint,
}

impl Client {
    pub fn new(endpoint: Endpoint) -> (r: Self)
        ensures
            r.endpoint == endpoint,
    {
        Client { endpoint }
    }

    /// What comes of the answer to a ping.
    pub fn ping(response: Response) -> (r: Result<(), Error>)
        ensures
            match answer_fault(Question::Ping, response@) {
                Some(text) => r matches Err(Error::Message(t)) && t@ == text,
                None => r is Ok,
            },
    {
        match check_answer(Question::Ping, &response) {
            Some(text) => Err(Error::Message(text)),
            None => Ok(()),
        }
    }

    /// What comes of the answer to the start of a session.
    pub fn start_session(response: Response) -> (r: Result<(), Error>)
        ensures
            match answer_fault(Question::StartSession, response@) {
                Some(text) => r matches Err(Error::Message(t)) && t@ == text,
                None => r is Ok,
            },
    {
        match check_answer(Question::StartSession, &response) {
            Some(text) => Err(Error::Message(text)),
            None => Ok(()),
        }
    }

    /// What comes of the answer to the end of a session.
    pub fn stop_session(response: Response) -> (r: Result<(), Error>)
        ensures
            match answer_fault(Question::StopSession, response@) {
                Some(text) => r matches Err(Error::Message(t)) && t@ == text,
                None => r is Ok,
            },
    {
        match check_answer(Question::StopSession, &response) {
            Some(text) => Err(Error::Message(text)),
            None => Ok(()),
        }
    }

    /// What a server tells of itself.
    pub fn server_info(response: Response) -> (r: Result<ServerInfo, Error>)
        ensures
            match told_info(response@) {
                Ok(info) => r matches Ok(i) && i@ == info,
                Err(text) => r matches Err(Error::Message(t)) && t@ == text,
            },
    {
        match take_info(response) {
            Ok(info) => Ok(info),
            Err(text) => Err(Error::Message(text)),
        }
    }
}

/// What to do while a server starts.
#[derive(Debug)]
pub enum ReadyStep {
    Ready,
    Failed(Error),
    SleepMillis(u64),
}

/// The next step while a server starts, given what came of a ping.
pub fn wait_ready(ping: Result<(), Error>, past_deadline: bool) -> (r: ReadyStep)
    ensures
        match ping {
            Ok(()) => r == ReadyStep::Ready,
            Err(err) => if past_deadline {
                r == ReadyStep::Failed(err)
            } else {
                r == ReadyStep::SleepMillis(25)
            },
        },
{
    match ping {
        Ok(()) => ReadyStep::Ready,
        Err(err) => if past_deadline {
            ReadyStep::Failed(err)
        } else {
            ReadyStep::SleepMillis(25)
        },
    }
}

/// A ping is answered by a pong, and other questions by a confirmation; nothing else will do.
pub proof fn answers_fit_their_question(question: Question, response: ResponseModel)
    ensures
        (answer_fault(question, response) is None) <==> (if question is Ping {
            response is Pong
        } else {
            response is Done
        }),
{
}

/// An error that the server tells of is told on.
pub proof fn refusals_are_told_on(message: Seq<char>)
    ensures
        answer_fault(Question::Ping, ResponseModel::Error(message)) == Some(
            "wctl "@ + "ping"@ + " failed: "@ + message,
        ),
        answer_fault(Question::StartSession, ResponseModel::Error(message)) == Some(
            "wctl "@ + "start session"@ + " failed: "@ + message,
        ),
        answer_fault(Question::StopSession, ResponseModel::Error(message)) == Some(
            "wctl "@ + "stop session"@ + " failed: "@ + message,
        ),
        told_info(ResponseModel::Error(message)) == Err::<InfoModel, Seq<char>>(
            "wctl "@ + "server_info"@ + " failed: "@ + message,
        ),
{
}

/// What a server tells of itself is taken as it is, and nothing else is.
pub proof fn info_is_taken_as_it_is(response: ResponseModel, info: InfoModel)
    ensures
        told_info(ResponseModel::ServerInfo(info)) == Ok::<InfoModel, Seq<char>>(info),
        !(response is ServerInfo) ==> told_info(response) is Err,
        response is Pong || response is Done ==> told_info(response) == Err::<InfoModel, Seq<char>>(
            "unexpected wctl response: "@ + response_text(response),
        ),
{
}

} // verus!
