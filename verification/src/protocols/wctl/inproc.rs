//! Control of a server in the same process.
use crate::error::Error;
use crate::protocols::wctl::client::{
    answer_fault, check_answer, take_info, told_info, Question,
};
use crate::protocols::wctl::messages::{Request, Response, ServerInfo};
use crate::protocols::wctl::server::Handler;
use crate::utils::text::owned;
use vstd::prelude::*;

verus! {

/// What comes of a question.
#[derive(Debug)]
pub enum Reply {
    Answer(Response),
    /// The server takes no questions any more.
    RequestChannelClosed,
    /// The server went before it answered.
    ResponseChannelClosed,
}

/// Controls a server through a channel.
#[derive(Debug)]
pub struct Client {}

impl Client {
    /// The answer, if there is one.
    pub fn request(reply: Reply) -> (r: Result<Response, Error>)
        ensures
            match reply {
                Reply::Answer(response) => r == Ok::<Response, Error>(response),
                Reply::RequestChannelClosed => r matches Err(Error::Internal(text)) && text@
                    == "wctl inproc channel closed"@,
                Reply::ResponseChannelClosed => r matches Err(Error::Internal(text)) && text@
                    == "wctl inproc response channel closed"@,
            },
    {
        match reply {
            Reply::Answer(response) => Ok(response),
            Reply::RequestChannelClosed => Err(
                Error::Internal(owned("wctl inproc channel closed")),
            ),
            Reply::ResponseChannelClosed => Err(
                Error::Internal(owned("wctl inproc response channel closed")),
            ),
        }
    }

    /// What comes of the answer to a ping.
    pub fn ping(response: Response) -> (r: Result<(), Error>)
        ensures
            match answer_fault(Question::Ping, response@) {
                Some(text) => r matches Err(Error::Internal(t)) && t@ == text,
                None => r is Ok,
            },
    {
        match check_answer(Question::Ping, &response) {
            Some(text) => Err(Error::Internal(text)),
            None => Ok(()),
        }
    }

    /// What comes of the answer to the start of a session.
    pub fn start_session(response: Response) -> (r: Result<(), Error>)
        ensures
            match answer_fault(Question::StartSession, response@) {
                Some(text) => r matches Err(Error::Internal(t)) && t@ == text,
                None => r is Ok,
            },
    {
        match check_answer(Question::StartSession, &response) {
            Some(text) => Err(Error::Internal(text)),
            None => Ok(()),
        }
    }

    /// What comes of the answer to the end of a session.
    pub fn stop_session(response: Response) -> (r: Result<(), Error>)
        ensures
            match answer_fault(Question::StopSession, response@) {
                Some(text) => r matches Err(Error::Internal(t)) && t@ == text,
                None => r is Ok,
            },
    {
        match check_answer(Question::StopSession, &response) {
            Some(text) => Err(Error::Internal(text)),
            None => Ok(()),
        }
    }

    /// What a server tells of itself.
    pub fn server_info(response: Response) -> (r: Result<ServerInfo, Error>)
        ensures
            match told_info(response@) {
                Ok(info) => r matches Ok(i) && i@ == info,
                Err(text) => r matches Err(Error::Internal(t)) && t@ == text,
            },
    {
        match take_info(response) {
            Ok(info) => Ok(info),
            Err(text) => Err(Error::Internal(text)),
        }
    }
}

/// Whether a handler may go through these states while it gives these answers to these questions,
/// one after the other.
pub open spec fn is_dialogue<H: Handler>(
    states: Seq<H>,
    requests: Seq<Request>,
    responses: Seq<Response>,
) -> bool {
    &&& states.len() == requests.len() + 1
    &&& responses.len() == requests.len()
    &&& forall|i: int|
        0 <= i < requests.len() ==> H::answers(
            states[i],
            #[trigger] requests[i],
            states[i + 1],
            responses[i],
        )
}

/// Whether a handler may give these answers to these questions.
pub open spec fn served<H: Handler>(
    before: H,
    requests: Seq<Request>,
    responses: Seq<Response>,
    after: H,
) -> bool {
    exists|states: Seq<H>|
        {
            &&& #[trigger] is_dialogue(states, requests, responses)
            &&& states[0] == before
            &&& states[requests.len() as int] == after
        }
}

/// The questions that wait for an answer.
#[derive(Debug)]
pub struct Server {
    pub requests: Vec<Request>,
}

impl Server {
    pub fn new(requests: Vec<Request>) -> (r: Self)
        ensures
            r.requests == requests,
    {
        Server { requests }
    }

    /// Answers all questions, in order.
    pub fn serve<H: Handler>(self, handler: &mut H) -> (r: Vec<Response>)
        ensures
            served(*old(handler), self.requests@, r@, *final(handler)),
    {
        let ghost start = *handler;
        let ghost mut states: Seq<H> = seq![start];
        let mut out: Vec<Response> = Vec::new();
        let mut i: usize = 0;
        while i < self.requests.len()
            invariant
                i <= self.requests@.len(),
                states[0] == start,
                states[i as int] == *handler,
                is_dialogue(states, self.requests@.subrange(0, i as int), out@),
            decreases self.requests@.len() - i,
        {
            let ghost so_far = self.requests@.subrange(0, i as int);
            let ghost before = out@;
            let request = self.requests[i];
            out.push(handler.handle(request));
            proof {
                let all = self.requests@.subrange(0, i + 1);
                let new_states = states.push(*handler);
                assert forall|j: int| 0 <= j < all.len() implies H::answers(
                    new_states[j],
                    #[trigger] all[j],
                    new_states[j + 1],
                    out@[j],
                ) by {
                    if j < i {
                        assert(all[j] == so_far[j]);
                        assert(out@[j] == before[j]);
                    }
                }
                states = new_states;
            }
            i = i + 1;
        }
        assert(self.requests@.subrange(0, i as int) =~= self.requests@);
        assert(is_dialogue(states, self.requests@, out@));
        out
    }
}

/// Every question gets an answer.
pub proof fn every_question_is_answered<H: Handler>(
    before: H,
    requests: Seq<Request>,
    responses: Seq<Response>,
    after: H,
)
    requires
        served(before, requests, responses, after),
    ensures
        responses.len() == requests.len(),
{
}

} // verus!
