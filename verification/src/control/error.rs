//! Answers of the service that tell of an error.

use vstd::prelude::*;
use crate::net::error::{info_of, lossy_text, ErrorInfo, InfoView};
use crate::text;

verus! {

/// An answer of the service with an error.
pub struct StatusError {
    pub status: u16,
    pub operation: String,
    pub info: ErrorInfo,
}

/// The most of an answer that is read.
pub const MAX_BODY: usize = 65536;

/// What has been read of an answer after one more chunk.
pub open spec fn gathered(body: Seq<u8>, chunk: Seq<u8>) -> Seq<u8> {
    let room = MAX_BODY - body.len();
    body + chunk.take(if chunk.len() <= room {
        chunk.len() as int
    } else {
        room
    })
}

/// What has been read of an answer after one more chunk.
pub fn gather(body: &mut Vec<u8>, chunk: &Vec<u8>)
    requires
        old(body)@.len() <= MAX_BODY,
    ensures
        final(body)@ == gathered(old(body)@, chunk@),
        final(body)@.len() <= MAX_BODY,
{
    let room: usize = MAX_BODY - body.len();
    let ghost before = body@;
    let mut index: usize = 0;
    assert(before + chunk@.take(0) == before);
    while index < chunk.len() && index < room
        invariant
            index <= chunk.len(),
            index <= room,
            room == MAX_BODY - before.len(),
            body@ == before + chunk@.take(index as int),
        decreases chunk.len() - index,
    {
        proof {
            assert(before + chunk@.take(index + 1) == (before + chunk@.take(index as int)).push(
                chunk@[index as int],
            ));
        }
        body.push(chunk[index]);
        index = index + 1;
    }
}

impl StatusError {
    /// An error without more to say.
    pub fn new(status: u16, operation: &str) -> (result: StatusError)
        ensures
            result.status == status,
            result.operation@ == operation@,
            result.info@ == InfoView::empty(),
    {
        StatusError { status, operation: operation.to_owned(), info: ErrorInfo::default() }
    }

    /// An error with the answer that was read.
    pub fn read(status: u16, operation: &str, body: &Vec<u8>) -> (result: StatusError)
        ensures
            result.status == status,
            result.operation@ == operation@,
            result.info@ == info_of(text::trim_of(lossy_text(body@))),
    {
        StatusError { status, operation: operation.to_owned(), info: ErrorInfo::parse(body) }
    }

    /// An error whose answer broke off.
    pub fn broken(status: u16, operation: &str, cause: &str) -> (result: StatusError)
        ensures
            result.status == status,
            result.operation@ == operation@,
            result.info@ == (InfoView {
                message: "read error body: "@ + cause@,
                ..InfoView::empty()
            }),
    {
        let mut result = StatusError::new(status, operation);
        result.info.message = text::cat("read error body: ", cause);
        result
    }

    pub fn code(&self) -> (result: &str)
        ensures
            result@ == self.info@.code,
    {
        &self.info.code
    }

    pub fn kind(&self) -> (result: &str)
        ensures
            result@ == self.info@.kind,
    {
        &self.info.kind
    }

    pub fn message(&self) -> (result: &str)
        ensures
            result@ == self.info@.message,
    {
        &self.info.message
    }

    pub fn mitigation(&self) -> (result: &str)
        ensures
            result@ == self.info@.mitigation,
    {
        &self.info.mitigation
    }

    /// What the error says in one line.
    pub fn detail(&self) -> (result: String)
        ensures
            result@ == ErrorInfo::line(self.info@),
    {
        self.info.detail()
    }

    /// The text of the error.
    pub open spec fn shown(self) -> Seq<char> {
        let front = "tunnel "@ + self.operation@ + " returned HTTP "@ + text::decimal_of(
            self.status as nat,
        );
        if ErrorInfo::line(self.info@).len() == 0 {
            front
        } else {
            front + ": "@ + ErrorInfo::line(self.info@)
        }
    }

    /// The text of the error.
    pub fn text(&self) -> (result: String)
        ensures
            result@ == self.shown(),
    {
        let front = text::cat(
            &text::cat3("tunnel ", &self.operation, " returned HTTP "),
            &text::decimal(self.status as u64),
        );
        let detail = self.detail();
        if detail.is_empty() {
            front
        } else {
            text::cat3(&front, ": ", &detail)
        }
    }
}

/// Of the body of a refusal the first bytes are kept, sixty-four kilobytes at most.
pub proof fn lemma_body_gathered(body: Seq<u8>, chunk: Seq<u8>)
    requires
        body.len() <= 65536,
    ensures
        gathered(body, chunk).len() <= 65536,
        body.is_prefix_of(gathered(body, chunk)),
        body.len() + chunk.len() <= 65536 ==> gathered(body, chunk) == body + chunk,
        body.len() + chunk.len() > 65536 ==> gathered(body, chunk).len() == 65536,
{
    assert(gathered(body, chunk).subrange(0, body.len() as int) =~= body);
    if body.len() + chunk.len() <= 65536 {
        assert(chunk.take(chunk.len() as int) =~= chunk);
    }
}

/// A refusal is told with what was asked, its status and what the service said.
pub proof fn lemma_refusal_shown(error: StatusError)
    ensures
        ErrorInfo::line(error.info@).len() > 0 ==> error.shown() == "tunnel "@ + error.operation@
            + " returned HTTP "@ + text::decimal_of(error.status as nat) + ": "@ + ErrorInfo::line(error.info@),
        ErrorInfo::line(error.info@).len() == 0 ==> error.shown() == "tunnel "@ + error.operation@
            + " returned HTTP "@ + text::decimal_of(error.status as nat),
{
}

} // verus!
