use vstd::prelude::*;
use vstd::string::*;
use crate::request::Req;
use crate::channel::{Channel, Sender};

verus! {

/// What a reply carries: one JSON text, or the stream fed through a sender.
#[derive(Clone, Debug)]
pub enum ReplyData {
    Value(String),
    Stream(u64),
}

/// The body of a response on the request/response transport: one text, or
/// the frames of a live stream, sent as an event stream.
#[derive(Clone, Debug)]
pub enum Body {
    Once(String),
    Stream(u64),
}

/// A response on the request/response transport.
#[derive(Clone, Debug)]
pub struct HttpResponse {
    pub status: i64,
    pub body: Body,
}

/// The result of handling a request.
#[derive(Clone, Debug)]
pub struct Reply {
    pub code: i64,
    /// The request, while the reply is still being handled.
    pub req: Option<Req>,
    pub data: ReplyData,
}

impl Reply {
    pub fn new(code: i64, req: Option<Req>, data: String) -> (r: Reply)
        ensures
            r == (Reply { code, req, data: ReplyData::Value(data) }),
    {
        Reply { code, req, data: ReplyData::Value(data) }
    }

    pub fn code(&self) -> (r: i64)
        ensures
            r == self.code,
    {
        self.code
    }

    /// The single value that the reply carries, if it is not a stream.
    pub fn data(&self) -> (r: Option<&String>)
        ensures
            match self.data {
                ReplyData::Value(v) => r == Some(&v),
                ReplyData::Stream(_) => r is None,
            },
    {
        match &self.data {
            ReplyData::Value(v) => Some(v),
            ReplyData::Stream(_) => None,
        }
    }

    /// Opens a fresh stream in `channel`: the sender that feeds it, and the
    /// reply that carries it.
    pub fn new_streamed(code: i64, req: Option<Req>, channel: &mut Channel) -> (r: (Sender, Reply))
        requires
            old(channel).wf(),
            old(channel).next_id < u64::MAX,
        ensures
            final(channel).wf(),
            r.0.id == old(channel).next_id,
            r.1 == (Reply { code, req, data: ReplyData::Stream(r.0.id) }),
            final(channel).next_id == old(channel).next_id + 1,
            final(channel).streams@.drop_last() == old(channel).streams@,
            final(channel).streams@.len() == old(channel).streams@.len() + 1,
            final(channel).streams@.last().id == r.0.id,
            final(channel).streams@.last().kind is None,
            !final(channel).streams@.last().ended,
            final(channel).streams@.last().items@.len() == 0,
    {
        let sender = channel.open();
        (sender, Reply { code, req, data: ReplyData::Stream(sender.id) })
    }

    /// The response that carries this reply: its status, and its value as
    /// the body, or its stream as an event stream.
    pub fn to_http(self) -> (r: HttpResponse)
        ensures
            r.status == self.code,
            match self.data {
                ReplyData::Value(v) => r.body == Body::Once(v),
                ReplyData::Stream(id) => r.body == Body::Stream(id),
            },
    {
        let body = match self.data {
            ReplyData::Value(v) => Body::Once(v),
            ReplyData::Stream(id) => Body::Stream(id),
        };
        HttpResponse { status: self.code, body }
    }
}

} // verus!
