//! Frames of the socket front-end.
//!
//! A frame is a two-byte big-endian length followed by that many body bytes.
//! The body starts with a one-byte kind; text follows as UTF-8. A room list is
//! a run of names, each with its own two-byte length.
use vstd::prelude::*;
use vstd::utf8::*;
use vstd::string::*;
use crate::relay::texts;

verus! {

broadcast use {vstd::seq_lib::group_seq_properties, encode_utf8_decode_utf8, decode_utf8_encode_utf8};

/// Kind byte of a room-list request, and of a room-list response.
pub const KIND_LIST: u8 = 0x4c;

/// Kind byte of a join request, and of its acknowledgement.
pub const KIND_JOIN: u8 = 0x4a;

/// Kind byte of a name request.
pub const KIND_NAME: u8 = 0x4e;

/// Kind byte of a chat message, either way.
pub const KIND_MESSAGE: u8 = 0x4d;

/// Kind byte of a liveness probe, either way.
pub const KIND_PING: u8 = 0x50;

/// Largest body a frame can carry.
pub const MAX_BODY: usize = 65535;

/// A request from a socket peer.
#[derive(Debug, PartialEq, Eq)]
pub enum ChatRequest {
    List,
    Join(String),
    Name(String),
    Message(String),
    Ping,
}

/// Mathematical value of a `ChatRequest`.
pub enum RequestView {
    List,
    Join(Seq<char>),
    Name(Seq<char>),
    Message(Seq<char>),
    Ping,
}

impl View for ChatRequest {
    type V = RequestView;

    open spec fn view(&self) -> RequestView {
        match self {
            ChatRequest::List => RequestView::List,
            ChatRequest::Join(s) => RequestView::Join(s@),
            ChatRequest::Name(s) => RequestView::Name(s@),
            ChatRequest::Message(s) => RequestView::Message(s@),
            ChatRequest::Ping => RequestView::Ping,
        }
    }
}

/// A response to a socket peer.
#[derive(Debug, PartialEq, Eq)]
pub enum ChatResponse {
    Ping,
    Rooms(Vec<String>),
    Joined(String),
    Message(String),
}

/// Mathematical value of a `ChatResponse`.
pub enum ResponseView {
    Ping,
    Rooms(Seq<Seq<char>>),
    Joined(Seq<char>),
    Message(Seq<char>),
}

impl View for ChatResponse {
    type V = ResponseView;

    open spec fn view(&self) -> ResponseView {
        match self {
            ChatResponse::Ping => ResponseView::Ping,
            ChatResponse::Rooms(v) => ResponseView::Rooms(texts(v@)),
            ChatResponse::Joined(s) => ResponseView::Joined(s@),
            ChatResponse::Message(s) => ResponseView::Message(s@),
        }
    }
}

/// The result of looking for a request at the front of a buffer.
#[derive(Debug, PartialEq, Eq)]
pub enum Decoded {
    /// More bytes are needed.
    Incomplete,
    /// A request, and how many bytes of the buffer it took.
    Frame(ChatRequest, usize),
    /// The frame at the front is not a request.
    Invalid,
}

/// Mathematical value of a `Decoded`.
pub enum DecodedView {
    Incomplete,
    Frame(RequestView, nat),
    Invalid,
}

impl View for Decoded {
    type V = DecodedView;

    open spec fn view(&self) -> DecodedView {
        match self {
            Decoded::Incomplete => DecodedView::Incomplete,
            Decoded::Frame(r, n) => DecodedView::Frame(r@, *n as nat),
            Decoded::Invalid => DecodedView::Invalid,
        }
    }
}

/// The two big-endian bytes of `n`.
pub open spec fn be16(n: nat) -> Seq<u8> {
    seq![(n / 256) as u8, (n % 256) as u8]
}

/// The body length announced by the first two bytes of `buf`.
pub open spec fn announced(buf: Seq<u8>) -> int {
    buf[0] as int * 256 + buf[1] as int
}

/// The request a frame body holds, if it holds one.
pub open spec fn request_of(body: Seq<u8>) -> Option<RequestView> {
    if body.len() == 0 {
        None
    } else {
        let kind = body[0];
        let payload = body.skip(1);
        if kind == KIND_LIST || kind == KIND_PING {
            if payload.len() != 0 {
                None
            } else if kind == KIND_LIST {
                Some(RequestView::List)
            } else {
                Some(RequestView::Ping)
            }
        } else if kind == KIND_JOIN || kind == KIND_NAME || kind == KIND_MESSAGE {
            if !valid_utf8(payload) {
                None
            } else if kind == KIND_JOIN {
                Some(RequestView::Join(decode_utf8(payload)))
            } else if kind == KIND_NAME {
                Some(RequestView::Name(decode_utf8(payload)))
            } else {
                Some(RequestView::Message(decode_utf8(payload)))
            }
        } else {
            None
        }
    }
}

/// What the front of `buf` holds: an unfinished frame, a request frame and
/// its size, or a frame that is not a request.
pub open spec fn decode_spec(buf: Seq<u8>) -> DecodedView {
    if buf.len() < 2 || buf.len() < 2 + announced(buf) {
        DecodedView::Incomplete
    } else {
        match request_of(buf.subrange(2, 2 + announced(buf))) {
            Some(r) => DecodedView::Frame(r, (2 + announced(buf)) as nat),
            None => DecodedView::Invalid,
        }
    }
}

/// A room list as bytes: each name's UTF-8 length, then the name.
pub open spec fn names_bytes(names: Seq<Seq<char>>) -> Seq<u8>
    decreases names.len(),
{
    if names.len() == 0 {
        Seq::empty()
    } else {
        names_bytes(names.drop_last()) + be16(encode_utf8(names.last()).len()) + encode_utf8(
            names.last(),
        )
    }
}

/// The body of the frame that carries `r`.
pub open spec fn response_body(r: ResponseView) -> Seq<u8> {
    match r {
        ResponseView::Ping => seq![KIND_PING],
        ResponseView::Rooms(names) => seq![KIND_LIST] + names_bytes(names),
        ResponseView::Joined(s) => seq![KIND_JOIN] + encode_utf8(s),
        ResponseView::Message(s) => seq![KIND_MESSAGE] + encode_utf8(s),
    }
}

/// The frame that carries `body`.
pub open spec fn framed(body: Seq<u8>) -> Seq<u8> {
    be16(body.len()) + body
}

/// Relies on std::str::from_utf8: it accepts exactly the valid UTF-8 byte
/// strings, and the text it gives back is the one they encode.
#[verifier::external_body]
fn utf8_text(bytes: &[u8]) -> (r: Option<String>)
    ensures
        match r {
            Some(s) => encode_utf8(s@) == bytes@,
            None => !valid_utf8(bytes@),
        },
{
    match std::str::from_utf8(bytes) {
        Ok(s) => Some(s.to_owned()),
        Err(_) => None,
    }
}

/// Reads the request at the front of `buf`, if a whole frame is there.
pub fn decode_request(buf: &[u8]) -> (r: Decoded)
    ensures
        r@ == decode_spec(buf@),
{
    if buf.len() < 2 {
        return Decoded::Incomplete;
    }
    let n: usize = buf[0] as usize * 256 + buf[1] as usize;
    if buf.len() - 2 < n {
        return Decoded::Incomplete;
    }
    let body = &buf[2..2 + n];
    assert(body@ == buf@.subrange(2, 2 + announced(buf@)));
    if n == 0 {
        return Decoded::Invalid;
    }
    let kind = body[0];
    let payload = &body[1..n];
    assert(payload@ == body@.skip(1));
    if kind == KIND_LIST || kind == KIND_PING {
        if n != 1 {
            Decoded::Invalid
        } else if kind == KIND_LIST {
            Decoded::Frame(ChatRequest::List, 2 + n)
        } else {
            Decoded::Frame(ChatRequest::Ping, 2 + n)
        }
    } else if kind == KIND_JOIN || kind == KIND_NAME || kind == KIND_MESSAGE {
        match utf8_text(payload) {
            None => Decoded::Invalid,
            Some(text) => {
                proof {
                    encode_utf8_decode_utf8(text@);
                    encode_utf8_valid_utf8(text@);
                }
                if kind == KIND_JOIN {
                    Decoded::Frame(ChatRequest::Join(text), 2 + n)
                } else if kind == KIND_NAME {
                    Decoded::Frame(ChatRequest::Name(text), 2 + n)
                } else {
                    Decoded::Frame(ChatRequest::Message(text), 2 + n)
                }
            },
        }
    } else {
        Decoded::Invalid
    }
}

/// Appends the UTF-8 bytes of `s` to `out`.
fn push_text(out: &mut Vec<u8>, s: &str)
    ensures
        final(out)@ == old(out)@ + encode_utf8(s@),
{
    let bytes = s.as_bytes();
    let mut i: usize = 0;
    while i < bytes.len()
        invariant
            i <= bytes@.len(),
            bytes@ == encode_utf8(s@),
            out@ == old(out)@ + bytes@.subrange(0, i as int),
        decreases bytes.len() - i,
    {
        out.push(bytes[i]);
        assert(bytes@.subrange(0, i + 1) =~= bytes@.subrange(0, i as int).push(bytes@[i as int]));
        i += 1;
    }
    assert(bytes@.subrange(0, i as int) =~= bytes@);
}

/// Appends the two big-endian bytes of `n`.
fn push_be16(out: &mut Vec<u8>, n: usize)
    requires
        n <= MAX_BODY,
    ensures
        final(out)@ == old(out)@ + be16(n as nat),
{
    out.push((n / 256) as u8);
    out.push((n % 256) as u8);
    assert(final(out)@ =~= old(out)@ + be16(n as nat));
}

/// A prefix of a room list takes no more bytes than the whole list.
proof fn lemma_names_bytes_grow(names: Seq<Seq<char>>, i: int)
    requires
        0 <= i <= names.len(),
    ensures
        names_bytes(names.take(i)).len() <= names_bytes(names).len(),
    decreases names.len() - i,
{
    if i < names.len() {
        lemma_names_bytes_grow(names, i + 1);
        assert(names.take(i + 1).drop_last() =~= names.take(i));
    } else {
        assert(names.take(i) =~= names);
    }
}

/// The frame that carries `r`, or `None` when its body would be longer than
/// a frame can announce.
pub fn encode_response(r: &ChatResponse) -> (out: Option<Vec<u8>>)
    ensures
        match out {
            Some(v) => response_body(r@).len() <= MAX_BODY && v@ == framed(response_body(r@)),
            None => response_body(r@).len() > MAX_BODY,
        },
{
    let mut body: Vec<u8> = Vec::new();
    match r {
        ChatResponse::Ping => {
            body.push(KIND_PING);
        },
        ChatResponse::Joined(s) => {
            body.push(KIND_JOIN);
            push_text(&mut body, s.as_str());
        },
        ChatResponse::Message(s) => {
            body.push(KIND_MESSAGE);
            push_text(&mut body, s.as_str());
        },
        ChatResponse::Rooms(names) => {
            let ghost all = texts(names@);
            body.push(KIND_LIST);
            let mut i: usize = 0;
            while i < names.len()
                invariant
                    i <= names@.len(),
                    all == texts(names@),
                    r@ == ResponseView::Rooms(all),
                    body@ == seq![KIND_LIST] + names_bytes(all.take(i as int)),
                    body@.len() <= MAX_BODY,
                decreases names.len() - i,
            {
                let name = names[i].as_str();
                let len = name.as_bytes().len();
                assert(all.take(i + 1).drop_last() =~= all.take(i as int));
                assert(all.take(i + 1).last() == name@);
                assert(names_bytes(all.take(i + 1)) == names_bytes(all.take(i as int)) + be16(
                    len as nat,
                ) + encode_utf8(name@));
                if len > MAX_BODY - body.len() || MAX_BODY - body.len() - len < 2 {
                    proof {
                        lemma_names_bytes_grow(all, i + 1);
                        assert(be16(len as nat).len() == 2);
                        assert(names_bytes(all.take(i + 1)).len() == names_bytes(all.take(i as int)).len() + 2 + len);
                        assert(response_body(r@).len() == 1 + names_bytes(all).len());
                    }
                    return None;
                }
                push_be16(&mut body, len);
                push_text(&mut body, name);
                assert(body@ =~= seq![KIND_LIST] + names_bytes(all.take(i + 1)));
                i += 1;
            }
            assert(all.take(i as int) =~= all);
        },
    }
    assert(body@ =~= response_body(r@));
    if body.len() > MAX_BODY {
        return None;
    }
    let mut out: Vec<u8> = Vec::new();
    push_be16(&mut out, body.len());
    let mut i: usize = 0;
    while i < body.len()
        invariant
            i <= body@.len(),
            body@.len() <= MAX_BODY,
            out@ == be16(body@.len()) + body@.subrange(0, i as int),
        decreases body.len() - i,
    {
        out.push(body[i]);
        assert(body@.subrange(0, i + 1) =~= body@.subrange(0, i as int).push(body@[i as int]));
        i += 1;
    }
    assert(body@.subrange(0, i as int) =~= body@);
    Some(out)
}

} // verus!
