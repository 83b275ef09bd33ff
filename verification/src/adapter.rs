//! Streaming response adapter.
//!
//! The backend answers a streaming chat-completions request with
//! newline-delimited event records.  A record that begins with the marker
//! `data: ` carries either a JSON payload with a content delta or the
//! stream-end sentinel `[DONE]`.  The transport delivers the records in
//! arbitrary chunks, so a chunk may end in the middle of a record; the
//! [`StreamDecoder`] buffers the partial record and emits the decoded text
//! fragments in transport order.  A record that does not conform — wrong
//! marker, malformed JSON, or no content delta — is dropped silently and
//! never ends the stream.

use vstd::prelude::*;
use crate::protocol::ChatHistory;
use crate::protocol::Role;

verus! {

/// One conversation turn as the backend's chat-completions interface takes
/// it: a role name and the message text.
#[derive(Debug)]
pub struct Message {
    pub role: String,
    pub content: String,
}

/// Mathematical model of an upstream [`Message`].
#[verifier::ext_equal]
pub struct MessageView {
    pub role: Seq<char>,
    pub content: Seq<char>,
}

impl View for Message {
    type V = MessageView;

    open spec fn view(&self) -> MessageView {
        MessageView { role: self.role@, content: self.content@ }
    }
}

/// The body of one streaming chat-completions request: the full conversation
/// and the streaming flag.
#[derive(Debug)]
pub struct ChatRequest {
    pub messages: Vec<Message>,
    pub stream: bool,
}

/// Mathematical model of a [`ChatRequest`].
#[verifier::ext_equal]
pub struct ChatRequestView {
    pub messages: Seq<MessageView>,
    pub stream: bool,
}

impl View for ChatRequest {
    type V = ChatRequestView;

    open spec fn view(&self) -> ChatRequestView {
        ChatRequestView {
            messages: self.messages@.map_values(|m: Message| m@),
            stream: self.stream,
        }
    }
}

/// The role name the backend expects for each kind of message.
pub open spec fn role_name(r: Role) -> Seq<char> {
    match r {
        Role::User => "user"@,
        Role::Assistant => "assistant"@,
    }
}

/// The executable counterpart of [`role_name`].
pub fn role_string(r: Role) -> (s: String)
    ensures
        s@ == role_name(r),
{
    match r {
        Role::User => String::from_str("user"),
        Role::Assistant => String::from_str("assistant"),
    }
}

/// Builds the streaming request carrying the whole conversation, in order.
pub fn build_request(history: &ChatHistory) -> (req: ChatRequest)
    ensures
        req@.stream == true,
        req@.messages == history@.messages.map_values(
            |m: crate::protocol::MessageView| MessageView {
                role: role_name(m.role),
                content: m.content,
            },
        ),
{
    let n = history.messages.len();
    let mut messages: Vec<Message> = Vec::new();
    let mut i: usize = 0;
    while i < n
        invariant
            i <= n,
            n == history.messages@.len(),
            messages@.len() == i,
            forall|k: int|
                0 <= k < i ==> #[trigger] messages@[k]@ == (MessageView {
                    role: role_name(history@.messages[k].role),
                    content: history@.messages[k].content,
                }),
        decreases n - i,
    {
        let m = &history.messages[i];
        messages.push(Message { role: role_string(m.role), content: m.content.clone() });
        i = i + 1;
    }
    let req = ChatRequest { messages, stream: true };
    proof {
        assert(req@.messages =~= history@.messages.map_values(
            |m: crate::protocol::MessageView| MessageView {
                role: role_name(m.role),
                content: m.content,
            },
        ));
    }
    req
}

/// The record marker: the bytes of `data: `.
pub open spec fn data_prefix() -> Seq<u8> {
    seq![100u8, 97u8, 116u8, 97u8, 58u8, 32u8]
}

/// The stream-end sentinel payload: the bytes of `[DONE]`.
pub open spec fn sentinel() -> Seq<u8> {
    seq![91u8, 68u8, 79u8, 78u8, 69u8, 93u8]
}

/// A completed record with one trailing carriage return removed, so that
/// transports ending lines either way decode alike.
pub open spec fn strip_cr(line: Seq<u8>) -> Seq<u8> {
    if line.len() > 0 && line.last() == 13u8 {
        line.drop_last()
    } else {
        line
    }
}

/// Whether a completed record begins with the `data: ` marker.
pub open spec fn is_data_record(line: Seq<u8>) -> bool {
    strip_cr(line).len() >= 6 && strip_cr(line).take(6) == data_prefix()
}

/// What follows the marker of a data record.
pub open spec fn record_payload(line: Seq<u8>) -> Seq<u8> {
    strip_cr(line).skip(6)
}

/// Whether a completed record is the stream-end sentinel.
pub open spec fn is_sentinel_record(line: Seq<u8>) -> bool {
    is_data_record(line) && record_payload(line) == sentinel()
}

/// The content delta carried by the JSON payload of one data record, when
/// the payload is well-formed JSON of the chat-completions chunk shape and
/// its first choice has a content delta; `None` otherwise.  The decoding is
/// done by an outside JSON parser, so the function is given no body: it names
/// that parser's result, which depends on the payload bytes alone.
pub uninterp spec fn chunk_content(payload: Seq<u8>) -> Option<Seq<char>>;

/// Relies on serde_json: parses one record payload and extracts the content
/// delta at `choices[0].delta.content`, returning `None` for anything
/// malformed or content-free.
#[verifier::external_body]
fn parse_chunk_content(payload: &[u8]) -> (r: Option<String>)
    ensures
        r is Some <==> chunk_content(payload@) is Some,
        r matches Some(s) ==> chunk_content(payload@) == Some(s@),
{
    let text = core::str::from_utf8(payload).ok()?;
    let value: serde_json::Value = serde_json::from_str(text).ok()?;
    let content = value.get("choices")?.get(0)?.get("delta")?.get("content")?.as_str()?;
    Some(content.to_string())
}

/// The fragment a completed record contributes: the content delta of a data
/// record that is not the sentinel; nothing for anything else.
pub open spec fn record_fragment(line: Seq<u8>) -> Option<Seq<char>> {
    if is_data_record(line) && !is_sentinel_record(line) {
        chunk_content(record_payload(line))
    } else {
        None
    }
}

/// Mathematical state of the decoder: the bytes of the current partial
/// record, and whether the sentinel has ended the stream.
#[verifier::ext_equal]
pub struct DecoderView {
    pub buf: Seq<u8>,
    pub done: bool,
}

/// One transport byte applied to the decoder: a newline completes the
/// buffered record, any other byte extends it; after the sentinel the
/// decoder ignores everything.  Returns the new state and the fragments
/// emitted (none or one).
pub open spec fn byte_step(st: DecoderView, b: u8) -> (DecoderView, Seq<Seq<char>>) {
    if st.done {
        (st, Seq::<Seq<char>>::empty())
    } else if b == 10u8 {
        let line = st.buf;
        let next = DecoderView { buf: Seq::<u8>::empty(), done: is_sentinel_record(line) };
        match record_fragment(line) {
            Some(f) => (next, seq![f]),
            None => (next, Seq::<Seq<char>>::empty()),
        }
    } else {
        (DecoderView { buf: st.buf.push(b), done: false }, Seq::<Seq<char>>::empty())
    }
}

/// A whole transport chunk applied to the decoder, byte by byte.
pub open spec fn feed_model(st: DecoderView, chunk: Seq<u8>) -> (DecoderView, Seq<Seq<char>>)
    decreases chunk.len(),
{
    if chunk.len() == 0 {
        (st, Seq::<Seq<char>>::empty())
    } else {
        let first = byte_step(st, chunk[0]);
        let rest = feed_model(first.0, chunk.drop_first());
        (rest.0, first.1 + rest.1)
    }
}

/// The end of the transport applied to the decoder: a leftover partial
/// record is decoded as a final record.
pub open spec fn finish_model(st: DecoderView) -> (DecoderView, Seq<Seq<char>>) {
    if st.done || st.buf.len() == 0 {
        (DecoderView { buf: Seq::<u8>::empty(), done: st.done }, Seq::<Seq<char>>::empty())
    } else {
        byte_step(st, 10u8)
    }
}

/// Feeding a chunk extended by one byte is feeding the chunk, then the byte.
pub proof fn lemma_feed_snoc(st: DecoderView, chunk: Seq<u8>, b: u8)
    ensures
        feed_model(st, chunk.push(b)).0 == byte_step(feed_model(st, chunk).0, b).0,
        feed_model(st, chunk.push(b)).1 == feed_model(st, chunk).1 + byte_step(
            feed_model(st, chunk).0,
            b,
        ).1,
    decreases chunk.len(),
{
    reveal_with_fuel(feed_model, 3);
    if chunk.len() == 0 {
        assert(chunk.push(b)[0] == b);
        assert(chunk.push(b).drop_first() =~= Seq::<u8>::empty());
        assert(feed_model(st, chunk.push(b)).1 =~= byte_step(st, b).1);
        assert(feed_model(st, chunk).1 + byte_step(feed_model(st, chunk).0, b).1 =~= byte_step(
            st,
            b,
        ).1);
    } else {
        assert(chunk.push(b)[0] == chunk[0]);
        assert(chunk.push(b).drop_first() =~= chunk.drop_first().push(b));
        let first = byte_step(st, chunk[0]);
        lemma_feed_snoc(first.0, chunk.drop_first(), b);
        assert(feed_model(st, chunk.push(b)).1 =~= feed_model(st, chunk).1 + byte_step(
            feed_model(st, chunk).0,
            b,
        ).1);
    }
}

/// Chunk boundaries do not matter: the decoder behaves the same however the
/// byte stream is cut into chunks.
pub proof fn lemma_feed_split(st: DecoderView, a: Seq<u8>, b: Seq<u8>)
    ensures
        feed_model(st, a + b).0 == feed_model(feed_model(st, a).0, b).0,
        feed_model(st, a + b).1 == feed_model(st, a).1 + feed_model(feed_model(st, a).0, b).1,
    decreases a.len(),
{
    if a.len() == 0 {
        assert(a + b =~= b);
        assert(feed_model(st, a).1 + feed_model(feed_model(st, a).0, b).1 =~= feed_model(
            st,
            b,
        ).1);
    } else {
        assert((a + b)[0] == a[0]);
        assert((a + b).drop_first() =~= a.drop_first() + b);
        let first = byte_step(st, a[0]);
        lemma_feed_split(first.0, a.drop_first(), b);
        assert(feed_model(st, a + b).1 =~= feed_model(st, a).1 + feed_model(
            feed_model(st, a).0,
            b,
        ).1);
    }
}

/// Bytes without a newline only extend the buffered partial record.
pub proof fn lemma_feed_no_newline(st: DecoderView, s: Seq<u8>)
    requires
        !st.done,
        forall|i: int| 0 <= i < s.len() ==> s[i] != 10u8,
    ensures
        feed_model(st, s).0 == (DecoderView { buf: st.buf + s, done: false }),
        feed_model(st, s).1 == Seq::<Seq<char>>::empty(),
    decreases s.len(),
{
    if s.len() == 0 {
        assert(st.buf + s =~= st.buf);
        assert(st =~= DecoderView { buf: st.buf + s, done: false });
    } else {
        let first = byte_step(st, s[0]);
        assert(forall|i: int| 0 <= i < s.drop_first().len() ==> s.drop_first()[i] != 10u8);
        lemma_feed_no_newline(first.0, s.drop_first());
        assert(st.buf.push(s[0]) + s.drop_first() =~= st.buf + s);
        assert(feed_model(st, s).1 =~= Seq::<Seq<char>>::empty());
    }
}

/// A malformed record is dropped and never ends the stream: feeding one
/// complete record that neither carries a fragment nor is the sentinel
/// returns the decoder to exactly the state it started in, with no output.
/// By [`lemma_feed_split`], the rest of the stream then decodes as if the
/// malformed record had never arrived.
pub proof fn lemma_malformed_record_dropped(st: DecoderView, line: Seq<u8>)
    requires
        !st.done,
        st.buf.len() == 0,
        forall|i: int| 0 <= i < line.len() ==> line[i] != 10u8,
        record_fragment(line) is None,
        !is_sentinel_record(line),
    ensures
        feed_model(st, line.push(10u8)).0 == st,
        feed_model(st, line.push(10u8)).1 == Seq::<Seq<char>>::empty(),
{
    lemma_feed_no_newline(st, line);
    lemma_feed_snoc(st, line, 10u8);
    assert(st.buf + line =~= line);
    assert(feed_model(st, line.push(10u8)).0 =~= st);
    assert(feed_model(st, line.push(10u8)).1 =~= Seq::<Seq<char>>::empty());
}

/// Decodes the backend's event stream incrementally.
pub struct StreamDecoder {
    buf: Vec<u8>,
    done: bool,
}

impl View for StreamDecoder {
    type V = DecoderView;

    closed spec fn view(&self) -> DecoderView {
        DecoderView { buf: self.buf@, done: self.done }
    }
}

impl StreamDecoder {
    /// A decoder with nothing buffered and the stream still open.
    pub fn new() -> (r: StreamDecoder)
        ensures
            r@ == (DecoderView { buf: Seq::<u8>::empty(), done: false }),
    {
        let r = StreamDecoder { buf: Vec::new(), done: false };
        proof {
            assert(r@ =~= DecoderView { buf: Seq::<u8>::empty(), done: false });
        }
        r
    }

    /// Whether the sentinel has ended the stream.
    pub fn is_done(&self) -> (r: bool)
        ensures
            r == self@.done,
    {
        self.done
    }

    /// Decodes the buffered record when a newline completes it: clears the
    /// buffer, notes the sentinel, and hands out the fragment, if any.
    fn process_line(&mut self) -> (frag: Option<String>)
        requires
            !old(self)@.done,
        ensures
            final(self)@.buf == Seq::<u8>::empty(),
            final(self)@.done == is_sentinel_record(old(self)@.buf),
            match frag {
                Some(f) => record_fragment(old(self)@.buf) == Some(f@),
                None => record_fragment(old(self)@.buf) is None,
            },
    {
        let ghost line = self@.buf;
        let len = self.buf.len();
        if len > 0 && self.buf[len - 1] == 13 {
            let _ = self.buf.pop();
        }
        proof {
            assert(self@.buf =~= strip_cr(line));
        }
        let slen = self.buf.len();
        let is_data = slen >= 6 && self.buf[0] == 100 && self.buf[1] == 97 && self.buf[2] == 116
            && self.buf[3] == 97 && self.buf[4] == 58 && self.buf[5] == 32;
        proof {
            if is_data {
                assert(strip_cr(line).take(6) =~= data_prefix());
            } else if strip_cr(line).len() >= 6 && strip_cr(line).take(6) == data_prefix() {
                assert(strip_cr(line)[0] == data_prefix()[0]);
                assert(strip_cr(line)[1] == data_prefix()[1]);
                assert(strip_cr(line)[2] == data_prefix()[2]);
                assert(strip_cr(line)[3] == data_prefix()[3]);
                assert(strip_cr(line)[4] == data_prefix()[4]);
                assert(strip_cr(line)[5] == data_prefix()[5]);
            }
            assert(is_data == is_data_record(line));
        }
        if !is_data {
            self.buf.clear();
            return None;
        }
        let payload = vstd::slice::slice_to_vec(
            vstd::slice::slice_subrange(self.buf.as_slice(), 6, slen),
        );
        proof {
            assert(payload@ =~= record_payload(line));
        }
        self.buf.clear();
        let is_sent = payload.len() == 6 && payload[0] == 91 && payload[1] == 68 && payload[2]
            == 79 && payload[3] == 78 && payload[4] == 69 && payload[5] == 93;
        proof {
            if is_sent {
                assert(payload@ =~= sentinel());
            } else if record_payload(line) == sentinel() {
                assert(payload@[0] == sentinel()[0]);
                assert(payload@[1] == sentinel()[1]);
                assert(payload@[2] == sentinel()[2]);
                assert(payload@[3] == sentinel()[3]);
                assert(payload@[4] == sentinel()[4]);
                assert(payload@[5] == sentinel()[5]);
            }
            assert(is_sent == is_sentinel_record(line));
        }
        if is_sent {
            self.done = true;
            return None;
        }
        parse_chunk_content(payload.as_slice())
    }

    /// Applies one transport chunk and returns the fragments it completes,
    /// in order.  The decoder state and the output follow [`feed_model`]
    /// exactly, so cutting the stream into different chunks changes nothing.
    pub fn feed(&mut self, chunk: &[u8]) -> (frags: Vec<String>)
        ensures
            final(self)@ == feed_model(old(self)@, chunk@).0,
            frags@.map_values(|s: String| s@) == feed_model(old(self)@, chunk@).1,
    {
        let ghost st0 = self@;
        let mut frags: Vec<String> = Vec::new();
        let n = chunk.len();
        let mut i: usize = 0;
        proof {
            assert(chunk@.take(0) =~= Seq::<u8>::empty());
            assert(frags@.map_values(|s: String| s@) =~= Seq::<Seq<char>>::empty());
        }
        while i < n
            invariant
                i <= n,
                n == chunk@.len(),
                self@ == feed_model(st0, chunk@.take(i as int)).0,
                frags@.map_values(|s: String| s@) == feed_model(st0, chunk@.take(i as int)).1,
            decreases n - i,
        {
            let ghost pre = self@;
            let ghost prefrags = frags@.map_values(|s: String| s@);
            let b = chunk[i];
            proof {
                lemma_feed_snoc(st0, chunk@.take(i as int), b);
                assert(chunk@.take(i as int).push(b) =~= chunk@.take(i as int + 1));
            }
            if self.done {
                // after the sentinel everything is ignored
            } else if b == 10 {
                let frag = self.process_line();
                if let Some(f) = frag {
                    frags.push(f);
                    proof {
                        assert(frags@.map_values(|s: String| s@) =~= prefrags.push(f@));
                    }
                }
            } else {
                self.buf.push(b);
                proof {
                    assert(self@ =~= DecoderView { buf: pre.buf.push(b), done: false });
                }
            }
            proof {
                assert(self@ =~= byte_step(pre, b).0);
                assert(frags@.map_values(|s: String| s@) =~= prefrags + byte_step(pre, b).1);
            }
            i = i + 1;
        }
        proof {
            assert(chunk@.take(n as int) =~= chunk@);
        }
        frags
    }

    /// Ends the stream: a leftover partial record is decoded as a final
    /// record, matching [`finish_model`].
    pub fn finish(&mut self) -> (frag: Option<String>)
        ensures
            final(self)@ == finish_model(old(self)@).0,
            match frag {
                Some(f) => finish_model(old(self)@).1 == seq![f@],
                None => finish_model(old(self)@).1 == Seq::<Seq<char>>::empty(),
            },
    {
        if self.done || self.buf.len() == 0 {
            self.buf.clear();
            proof {
                assert(final(self)@ =~= finish_model(old(self)@).0);
            }
            return None;
        }
        let frag = self.process_line();
        frag
    }
}

} // verus!
