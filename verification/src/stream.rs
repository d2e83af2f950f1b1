//! The reducer of one completion stream: it takes the body chunk by chunk
//! and hands out the assembled answer when the stream ends.
//!
//! Bytes that do not yet make a whole line are kept until the line feed
//! arrives, so a line, or a character of several bytes, may be cut
//! anywhere between two chunks.

use crate::error::ClientError;
use crate::http::{is_success, status_is_success};
use crate::body::{
    body_answer, lines_answer, law_body_is_text_when_lines_are, lemma_answer_concat,
    lemma_answer_empty, lemma_answer_single,
};
use crate::lines::{
    closed_lines, last_line, lemma_lines_concat, lemma_lines_push, lemma_no_feed_no_line,
    lemma_open_line_has_no_feed, no_line_feed, open_line, without_return, CARRIAGE_RETURN,
    LINE_FEED,
};
use crate::sse::{line_fragment, parse_line};
use vstd::prelude::*;
use vstd::utf8::{decode_utf8, encode_utf8, valid_utf8};

verus! {

/// The chunks of a body, each by the bytes that it holds.
pub open spec fn chunks_view(chunks: Seq<Vec<u8>>) -> Seq<Seq<u8>> {
    chunks.map_values(|chunk: Vec<u8>| chunk@)
}

/// The state of a stream, as a mathematical value.
pub enum StreamModel {
    /// The response was accepted and the body is being received.
    Streaming {
        /// The bytes of the line that is not closed yet.
        pending: Seq<u8>,
        /// What the closed lines have added up to.
        answer: Seq<char>,
    },
    /// The stream has failed; it stays so.
    Failed(ClientError),
}

impl StreamModel {
    /// Whether the state is one that a stream can be in: the bytes kept
    /// back hold no line feed.
    pub open spec fn wf(self) -> bool {
        match self {
            StreamModel::Streaming { pending, answer } => no_line_feed(pending),
            StreamModel::Failed(_) => true,
        }
    }

    /// The state in which a stream starts: nothing received.
    pub open spec fn start() -> StreamModel {
        StreamModel::Streaming { pending: Seq::empty(), answer: Seq::empty() }
    }

    /// The state after one more chunk. The lines that the chunk closes add
    /// their fragments; a closed line that is not text fails the stream.
    pub open spec fn push_chunk(self, chunk: Seq<u8>) -> StreamModel {
        match self {
            StreamModel::Streaming { pending, answer } => match lines_answer(
                closed_lines(pending + chunk),
            ) {
                Some(text) => StreamModel::Streaming {
                    pending: open_line(pending + chunk),
                    answer: answer + text,
                },
                None => StreamModel::Failed(ClientError::Encoding),
            },
            StreamModel::Failed(error) => StreamModel::Failed(error),
        }
    }

    /// The state after the chunks of a sequence, one after the other.
    pub open spec fn feed(self, chunks: Seq<Seq<u8>>) -> StreamModel
        decreases chunks.len(),
    {
        if chunks.len() == 0 {
            self
        } else {
            self.feed(chunks.drop_last()).push_chunk(chunks.last())
        }
    }

    /// The state after the transport has failed. An earlier failure stays.
    pub open spec fn abort(self) -> StreamModel {
        match self {
            StreamModel::Streaming { .. } => StreamModel::Failed(ClientError::Transport),
            StreamModel::Failed(error) => StreamModel::Failed(error),
        }
    }

    /// The failure of the stream, if it has failed.
    pub open spec fn health(self) -> Result<(), ClientError> {
        match self {
            StreamModel::Streaming { .. } => Ok(()),
            StreamModel::Failed(error) => Err(error),
        }
    }

    /// The outcome when the server closes the stream: the answer, to which
    /// the open line adds its fragment, or the failure.
    pub open spec fn finish(self) -> Result<Seq<char>, ClientError> {
        match self {
            StreamModel::Streaming { pending, answer } => match lines_answer(last_line(pending)) {
                Some(text) => Ok(answer + text),
                None => Err(ClientError::Encoding),
            },
            StreamModel::Failed(error) => Err(error),
        }
    }
}

/// The outcome of a whole response: a status that is no success is a
/// transport failure whatever the body holds; else the answer of the body
/// that the chunks make up.
pub open spec fn response_answer(status: u16, chunks: Seq<Seq<u8>>) -> Result<
    Seq<char>,
    ClientError,
> {
    if is_success(status) {
        body_answer(chunks.flatten())
    } else {
        Err(ClientError::Transport)
    }
}

/// A response whose status is no success has no answer, whatever has
/// arrived of its body.
pub proof fn law_refused_response_has_no_answer(status: u16, chunks: Seq<Seq<u8>>)
    requires
        !is_success(status),
    ensures
        response_answer(status, chunks) == Err::<Seq<char>, ClientError>(ClientError::Transport),
{
}

/// A stream whose transport has failed yields no answer, whatever had
/// arrived before and whatever arrives after.
pub proof fn law_aborted_stream_has_no_answer(state: StreamModel, chunks: Seq<Seq<u8>>)
    ensures
        state.abort() is Failed,
        state.abort().feed(chunks) == state.abort(),
        state.abort().feed(chunks).finish() is Err,
    decreases chunks.len(),
{
    if chunks.len() > 0 {
        law_aborted_stream_has_no_answer(state, chunks.drop_last());
    }
}

/// The characters of an answer.
pub open spec fn answer_view(outcome: Result<String, ClientError>) -> Result<
    Seq<char>,
    ClientError,
> {
    match outcome {
        Ok(answer) => Ok(answer@),
        Err(error) => Err(error),
    }
}

/// Where a stream is cut into chunks does not matter: two chunks leave it
/// in the state in which the two as one chunk leave it.
pub proof fn law_chunk_boundary_is_invisible(state: StreamModel, first: Seq<u8>, second: Seq<u8>)
    ensures
        state.push_chunk(first).push_chunk(second) == state.push_chunk(first + second),
{
    match state {
        StreamModel::Streaming { pending, answer } => {
            let carried = open_line(pending + first);
            assert(pending + (first + second) =~= (pending + first) + second);
            lemma_lines_concat(pending + first, second);
            lemma_answer_concat(closed_lines(pending + first), closed_lines(carried + second));
            match (lines_answer(closed_lines(pending + first)), lines_answer(closed_lines(carried + second))) {
                (Some(a), Some(b)) => {
                    assert((answer + a) + b =~= answer + (a + b));
                },
                _ => {},
            }
        },
        StreamModel::Failed(_) => {},
    }
}

/// Feeding chunks one by one leaves a stream where their concatenation as
/// one chunk leaves it.
pub proof fn law_feed_is_one_chunk(state: StreamModel, chunks: Seq<Seq<u8>>)
    requires
        state.wf(),
    ensures
        state.feed(chunks) == state.push_chunk(chunks.flatten()),
    decreases chunks.len(),
{
    if chunks.len() == 0 {
        lemma_empty_chunk(state);
    } else {
        let front = chunks.drop_last();
        law_feed_is_one_chunk(state, front);
        law_chunk_boundary_is_invisible(state, front.flatten(), chunks.last());
        assert(front.push(chunks.last()) =~= chunks);
        front.lemma_flatten_push(chunks.last());
    }
}

/// An empty chunk changes nothing.
pub proof fn lemma_empty_chunk(state: StreamModel)
    requires
        state.wf(),
    ensures
        state.push_chunk(Seq::empty()) == state,
{
    match state {
        StreamModel::Streaming { pending, answer } => {
            assert(pending + Seq::<u8>::empty() =~= pending);
            lemma_no_feed_no_line(pending);
            lemma_answer_empty();
            assert(answer + Seq::<char>::empty() =~= answer);
        },
        StreamModel::Failed(_) => {},
    }
}

/// A chunk leaves a stream in a state that a stream can be in.
pub proof fn lemma_push_chunk_wf(state: StreamModel, chunk: Seq<u8>)
    ensures
        state.push_chunk(chunk).wf(),
{
    match state {
        StreamModel::Streaming { pending, answer } => {
            lemma_open_line_has_no_feed(pending + chunk);
        },
        StreamModel::Failed(_) => {},
    }
}

/// A stream that is fed from its start and then closed answers as the body
/// that the chunks make up, however the body was cut.
pub proof fn law_stream_answers_for_body(chunks: Seq<Seq<u8>>)
    ensures
        StreamModel::start().feed(chunks).finish() == body_answer(chunks.flatten()),
        StreamModel::start().feed(chunks).finish() == StreamModel::start().feed(
            seq![chunks.flatten()],
        ).finish(),
{
    let body = chunks.flatten();
    law_feed_is_one_chunk(StreamModel::start(), chunks);
    law_feed_is_one_chunk(StreamModel::start(), seq![body]);
    seq![body].lemma_flatten_one_element();
    assert(Seq::<u8>::empty() + body =~= body);
    law_body_is_text_when_lines_are(body);
    lemma_answer_concat(closed_lines(body), last_line(open_line(body)));
    match lines_answer(closed_lines(body)) {
        Some(text) => {
            assert(Seq::<char>::empty() + text =~= text);
        },
        None => {},
    }
}

/// `core::str::from_utf8`: the text that the bytes encode, and `None`
/// exactly where the bytes are not valid UTF-8.
#[verifier::external_body]
fn text_of_bytes(bytes: &[u8]) -> (r: Option<&str>)
    ensures
        r is Some <==> valid_utf8(bytes@),
        r matches Some(text) ==> encode_utf8(text@) == bytes@,
{
    match core::str::from_utf8(bytes) {
        Ok(text) => Some(text),
        Err(_) => None,
    }
}

/// Adds the fragment of one line to an answer. Returns whether the line is
/// text; an answer is left as it was by a line that is not.
pub fn append_line(answer: &mut String, line: &[u8]) -> (is_text: bool)
    ensures
        is_text == valid_utf8(line@),
        is_text ==> final(answer)@ == old(answer)@ + line_fragment(decode_utf8(line@)),
        !is_text ==> final(answer)@ == old(answer)@,
{
    broadcast use vstd::utf8::encode_utf8_decode_utf8;

    match text_of_bytes(line) {
        Some(text) => {
            assert(decode_utf8(encode_utf8(text@)) == text@);
            let parsed = parse_line(text);
            answer.append(parsed.fragment());
            true
        },
        None => false,
    }
}

/// Takes one chunk into the bytes kept back and the answer so far. Returns
/// whether every line that the chunk closed was text.
fn feed_chunk(pending: &mut Vec<u8>, answer: &mut String, chunk: &[u8]) -> (is_text: bool)
    requires
        no_line_feed(old(pending)@),
    ensures
        is_text ==> no_line_feed(final(pending)@),
        (StreamModel::Streaming { pending: old(pending)@, answer: old(answer)@ }).push_chunk(
            chunk@,
        ) == if is_text {
            StreamModel::Streaming { pending: final(pending)@, answer: final(answer)@ }
        } else {
            StreamModel::Failed(ClientError::Encoding)
        },
{
    let ghost held = pending@;
    let ghost before = answer@;
    let ghost start = StreamModel::Streaming { pending: held, answer: before };
    proof {
        lemma_empty_chunk(start);
        assert(chunk@.take(0) =~= Seq::<u8>::empty());
    }
    let mut i: usize = 0;
    while i < chunk.len()
        invariant
            i <= chunk@.len(),
            held == old(pending)@,
            before == old(answer)@,
            start == (StreamModel::Streaming { pending: held, answer: before }),
            no_line_feed(pending@),
            start.push_chunk(chunk@.take(i as int)) == (StreamModel::Streaming {
                pending: pending@,
                answer: answer@,
            }),
        decreases chunk@.len() - i,
    {
        let byte = chunk[i];
        let ghost seen = held + chunk@.take(i as int);
        let ghost lines = closed_lines(seen);
        proof {
            assert(held + chunk@.take(i + 1) =~= seen.push(byte));
            lemma_lines_push(seen, byte);
        }
        if byte == LINE_FEED {
            let n = pending.len();
            if n > 0 && pending[n - 1] == CARRIAGE_RETURN {
                pending.pop();
            }
            let ghost line = pending@;
            proof {
                assert(line == without_return(open_line(seen)));
                assert(lines.push(line) =~= lines + seq![line]);
                lemma_answer_concat(lines, seq![line]);
                lemma_answer_single(line);
            }
            if append_line(answer, pending.as_slice()) {
                pending.clear();
                proof {
                    let text = lines_answer(lines)->0;
                    let fragment = line_fragment(decode_utf8(line));
                    assert((before + text) + fragment =~= before + (text + fragment));
                }
            } else {
                proof {
                    let taken = chunk@.take(i + 1);
                    let rest = chunk@.skip(i + 1);
                    assert(taken + rest =~= chunk@);
                    assert(start.push_chunk(taken) == StreamModel::Failed(ClientError::Encoding));
                    law_chunk_boundary_is_invisible(start, taken, rest);
                }
                return false;
            }
        } else {
            pending.push(byte);
        }
        i += 1;
    }
    proof {
        assert(chunk@.take(i as int) =~= chunk@);
    }
    true
}

/// One completion stream that is being received.
#[derive(Debug)]
pub struct CompletionStream {
    pending: Vec<u8>,
    answer: String,
    failure: Option<ClientError>,
}

impl View for CompletionStream {
    type V = StreamModel;

    closed spec fn view(&self) -> StreamModel {
        match self.failure {
            Some(error) => StreamModel::Failed(error),
            None => StreamModel::Streaming { pending: self.pending@, answer: self.answer@ },
        }
    }
}

impl CompletionStream {
    #[verifier::type_invariant]
    spec fn kept_bytes_are_one_line(self) -> bool {
        self.failure is None ==> no_line_feed(self.pending@)
    }

    /// Starts a stream on the status of the response. A status that is no
    /// success is a transport failure: no stream starts.
    pub fn begin(status: u16) -> (r: Result<CompletionStream, ClientError>)
        ensures
            match r {
                Ok(stream) => is_success(status) && stream@ == StreamModel::start(),
                Err(error) => !is_success(status) && error == ClientError::Transport,
            },
    {
        if status_is_success(status) {
            Ok(CompletionStream { pending: Vec::new(), answer: String::new(), failure: None })
        } else {
            Err(ClientError::Transport)
        }
    }

    /// Takes the next chunk of the body. Fails, now and on every later
    /// call, once a closed line is not text.
    pub fn push_chunk(&mut self, chunk: &[u8]) -> (r: Result<(), ClientError>)
        ensures
            final(self)@ == old(self)@.push_chunk(chunk@),
            final(self)@.wf(),
            r == final(self)@.health(),
    {
        if let Some(error) = self.failure {
            return Err(error);
        }
        proof {
            use_type_invariant(&*self);
            lemma_push_chunk_wf(self@, chunk@);
        }
        let mut pending: Vec<u8> = Vec::new();
        let mut answer = String::new();
        core::mem::swap(&mut self.pending, &mut pending);
        core::mem::swap(&mut self.answer, &mut answer);
        if feed_chunk(&mut pending, &mut answer, chunk) {
            self.pending = pending;
            self.answer = answer;
            Ok(())
        } else {
            self.failure = Some(ClientError::Encoding);
            Err(ClientError::Encoding)
        }
    }

    /// Records that the transport has failed. Returns the failure that the
    /// stream now stands for; an earlier one is kept.
    pub fn abort(&mut self) -> (error: ClientError)
        ensures
            final(self)@ == old(self)@.abort(),
            final(self)@ == StreamModel::Failed(error),
    {
        match self.failure {
            Some(error) => error,
            None => {
                self.failure = Some(ClientError::Transport);
                ClientError::Transport
            },
        }
    }

    /// Ends the stream when the server has closed it, and hands out the
    /// answer.
    pub fn finish(self) -> (r: Result<String, ClientError>)
        ensures
            answer_view(r) == self@.finish(),
    {
        let CompletionStream { pending, answer, failure } = self;
        if let Some(error) = failure {
            return Err(error);
        }
        let mut answer = answer;
        proof {
            lemma_answer_empty();
            lemma_answer_single(pending@);
            assert(answer@ + Seq::<char>::empty() =~= answer@);
        }
        if pending.len() > 0 {
            if !append_line(&mut answer, pending.as_slice()) {
                return Err(ClientError::Encoding);
            }
        }
        Ok(answer)
    }
}

/// Reduces a whole response, of which every chunk has arrived, to its
/// answer.
pub fn assemble(status: u16, chunks: &Vec<Vec<u8>>) -> (r: Result<String, ClientError>)
    ensures
        answer_view(r) == response_answer(status, chunks_view(chunks@)),
{
    let mut stream = match CompletionStream::begin(status) {
        Ok(stream) => stream,
        Err(error) => {
            return Err(error);
        },
    };
    let ghost all = chunks_view(chunks@);
    proof {
        assert(all.take(0) =~= Seq::<Seq<u8>>::empty());
    }
    let mut k: usize = 0;
    while k < chunks.len()
        invariant
            k <= chunks@.len(),
            is_success(status),
            all == chunks_view(chunks@),
            stream@ == StreamModel::start().feed(all.take(k as int)),
        decreases chunks@.len() - k,
    {
        proof {
            assert(all.take(k + 1).drop_last() =~= all.take(k as int));
            assert(all.take(k + 1).last() == chunks@[k as int]@);
        }
        match stream.push_chunk(chunks[k].as_slice()) {
            Ok(()) => {},
            Err(error) => {
                proof {
                    let taken = all.take(k + 1);
                    let rest = all.skip(k + 1);
                    assert(taken + rest =~= all);
                    vstd::seq_lib::lemma_flatten_concat(taken, rest);
                    law_stream_answers_for_body(all);
                    law_feed_is_one_chunk(StreamModel::start(), all);
                    law_feed_is_one_chunk(StreamModel::start(), taken);
                    law_chunk_boundary_is_invisible(
                        StreamModel::start(),
                        taken.flatten(),
                        rest.flatten(),
                    );
                }
                return Err(error);
            },
        }
        k += 1;
    }
    proof {
        assert(all.take(k as int) =~= all);
        law_stream_answers_for_body(all);
    }
    stream.finish()
}

} // verus!
