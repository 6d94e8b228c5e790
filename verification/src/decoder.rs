//! Stream decoder: it takes the backend's answer chunk by chunk, cuts it into
//! lines wherever the chunks were cut, and reads from each line the piece of
//! text and the conversation context that it carries.

use crate::fragment::{decode_text, text_fragment, DecodeError, Fragment, FragmentView};
use crate::text::{integers_view, lossy_text, texts, utf8_lossy};
use vstd::prelude::*;

verus! {

/// The byte that ends a line.
pub const LINE_BREAK: u8 = 0x0A;

/// Bytes cut into lines: the lines that a line break has ended, and what
/// follows the last line break.
pub struct Framing {
    pub lines: Seq<Seq<u8>>,
    pub partial: Seq<u8>,
}

/// Cuts `bytes` into lines, reading them in order: a line break ends the line
/// at hand, any other byte is added to it.
pub open spec fn frame(bytes: Seq<u8>) -> Framing
    decreases bytes.len(),
{
    if bytes.len() == 0 {
        Framing { lines: Seq::empty(), partial: Seq::empty() }
    } else {
        let before = frame(bytes.drop_last());
        if bytes.last() == LINE_BREAK {
            Framing { lines: before.lines.push(before.partial), partial: Seq::empty() }
        } else {
            Framing { lines: before.lines, partial: before.partial.push(bytes.last()) }
        }
    }
}

/// The bytes of `lines`, each line followed by a line break.
pub open spec fn broken_lines(lines: Seq<Seq<u8>>) -> Seq<u8>
    decreases lines.len(),
{
    if lines.len() == 0 {
        Seq::empty()
    } else {
        broken_lines(lines.drop_last()) + lines.last().push(LINE_BREAK)
    }
}

/// All the lines of an answer that has ended: those that a line break ended
/// and, where bytes follow the last line break, those bytes as a last line.
pub open spec fn stream_lines(bytes: Seq<u8>) -> Seq<Seq<u8>> {
    let framing = frame(bytes);
    if framing.partial.len() == 0 {
        framing.lines
    } else {
        framing.lines.push(framing.partial)
    }
}

/// Whether `bytes` hold no line break.
pub open spec fn unbroken(bytes: Seq<u8>) -> bool {
    forall|i: int| 0 <= i < bytes.len() ==> bytes[i] != LINE_BREAK
}

/// What a line of bytes carries: the bytes are read as text, the text as a
/// JSON document.
pub open spec fn line_fragment(line: Seq<u8>) -> Result<FragmentView, DecodeError> {
    text_fragment(utf8_lossy(line))
}

/// What has been decoded of an answer: the pieces of text in their order, and
/// the conversation context that came last.
pub struct Transcript {
    pub deltas: Seq<Seq<char>>,
    pub context: Option<Seq<i64>>,
}

impl Transcript {
    /// The transcript of an answer of which nothing has been read.
    pub open spec fn empty() -> Transcript {
        Transcript { deltas: Seq::empty(), context: None }
    }

    /// The transcript after one more fragment: its text is added, and its
    /// context takes the place of the one before.
    pub open spec fn absorb(self, fragment: FragmentView) -> Transcript {
        Transcript {
            deltas: match fragment.delta {
                Some(delta) => self.deltas.push(delta),
                None => self.deltas,
            },
            context: match fragment.context {
                Some(context) => Some(context),
                None => self.context,
            },
        }
    }
}

/// Decodes `lines` in order, starting from `start`. The first line that cannot
/// be decoded ends the decoding with its error.
pub open spec fn decode_lines(lines: Seq<Seq<u8>>, start: Transcript) -> Result<
    Transcript,
    DecodeError,
>
    decreases lines.len(),
{
    if lines.len() == 0 {
        Ok(start)
    } else {
        match decode_lines(lines.drop_last(), start) {
            Err(error) => Err(error),
            Ok(transcript) => match line_fragment(lines.last()) {
                Err(error) => Err(error),
                Ok(fragment) => Ok(transcript.absorb(fragment)),
            },
        }
    }
}

/// What an answer carries when it is read as one buffer.
pub open spec fn decode_stream(bytes: Seq<u8>) -> Result<Transcript, DecodeError> {
    decode_lines(stream_lines(bytes), Transcript::empty())
}

/// The decoder as a mathematical value.
pub struct DecoderView {
    /// The bytes since the last line break.
    pub partial: Seq<u8>,
    /// The conversation context that came last.
    pub context: Option<Seq<i64>>,
    /// The error that ended the decoding.
    pub failure: Option<DecodeError>,
}

/// A decoder after a chunk, and the pieces of text that the chunk completed.
pub struct Fed {
    pub decoder: DecoderView,
    pub outcome: Result<Seq<Seq<char>>, DecodeError>,
}

impl DecoderView {
    /// The decoder before the first chunk.
    pub open spec fn fresh() -> DecoderView {
        DecoderView { partial: Seq::empty(), context: None, failure: None }
    }

    /// The decoder after the error `error`.
    pub open spec fn failed(error: DecodeError) -> DecoderView {
        DecoderView { partial: Seq::empty(), context: None, failure: Some(error) }
    }

    /// A decoder holds no line break; a failed one holds nothing.
    pub open spec fn wf(self) -> bool {
        &&& unbroken(self.partial)
        &&& self.failure is Some ==> self.partial.len() == 0 && self.context is None
    }

    /// The decoder takes `chunk`: the lines that it completes are decoded in
    /// order, and what follows its last line break is kept. A line that cannot
    /// be decoded fails the decoder, and a failed decoder stays failed.
    pub open spec fn feed(self, chunk: Seq<u8>) -> Fed {
        match self.failure {
            Some(error) => Fed { decoder: self, outcome: Err(error) },
            None => {
                let framing = frame(self.partial + chunk);
                let start = Transcript { deltas: Seq::empty(), context: self.context };
                match decode_lines(framing.lines, start) {
                    Err(error) => Fed { decoder: DecoderView::failed(error), outcome: Err(error) },
                    Ok(transcript) => Fed {
                        decoder: DecoderView {
                            partial: framing.partial,
                            context: transcript.context,
                            failure: None,
                        },
                        outcome: Ok(transcript.deltas),
                    },
                }
            },
        }
    }

    /// The answer has ended: bytes that follow the last line break are decoded
    /// as a last line. The transcript holds the text of that line, if any, and
    /// the conversation context that came last.
    pub open spec fn finish(self) -> Result<Transcript, DecodeError> {
        match self.failure {
            Some(error) => Err(error),
            None => {
                let start = Transcript { deltas: Seq::empty(), context: self.context };
                if self.partial.len() == 0 {
                    Ok(start)
                } else {
                    match line_fragment(self.partial) {
                        Err(error) => Err(error),
                        Ok(fragment) => Ok(start.absorb(fragment)),
                    }
                }
            },
        }
    }

    /// The decoder takes `chunks` one after another; the pieces of text of all
    /// of them are gathered in order.
    pub open spec fn feed_all(self, chunks: Seq<Seq<u8>>) -> Fed
        decreases chunks.len(),
    {
        if chunks.len() == 0 {
            Fed { decoder: self, outcome: Ok(Seq::empty()) }
        } else {
            let before = self.feed_all(chunks.drop_last());
            match before.outcome {
                Err(_) => before,
                Ok(deltas) => {
                    let step = before.decoder.feed(chunks.last());
                    match step.outcome {
                        Err(error) => Fed { decoder: step.decoder, outcome: Err(error) },
                        Ok(more) => Fed { decoder: step.decoder, outcome: Ok(deltas + more) },
                    }
                },
            }
        }
    }
}

/// The bytes of `chunks`, one chunk after another.
pub open spec fn joined(chunks: Seq<Seq<u8>>) -> Seq<u8>
    decreases chunks.len(),
{
    if chunks.len() == 0 {
        Seq::empty()
    } else {
        joined(chunks.drop_last()) + chunks.last()
    }
}

/// What a fresh decoder makes of an answer that arrives as `chunks` and then
/// ends.
pub open spec fn decode_chunks(chunks: Seq<Seq<u8>>) -> Result<Transcript, DecodeError> {
    let fed = DecoderView::fresh().feed_all(chunks);
    match fed.outcome {
        Err(error) => Err(error),
        Ok(deltas) => match fed.decoder.finish() {
            Err(error) => Err(error),
            Ok(last) => Ok(Transcript { deltas: deltas + last.deltas, context: last.context }),
        },
    }
}

/// Decodes one line of the answer.
pub fn decode_line(line: &[u8]) -> (outcome: Result<Fragment, DecodeError>)
    ensures
        match outcome {
            Ok(fragment) => line_fragment(line@) == Ok::<FragmentView, DecodeError>(fragment@),
            Err(error) => line_fragment(line@) == Err::<FragmentView, DecodeError>(error),
        },
{
    let text = lossy_text(line);
    decode_text(text.as_str())
}

/// The end of an answer: the text of its last line, where that line was not
/// ended by a line break, and the conversation context that the answer gave.
#[derive(Debug, PartialEq, Eq)]
pub struct Completion {
    pub deltas: Vec<String>,
    pub context: Option<Vec<i64>>,
}

impl View for Completion {
    type V = Transcript;

    open spec fn view(&self) -> Transcript {
        Transcript { deltas: texts(self.deltas@), context: integers_view(self.context) }
    }
}

/// Decodes one answer of the backend, chunk by chunk.
pub struct StreamDecoder {
    partial: Vec<u8>,
    context: Option<Vec<i64>>,
    failure: Option<DecodeError>,
}

impl View for StreamDecoder {
    type V = DecoderView;

    closed spec fn view(&self) -> DecoderView {
        DecoderView {
            partial: self.partial@,
            context: integers_view(self.context),
            failure: self.failure,
        }
    }
}

impl StreamDecoder {
    /// The decoder's invariant: its view is well formed.
    pub open spec fn wf(&self) -> bool {
        self@.wf()
    }

    /// A decoder for a new answer.
    pub fn new() -> (decoder: StreamDecoder)
        ensures
            decoder.wf(),
            decoder@ == DecoderView::fresh(),
    {
        StreamDecoder { partial: Vec::new(), context: None, failure: None }
    }

    /// Takes the next chunk and returns the pieces of text of the lines that
    /// it completes, in their order. Where one of these lines cannot be
    /// decoded, its error is returned in place of any text, and every later
    /// call returns that error again.
    pub fn feed(&mut self, chunk: &[u8]) -> (outcome: Result<Vec<String>, DecodeError>)
        requires
            old(self).wf(),
        ensures
            final(self).wf(),
            final(self)@ == old(self)@.feed(chunk@).decoder,
            match outcome {
                Ok(deltas) => old(self)@.feed(chunk@).outcome == Ok::<Seq<Seq<char>>, DecodeError>(
                    texts(deltas@),
                ),
                Err(error) => old(self)@.feed(chunk@).outcome == Err::<
                    Seq<Seq<char>>,
                    DecodeError,
                >(error),
            },
    {
        if let Some(error) = self.failure {
            return Err(error);
        }
        let ghost held = self.partial@;
        let ghost start = Transcript { deltas: Seq::empty(), context: integers_view(self.context) };
        let mut deltas: Vec<String> = Vec::new();
        let n: usize = chunk.len();
        let mut i: usize = 0;
        proof {
            lemma_frame_of_unbroken(held);
            assert(texts(deltas@) =~= Seq::<Seq<char>>::empty());
        }
        while i < n
            invariant
                i <= n,
                n == chunk@.len(),
                held == old(self)@.partial,
                start == (Transcript { deltas: Seq::empty(), context: old(self)@.context }),
                old(self)@.failure is None,
                self.failure is None,
                self.partial@ == frame(held + chunk@.take(i as int)).partial,
                decode_lines(frame(held + chunk@.take(i as int)).lines, start) == Ok::<
                    Transcript,
                    DecodeError,
                >(Transcript { deltas: texts(deltas@), context: integers_view(self.context) }),
            decreases n - i,
        {
            let byte: u8 = chunk[i];
            let ghost seen = held + chunk@.take(i as int);
            let ghost next = held + chunk@.take(i + 1);
            let ghost before = Transcript {
                deltas: texts(deltas@),
                context: integers_view(self.context),
            };
            proof {
                assert(next.drop_last() =~= seen);
            }
            if byte == LINE_BREAK {
                proof {
                    assert(frame(next).lines.drop_last() =~= frame(seen).lines);
                }
                match decode_line(self.partial.as_slice()) {
                    Err(error) => {
                        self.partial = Vec::new();
                        self.context = None;
                        self.failure = Some(error);
                        proof {
                            let rest = chunk@.skip(i + 1);
                            assert(decode_lines(frame(next).lines, start) == Err::<
                                Transcript,
                                DecodeError,
                            >(error));
                            assert(next + rest =~= held + chunk@);
                            lemma_frame_append(next, rest);
                            lemma_decode_lines_append(
                                frame(next).lines,
                                frame(frame(next).partial + rest).lines,
                                start,
                            );
                        }
                        return Err(error);
                    },
                    Ok(fragment) => {
                        let ghost carried = fragment@;
                        let Fragment { delta, context } = fragment;
                        match delta {
                            Some(delta) => {
                                deltas.push(delta);
                            },
                            None => {},
                        }
                        match context {
                            Some(context) => {
                                self.context = Some(context);
                            },
                            None => {},
                        }
                        self.partial = Vec::new();
                        proof {
                            assert(texts(deltas@) =~= before.absorb(carried).deltas);
                        }
                    },
                }
            } else {
                self.partial.push(byte);
            }
            i += 1;
        }
        proof {
            assert(chunk@.take(n as int) =~= chunk@);
            lemma_frame_unbroken(held + chunk@);
        }
        Ok(deltas)
    }

    /// Ends the answer. Bytes that follow the last line break are decoded as a
    /// last line. Returns the text of that line, if it carries any, and the
    /// conversation context that the answer gave; or the error that ended the
    /// decoding.
    pub fn finish(self) -> (outcome: Result<Completion, DecodeError>)
        requires
            self.wf(),
        ensures
            match outcome {
                Ok(completion) => self@.finish() == Ok::<Transcript, DecodeError>(completion@),
                Err(error) => self@.finish() == Err::<Transcript, DecodeError>(error),
            },
    {
        if let Some(error) = self.failure {
            return Err(error);
        }
        let ghost start = Transcript { deltas: Seq::empty(), context: integers_view(self.context) };
        let StreamDecoder { partial, context, failure: _ } = self;
        let mut deltas: Vec<String> = Vec::new();
        proof {
            assert(texts(deltas@) =~= Seq::<Seq<char>>::empty());
        }
        if partial.len() == 0 {
            return Ok(Completion { deltas, context });
        }
        match decode_line(partial.as_slice()) {
            Err(error) => Err(error),
            Ok(fragment) => {
                let ghost carried = fragment@;
                let Fragment { delta, context: given } = fragment;
                match delta {
                    Some(delta) => {
                        deltas.push(delta);
                    },
                    None => {},
                }
                proof {
                    assert(texts(deltas@) =~= start.absorb(carried).deltas);
                }
                match given {
                    Some(given) => Ok(Completion { deltas, context: Some(given) }),
                    None => Ok(Completion { deltas, context }),
                }
            },
        }
    }

    /// Whether a line could not be decoded.
    pub fn has_failed(&self) -> (failed: bool)
        ensures
            failed == self@.failure is Some,
    {
        self.failure.is_some()
    }
}

/// What is left after the last line break holds no line break.
pub proof fn lemma_frame_unbroken(bytes: Seq<u8>)
    ensures
        unbroken(frame(bytes).partial),
    decreases bytes.len(),
{
    if bytes.len() > 0 {
        lemma_frame_unbroken(bytes.drop_last());
    }
}

/// Cutting into lines loses nothing and cuts at every line break: the lines,
/// each with its line break, and what follows the last line break make up the
/// bytes again, and no line holds a line break.
pub proof fn lemma_frame_rejoins(bytes: Seq<u8>)
    ensures
        broken_lines(frame(bytes).lines) + frame(bytes).partial == bytes,
        forall|i: int|
            0 <= i < frame(bytes).lines.len() ==> unbroken(#[trigger] frame(bytes).lines[i]),
        unbroken(frame(bytes).partial),
    decreases bytes.len(),
{
    if bytes.len() > 0 {
        let front = bytes.drop_last();
        let before = frame(front);
        lemma_frame_rejoins(front);
        assert(front.push(bytes.last()) =~= bytes);
        if bytes.last() == LINE_BREAK {
            let lines = before.lines.push(before.partial);
            assert(lines.drop_last() =~= before.lines);
            assert(broken_lines(lines) + Seq::<u8>::empty() =~= (broken_lines(before.lines)
                + before.partial).push(LINE_BREAK));
        } else {
            assert(broken_lines(before.lines) + before.partial.push(bytes.last()) =~= (
            broken_lines(before.lines) + before.partial).push(bytes.last()));
        }
    }
}

/// Bytes without a line break hold no complete line.
pub proof fn lemma_frame_of_unbroken(bytes: Seq<u8>)
    requires
        unbroken(bytes),
    ensures
        frame(bytes).lines == Seq::<Seq<u8>>::empty(),
        frame(bytes).partial == bytes,
    decreases bytes.len(),
{
    if bytes.len() > 0 {
        lemma_frame_of_unbroken(bytes.drop_last());
        assert(bytes.drop_last().push(bytes.last()) =~= bytes);
    }
}

/// Cutting `first + second` into lines is cutting `first`, and then going on
/// with `second` from what `first` left after its last line break.
pub proof fn lemma_frame_append(first: Seq<u8>, second: Seq<u8>)
    ensures
        frame(first + second).lines == frame(first).lines + frame(
            frame(first).partial + second,
        ).lines,
        frame(first + second).partial == frame(frame(first).partial + second).partial,
    decreases second.len(),
{
    let rest = frame(first).partial;
    if second.len() == 0 {
        assert(first + second =~= first);
        assert(rest + second =~= rest);
        lemma_frame_unbroken(first);
        lemma_frame_of_unbroken(rest);
    } else {
        lemma_frame_append(first, second.drop_last());
        assert((first + second).drop_last() =~= first + second.drop_last());
        assert((rest + second).drop_last() =~= rest + second.drop_last());
        let shorter = frame(rest + second.drop_last());
        if second.last() == LINE_BREAK {
            assert(frame(first).lines + shorter.lines.push(shorter.partial) =~= (frame(
                first,
            ).lines + shorter.lines).push(shorter.partial));
        }
    }
}

/// Decoding `first + second` is decoding `first`, and then `second` from where
/// that ended; an error in `first` is the error of the whole.
pub proof fn lemma_decode_lines_append(
    first: Seq<Seq<u8>>,
    second: Seq<Seq<u8>>,
    start: Transcript,
)
    ensures
        decode_lines(first + second, start) == match decode_lines(first, start) {
            Err(error) => Err(error),
            Ok(transcript) => decode_lines(second, transcript),
        },
    decreases second.len(),
{
    if second.len() == 0 {
        assert(first + second =~= first);
    } else {
        lemma_decode_lines_append(first, second.drop_last(), start);
        assert((first + second).drop_last() =~= first + second.drop_last());
    }
}

/// The text decoded before the first line stays in front of the text of the
/// lines, and plays no other part in decoding them.
pub proof fn lemma_decode_lines_from(lines: Seq<Seq<u8>>, start: Transcript)
    ensures
        decode_lines(lines, start) == match decode_lines(
            lines,
            Transcript { deltas: Seq::empty(), context: start.context },
        ) {
            Err(error) => Err(error),
            Ok(transcript) => Ok(
                Transcript {
                    deltas: start.deltas + transcript.deltas,
                    context: transcript.context,
                },
            ),
        },
    decreases lines.len(),
{
    let bare = Transcript { deltas: Seq::empty(), context: start.context };
    if lines.len() > 0 {
        lemma_decode_lines_from(lines.drop_last(), start);
        match decode_lines(lines.drop_last(), bare) {
            Err(_) => {},
            Ok(transcript) => {
                match line_fragment(lines.last()) {
                    Err(_) => {},
                    Ok(fragment) => {
                        let full = Transcript {
                            deltas: start.deltas + transcript.deltas,
                            context: transcript.context,
                        };
                        assert(full.absorb(fragment).deltas =~= start.deltas + transcript.absorb(
                            fragment,
                        ).deltas);
                    },
                }
            },
        }
    }
}

/// A fresh decoder that has taken `chunks` has decoded the complete lines of
/// their bytes, and holds what follows the last line break.
pub proof fn lemma_feed_all(chunks: Seq<Seq<u8>>)
    ensures
        ({
            let fed = DecoderView::fresh().feed_all(chunks);
            let framing = frame(joined(chunks));
            match decode_lines(framing.lines, Transcript::empty()) {
                Err(error) => fed.outcome == Err::<Seq<Seq<char>>, DecodeError>(error),
                Ok(transcript) => {
                    &&& fed.outcome == Ok::<Seq<Seq<char>>, DecodeError>(transcript.deltas)
                    &&& fed.decoder == DecoderView {
                        partial: framing.partial,
                        context: transcript.context,
                        failure: None,
                    }
                },
            }
        }),
    decreases chunks.len(),
{
    if chunks.len() > 0 {
        let front = chunks.drop_last();
        let chunk = chunks.last();
        lemma_feed_all(front);
        let before = frame(joined(front));
        lemma_frame_append(joined(front), chunk);
        let step = frame(before.partial + chunk);
        lemma_decode_lines_append(before.lines, step.lines, Transcript::empty());
        match decode_lines(before.lines, Transcript::empty()) {
            Err(_) => {},
            Ok(transcript) => {
                lemma_decode_lines_from(step.lines, transcript);
            },
        }
    }
}

/// Chunking does not matter: however an answer is cut into chunks, a fresh
/// decoder makes of it what it makes of the answer read as one buffer, be that
/// a transcript or an error.
pub proof fn lemma_chunks_as_stream(chunks: Seq<Seq<u8>>)
    ensures
        decode_chunks(chunks) == decode_stream(joined(chunks)),
{
    lemma_feed_all(chunks);
    let framing = frame(joined(chunks));
    match decode_lines(framing.lines, Transcript::empty()) {
        Err(_) => {
            if framing.partial.len() > 0 {
                assert(framing.lines.push(framing.partial).drop_last() =~= framing.lines);
            }
        },
        Ok(transcript) => {
            let start = Transcript { deltas: Seq::empty(), context: transcript.context };
            if framing.partial.len() > 0 {
                assert(framing.lines.push(framing.partial).drop_last() =~= framing.lines);
                match line_fragment(framing.partial) {
                    Err(_) => {},
                    Ok(fragment) => {
                        assert(transcript.deltas + start.absorb(fragment).deltas
                            =~= transcript.absorb(fragment).deltas);
                    },
                }
            }
        },
    }
}

/// Two ways of cutting the same bytes into chunks are decoded alike.
pub proof fn lemma_chunking(first: Seq<Seq<u8>>, second: Seq<Seq<u8>>)
    requires
        joined(first) == joined(second),
    ensures
        decode_chunks(first) == decode_chunks(second),
{
    lemma_chunks_as_stream(first);
    lemma_chunks_as_stream(second);
}

/// An answer that arrives in chunks is decoded as the same answer arriving in
/// one piece.
pub proof fn lemma_single_chunk(chunks: Seq<Seq<u8>>)
    ensures
        decode_chunks(chunks) == decode_chunks(seq![joined(chunks)]),
{
    let whole = seq![joined(chunks)];
    assert(joined(whole.drop_last()) =~= Seq::<u8>::empty());
    assert(joined(whole) =~= joined(chunks));
    lemma_chunking(chunks, whole);
}

} // verus!
