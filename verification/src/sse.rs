//! The server-sent events of a streaming chat completion: cutting the byte
//! stream at line ends, picking out the `data:` payloads, and folding the
//! parsed events into one piece of the answer.

use vstd::prelude::*;
use vstd::utf8::*;
use crate::messages::{ChatChunk, OpenAIChunk, ov};
use crate::text::{chars_vec, has_prefix, str_eq, starts_with, skip_chars};
use crate::tool_calls::{lossy_text, string_from_utf8_lossy};

verus! {

/// A line without the carriage return of a `\r\n` ending.
pub open spec fn strip_cr(l: Seq<char>) -> Seq<char> {
    if l.len() > 0 && l.last() == '\r' {
        l.drop_last()
    } else {
        l
    }
}

/// The lines of `s`, given the part `cur` of the current line read so far, as
/// `str::lines` cuts them: at each `\n`, dropping a `\r` just before it; a last
/// line without `\n` is kept as it is, an empty one dropped.
pub open spec fn lines_from(s: Seq<char>, cur: Seq<char>) -> Seq<Seq<char>>
    decreases s.len(),
{
    if s.len() == 0 {
        if cur.len() == 0 {
            Seq::empty()
        } else {
            seq![cur]
        }
    } else if s[0] == '\n' {
        seq![strip_cr(cur)] + lines_from(s.drop_first(), Seq::empty())
    } else {
        lines_from(s.drop_first(), cur.push(s[0]))
    }
}

/// The lines of `s` (`str::lines`).
pub open spec fn lines_of(s: Seq<char>) -> Seq<Seq<char>> {
    lines_from(s, Seq::empty())
}

/// The views of a list of strings.
pub open spec fn strings_view(v: Seq<String>) -> Seq<Seq<char>> {
    v.map_values(|s: String| s@)
}

fn line_at(s: &str, cs: &Vec<char>, start: usize, end: usize) -> (r: String)
    requires
        cs@ == s@,
        start <= end <= s@.len(),
    ensures
        r@ == strip_cr(s@.subrange(start as int, end as int)),
{
    if end > start && cs[end - 1] == '\r' {
        let r = String::from_str(s.substring_char(start, end - 1));
        assert(r@ =~= s@.subrange(start as int, end as int).drop_last());
        r
    } else {
        String::from_str(s.substring_char(start, end))
    }
}

/// Cuts `s` into lines (`str::lines`).
pub fn split_lines(s: &str) -> (r: Vec<String>)
    ensures
        strings_view(r@) == lines_of(s@),
{
    let cs = chars_vec(s);
    let n = cs.len();
    let mut lines: Vec<String> = Vec::new();
    let mut start: usize = 0;
    let mut i: usize = 0;
    assert(s@.subrange(0, 0) =~= Seq::<char>::empty());
    assert(s@.subrange(0, n as int) =~= s@);
    while i < n
        invariant
            cs@ == s@,
            n == s@.len(),
            start <= i <= n,
            lines_of(s@) == strings_view(lines@) + lines_from(
                s@.subrange(i as int, n as int),
                s@.subrange(start as int, i as int),
            ),
        decreases n - i,
    {
        let ghost rest = s@.subrange(i as int, n as int);
        let ghost cur = s@.subrange(start as int, i as int);
        assert(rest[0] == s@[i as int]);
        assert(rest.drop_first() =~= s@.subrange(i + 1, n as int));
        if cs[i] == '\n' {
            let line = line_at(s, &cs, start, i);
            let ghost old_lines = lines@;
            lines.push(line);
            assert(strings_view(lines@) =~= strings_view(old_lines).push(line@));
            assert(s@.subrange(i + 1, i + 1) =~= Seq::<char>::empty());
            assert(strings_view(old_lines) + (seq![strip_cr(cur)] + lines_from(
                rest.drop_first(),
                Seq::empty(),
            )) =~= strings_view(lines@) + lines_from(rest.drop_first(), Seq::empty()));
            start = i + 1;
        } else {
            assert(cur.push(s@[i as int]) =~= s@.subrange(start as int, i + 1));
        }
        i = i + 1;
    }
    let ghost cur = s@.subrange(start as int, n as int);
    if start < n {
        let line = String::from_str(s.substring_char(start, n));
        let ghost old_lines = lines@;
        lines.push(line);
        assert(strings_view(lines@) =~= strings_view(old_lines) + seq![cur]);
    } else {
        assert(strings_view(lines@) + Seq::<Seq<char>>::empty() =~= strings_view(lines@));
    }
    lines
}

/// The `data:` payloads among `lines`, up to the `[DONE]` marker, and whether
/// the marker came.
pub open spec fn scan_data_lines(lines: Seq<Seq<char>>) -> (Seq<Seq<char>>, bool)
    decreases lines.len(),
{
    if lines.len() == 0 {
        (Seq::empty(), false)
    } else {
        let l = lines[0];
        if has_prefix(l, "data: "@) {
            let payload = l.subrange(6, l.len() as int);
            if payload == "[DONE]"@ {
                (Seq::empty(), true)
            } else {
                let rest = scan_data_lines(lines.drop_first());
                (seq![payload] + rest.0, rest.1)
            }
        } else {
            scan_data_lines(lines.drop_first())
        }
    }
}

/// The JSON payloads of the events in `text`, up to `[DONE]`, and whether
/// `[DONE]` came.
pub open spec fn spec_sse_payloads(text: Seq<char>) -> (Seq<Seq<char>>, bool) {
    scan_data_lines(lines_of(text))
}

/// Picks out the JSON payloads of the `data:` lines of `text`, stopping at the
/// `[DONE]` marker; the flag tells whether the marker came.
pub fn sse_payloads(text: &str) -> (r: (Vec<String>, bool))
    ensures
        (strings_view(r.0@), r.1) == spec_sse_payloads(text@),
{
    proof {
        reveal_strlit("data: ");
    }
    let lines = split_lines(text);
    let mut out: Vec<String> = Vec::new();
    let mut i: usize = 0;
    assert(lines@.subrange(0, lines@.len() as int) =~= lines@);
    assert(strings_view(lines@).subrange(0, strings_view(lines@).len() as int) =~= strings_view(lines@));
    while i < lines.len()
        invariant
            i <= lines@.len(),
            strings_view(lines@) == lines_of(text@),
            spec_sse_payloads(text@) == ({
                let rest = scan_data_lines(strings_view(lines@).subrange(i as int, lines@.len() as int));
                (strings_view(out@) + rest.0, rest.1)
            }),
        decreases lines@.len() - i,
    {
        let ghost all = strings_view(lines@);
        let ghost rest = all.subrange(i as int, lines@.len() as int);
        assert(rest[0] == lines@[i as int]@);
        assert(rest.drop_first() =~= all.subrange(i + 1, lines@.len() as int));
        let line = lines[i].as_str();
        proof {
            reveal_strlit("data: ");
        }
        if starts_with(line, "data: ") {
            let payload = skip_chars(line, 6);
            if str_eq(payload.as_str(), "[DONE]") {
                assert(strings_view(out@) + Seq::<Seq<char>>::empty() =~= strings_view(out@));
                return (out, true);
            }
            let ghost old_out = out@;
            out.push(payload);
            assert(strings_view(out@) =~= strings_view(old_out).push(payload@));
            assert(strings_view(old_out) + (seq![payload@] + scan_data_lines(rest.drop_first()).0)
                =~= strings_view(out@) + scan_data_lines(rest.drop_first()).0);
        }
        i = i + 1;
    }
    assert(strings_view(out@) + Seq::<Seq<char>>::empty() =~= strings_view(out@));
    (out, false)
}

/// The text an event adds: the content of its first choice.
pub open spec fn event_text(c: OpenAIChunk) -> Seq<char> {
    if c.choices@.len() > 0 {
        match ov(c.choices@[0].delta.content) {
            Some(t) => t,
            None => Seq::empty(),
        }
    } else {
        Seq::empty()
    }
}

/// The finish reason an event carries in its first choice.
pub open spec fn event_finish(c: OpenAIChunk) -> Option<Seq<char>> {
    if c.choices@.len() > 0 {
        ov(c.choices@[0].finish_reason)
    } else {
        None
    }
}

/// The text of all parsed events, in order (events that failed to parse add nothing).
pub open spec fn events_text(evs: Seq<Option<OpenAIChunk>>) -> Seq<char>
    decreases evs.len(),
{
    if evs.len() == 0 {
        Seq::empty()
    } else {
        events_text(evs.drop_last()) + match evs.last() {
            Some(c) => event_text(c),
            None => Seq::empty(),
        }
    }
}

/// The last finish reason among the parsed events.
pub open spec fn events_finish(evs: Seq<Option<OpenAIChunk>>) -> Option<Seq<char>>
    decreases evs.len(),
{
    if evs.len() == 0 {
        None
    } else {
        match evs.last() {
            Some(c) => match event_finish(c) {
                Some(f) => Some(f),
                None => events_finish(evs.drop_last()),
            },
            None => events_finish(evs.drop_last()),
        }
    }
}

/// The piece of the answer a batch of events makes: their text (none when
/// empty) and the finish reason, which `[DONE]` sets to `stop`.
pub open spec fn spec_fold_events(evs: Seq<Option<OpenAIChunk>>, done: bool) -> (Option<Seq<char>>, Option<Seq<char>>) {
    (
        if events_text(evs).len() == 0 {
            None
        } else {
            Some(events_text(evs))
        },
        if done {
            Some("stop"@)
        } else {
            events_finish(evs)
        },
    )
}

/// Folds the parsed events of one batch of lines (`None` for a payload that
/// was not a chunk) into the piece of the answer they make; `done` tells
/// whether the `[DONE]` marker ended the batch.
pub fn fold_sse_events(events: &Vec<Option<OpenAIChunk>>, done: bool) -> (r: ChatChunk)
    ensures
        (ov(r.content), ov(r.finish_reason)) == spec_fold_events(events@, done),
{
    let mut content = String::new();
    let mut finish: Option<String> = None;
    let mut i: usize = 0;
    assert(events@.subrange(0, 0) =~= Seq::<Option<OpenAIChunk>>::empty());
    while i < events.len()
        invariant
            i <= events@.len(),
            content@ == events_text(events@.subrange(0, i as int)),
            ov(finish) == events_finish(events@.subrange(0, i as int)),
        decreases events@.len() - i,
    {
        let ghost next = events@.subrange(0, i + 1);
        assert(next.drop_last() =~= events@.subrange(0, i as int));
        assert(next.last() == events@[i as int]);
        match &events[i] {
            Some(chunk) => {
                if chunk.choices.len() > 0 {
                    let choice = &chunk.choices[0];
                    match &choice.delta.content {
                        Some(c) => {
                            content.append(c.as_str());
                        },
                        None => {
                            assert(content@ =~= content@ + Seq::<char>::empty());
                        },
                    }
                    match &choice.finish_reason {
                        Some(f) => {
                            finish = Some(f.clone());
                        },
                        None => {},
                    }
                } else {
                    assert(content@ =~= content@ + Seq::<char>::empty());
                }
            },
            None => {
                assert(content@ =~= content@ + Seq::<char>::empty());
            },
        }
        i = i + 1;
    }
    assert(events@.subrange(0, events@.len() as int) =~= events@);
    let finish_reason = if done {
        Some(String::from_str("stop"))
    } else {
        finish
    };
    if content.as_str().unicode_len() == 0 {
        ChatChunk { content: None, finish_reason }
    } else {
        ChatChunk { content: Some(content), finish_reason }
    }
}

/// `bytes::BytesMut`, the growable byte buffer a stream's bytes collect in.
#[verifier::external_type_specification]
#[verifier::external_body]
pub struct ExBytesMut(bytes::BytesMut);

/// The bytes a `BytesMut` holds, in order.
pub uninterp spec fn bytes_mut_contents(b: bytes::BytesMut) -> Seq<u8>;

/// `BytesMut::new`: an empty buffer.
#[verifier::external_body]
fn bytes_mut_new() -> (r: bytes::BytesMut)
    ensures
        bytes_mut_contents(r) == Seq::<u8>::empty(),
{
    bytes::BytesMut::new()
}

/// `BytesMut::extend_from_slice`: appends the bytes. The buffer grows like a
/// `Vec`, whose size is bounded by `isize::MAX`.
#[verifier::external_body]
fn bytes_mut_extend(b: &mut bytes::BytesMut, data: &[u8])
    requires
        bytes_mut_contents(*old(b)).len() + data@.len() <= isize::MAX,
    ensures
        bytes_mut_contents(*final(b)) == bytes_mut_contents(*old(b)) + data@,
{
    b.extend_from_slice(data)
}

/// `BytesMut::split_to`: removes and returns the first `at` bytes; it panics
/// when `at` exceeds the length.
#[verifier::external_body]
fn bytes_mut_split_to(b: &mut bytes::BytesMut, at: usize) -> (r: bytes::BytesMut)
    requires
        at <= bytes_mut_contents(*old(b)).len(),
    ensures
        bytes_mut_contents(r) == bytes_mut_contents(*old(b)).subrange(0, at as int),
        bytes_mut_contents(*final(b)) == bytes_mut_contents(*old(b)).subrange(
            at as int,
            bytes_mut_contents(*old(b)).len() as int,
        ),
{
    b.split_to(at)
}

/// `<BytesMut as Deref>::deref`: the bytes held, as a slice.
#[verifier::external_body]
fn bytes_mut_as_slice(b: &bytes::BytesMut) -> (r: &[u8])
    ensures
        r@ == bytes_mut_contents(*b),
{
    &b[..]
}

/// The index of the last `\n` in `s`.
pub open spec fn last_newline(s: Seq<char>) -> Option<int>
    decreases s.len(),
{
    if s.len() == 0 {
        None
    } else if s.last() == '\n' {
        Some(s.len() - 1)
    } else {
        last_newline(s.drop_last())
    }
}

proof fn lemma_last_newline_bounds(s: Seq<char>)
    ensures
        last_newline(s) matches Some(k) ==> 0 <= k < s.len() && s[k] == '\n',
    decreases s.len(),
{
    if s.len() > 0 && s.last() != '\n' {
        lemma_last_newline_bounds(s.drop_last());
    }
}

/// Cuts decoded stream text after its last line end: the complete lines, and
/// the number of UTF-8 bytes of text that follow them; `None` without a `\n`.
pub fn split_after_last_newline(text: &str) -> (r: Option<(String, usize)>)
    ensures
        match last_newline(text@) {
            None => r is None,
            Some(k) => r matches Some((c, keep)) && c@ == text@.subrange(0, k + 1) && keep
                == encode_utf8(text@.subrange(k + 1, text@.len() as int)).len(),
        },
{
    let cs = chars_vec(text);
    let n = cs.len();
    let mut i: usize = n;
    assert(text@.subrange(0, n as int) =~= text@);
    while i > 0
        invariant
            cs@ == text@,
            n == text@.len(),
            i <= n,
            last_newline(text@) == last_newline(text@.subrange(0, i as int)),
        decreases i,
    {
        let ghost pre = text@.subrange(0, i as int);
        assert(pre.last() == cs@[i - 1]);
        if cs[i - 1] == '\n' {
            let complete = String::from_str(text.substring_char(0, i));
            let rest = text.substring_char(i, n);
            let keep = rest.as_bytes().len();
            return Some((complete, keep));
        }
        assert(pre.drop_last() =~= text@.subrange(0, i - 1));
        i = i - 1;
    }
    None
}

/// What one piece of a byte stream yields.
#[derive(Debug)]
pub enum StreamStep {
    /// No line is complete yet; the bytes wait in the buffer.
    Pending,
    /// These complete lines were taken out of the buffer.
    Complete(String),
    /// The text after the last line end decodes to more bytes than the buffer
    /// holds (invalid UTF-8 near its end), so the buffer cannot be cut there;
    /// it keeps all its bytes.
    Overrun,
}

/// The bytes of a streaming response that do not yet form a complete line.
pub struct SseBuffer {
    buf: bytes::BytesMut,
}

impl View for SseBuffer {
    type V = Seq<u8>;

    closed spec fn view(&self) -> Seq<u8> {
        bytes_mut_contents(self.buf)
    }
}

/// How many bytes stay in the buffer after the lines of `text` up to index `k`.
pub open spec fn kept_after(text: Seq<char>, k: int) -> int {
    encode_utf8(text.subrange(k + 1, text.len() as int)).len() as int
}

/// What taking the complete lines out of the buffered bytes `all` yields, and
/// the bytes left: the bytes are decoded as `String::from_utf8_lossy` does and
/// cut after the last `\n`; as many bytes stay as the text after it takes up.
pub open spec fn spec_stream_step(all: Seq<u8>) -> (Option<Option<Seq<char>>>, Seq<u8>) {
    let text = lossy_text(all);
    match last_newline(text) {
        None => (Some(None), all),
        Some(k) => if kept_after(text, k) > all.len() {
            (None, all)
        } else {
            (
                Some(Some(text.subrange(0, k + 1))),
                all.subrange(all.len() - kept_after(text, k), all.len() as int),
            )
        },
    }
}

/// The view of a stream step: `None` for an overrun, `Some(None)` while no line
/// is complete, `Some(Some(lines))` for complete lines.
pub open spec fn step_view(s: StreamStep) -> Option<Option<Seq<char>>> {
    match s {
        StreamStep::Pending => Some(None),
        StreamStep::Complete(t) => Some(Some(t@)),
        StreamStep::Overrun => None,
    }
}

proof fn lemma_encode_utf8_concat(a: Seq<char>, b: Seq<char>)
    ensures
        encode_utf8(a + b) == encode_utf8(a) + encode_utf8(b),
    decreases a.len(),
{
    if a.len() == 0 {
        assert(a + b =~= b);
        assert(encode_utf8(a) + encode_utf8(b) =~= encode_utf8(b));
    } else {
        assert((a + b).drop_first() =~= a.drop_first() + b);
        lemma_encode_utf8_concat(a.drop_first(), b);
        assert(encode_utf8(a + b) =~= encode_utf8(a) + encode_utf8(b));
    }
}

/// When the buffered bytes are valid UTF-8, a stream step never overruns and
/// loses no byte: the complete lines it yields, encoded again, followed by the
/// bytes it keeps, are exactly the bytes it was given.
proof fn lemma_stream_step_conserves_bytes(all: Seq<u8>)
    requires
        valid_utf8(all),
    ensures
        spec_stream_step(all).0 is Some,
        spec_stream_step(all).0 matches Some(Some(t)) ==> encode_utf8(t) + spec_stream_step(all).1
            == all,
        spec_stream_step(all).0 matches Some(None) ==> spec_stream_step(all).1 == all,
{
    let text = lossy_text(all);
    decode_utf8_encode_utf8(all);
    lemma_last_newline_bounds(text);
    match last_newline(text) {
        None => {},
        Some(k) => {
            let c = text.subrange(0, k + 1);
            let rest = text.subrange(k + 1, text.len() as int);
            assert(c + rest =~= text);
            lemma_encode_utf8_concat(c, rest);
            assert(all.subrange(all.len() - kept_after(text, k), all.len() as int) =~= encode_utf8(
                rest,
            ));
        },
    }
}

impl SseBuffer {
    /// An empty buffer.
    pub fn new() -> (r: Self)
        ensures
            r@ == Seq::<u8>::empty(),
    {
        SseBuffer { buf: bytes_mut_new() }
    }

    /// How many bytes wait in the buffer.
    pub fn buffered_len(&self) -> (r: usize)
        ensures
            r == self@.len(),
    {
        bytes_mut_as_slice(&self.buf).len()
    }

    /// Adds the next piece of the byte stream and takes out the lines that are
    /// complete. When the buffered bytes are valid UTF-8, the result is never
    /// an overrun and no byte is lost.
    pub fn push_chunk(&mut self, chunk: &[u8]) -> (r: StreamStep)
        requires
            old(self)@.len() + chunk@.len() <= isize::MAX,
        ensures
            step_view(r) == spec_stream_step(old(self)@ + chunk@).0,
            final(self)@ == spec_stream_step(old(self)@ + chunk@).1,
            valid_utf8(old(self)@ + chunk@) ==> r !is Overrun,
            valid_utf8(old(self)@ + chunk@) ==> (r matches StreamStep::Complete(t) ==> encode_utf8(t@)
                + final(self)@ == old(self)@ + chunk@),
    {
        bytes_mut_extend(&mut self.buf, chunk);
        let ghost all = bytes_mut_contents(self.buf);
        let text = string_from_utf8_lossy(bytes_mut_as_slice(&self.buf));
        proof {
            lemma_last_newline_bounds(text@);
            if valid_utf8(all) {
                lemma_stream_step_conserves_bytes(all);
            }
        }
        match split_after_last_newline(text.as_str()) {
            None => StreamStep::Pending,
            Some((complete, keep)) => {
                let total = bytes_mut_as_slice(&self.buf).len();
                if keep > total {
                    StreamStep::Overrun
                } else {
                    let _ = bytes_mut_split_to(&mut self.buf, total - keep);
                    StreamStep::Complete(complete)
                }
            },
        }
    }
}

/// Whether a line is the `data: [DONE]` marker that ends a stream.
pub open spec fn is_done_line(l: Seq<char>) -> bool {
    has_prefix(l, "data: "@) && l.subrange(6, l.len() as int) == "[DONE]"@
}

/// Whether no line of `text` but the last is the `[DONE]` marker.
pub open spec fn done_only_at_end(text: Seq<char>) -> bool {
    forall|i: int| 0 <= i < lines_of(text).len() - 1 ==> !is_done_line(#[trigger] lines_of(text)[i])
}

/// Whether `s` holds no `\n`.
pub open spec fn no_newline(s: Seq<char>) -> bool {
    forall|i: int| 0 <= i < s.len() ==> s[i] != '\n'
}

/// Whether `s` is empty or ends with `\n`.
pub open spec fn ends_at_line_end(s: Seq<char>) -> bool {
    s.len() == 0 || s.last() == '\n'
}

/// The complete lines a stream step yields, as text: empty when it completes
/// no line or overruns.
pub open spec fn step_text(s: Option<Option<Seq<char>>>) -> Seq<char> {
    match s {
        Some(Some(t)) => t,
        _ => Seq::empty(),
    }
}

/// Pushing the pieces `chunks` of a byte stream, in order, into a buffer that
/// holds `buf` (as `SseBuffer::push_chunk` does): the text each push yields,
/// and the bytes left in the buffer at the end.
pub open spec fn stream_run(buf: Seq<u8>, chunks: Seq<Seq<u8>>) -> (Seq<Seq<char>>, Seq<u8>)
    decreases chunks.len(),
{
    if chunks.len() == 0 {
        (Seq::empty(), buf)
    } else {
        let st = spec_stream_step(buf + chunks[0]);
        let rest = stream_run(st.1, chunks.drop_first());
        (seq![step_text(st.0)] + rest.0, rest.1)
    }
}

/// The text the events in the complete lines `text` add to the answer, each
/// `data:` payload read by `parse` (`None` for one that is not a chunk): what
/// `fold_sse_events` makes of the payloads `sse_payloads` picks out, with no
/// content counting as empty.
pub open spec fn lines_content(text: Seq<char>, parse: spec_fn(Seq<char>) -> Option<OpenAIChunk>) -> Seq<char> {
    events_text(spec_sse_payloads(text).0.map_values(parse))
}

/// The answer text a stream yields when its bytes arrive as `chunks`: the
/// content of each push's lines, in order.
pub open spec fn streamed_content(
    chunks: Seq<Seq<u8>>,
    parse: spec_fn(Seq<char>) -> Option<OpenAIChunk>,
) -> Seq<char> {
    stream_run(Seq::empty(), chunks).0.map_values(|t: Seq<char>| lines_content(t, parse)).flatten()
}

proof fn lemma_decode_concat(a: Seq<u8>, b: Seq<u8>)
    requires
        valid_utf8(a),
        valid_utf8(b),
    ensures
        valid_utf8(a + b),
        decode_utf8(a + b) == decode_utf8(a) + decode_utf8(b),
{
    valid_utf8_concat(a, b);
    decode_utf8_encode_utf8(a);
    decode_utf8_encode_utf8(b);
    lemma_encode_utf8_concat(decode_utf8(a), decode_utf8(b));
    encode_utf8_decode_utf8(decode_utf8(a) + decode_utf8(b));
}

proof fn lemma_flatten_valid(chunks: Seq<Seq<u8>>)
    requires
        forall|i: int| 0 <= i < chunks.len() ==> valid_utf8(#[trigger] chunks[i]),
    ensures
        valid_utf8(chunks.flatten()),
    decreases chunks.len(),
{
    if chunks.len() == 0 {
        assert(valid_utf8(Seq::<u8>::empty()));
    } else {
        let rest = chunks.drop_first();
        assert forall|i: int| 0 <= i < rest.len() implies valid_utf8(#[trigger] rest[i]) by {
            assert(rest[i] == chunks[i + 1]);
        }
        lemma_flatten_valid(rest);
        assert(valid_utf8(chunks[0]));
        valid_utf8_concat(chunks[0], rest.flatten());
    }
}

proof fn lemma_last_newline_after(s: Seq<char>)
    ensures
        last_newline(s) is None ==> no_newline(s),
        last_newline(s) matches Some(k) ==> 0 <= k < s.len() && s[k] == '\n' && no_newline(
            s.subrange(k + 1, s.len() as int),
        ),
    decreases s.len(),
{
    if s.len() > 0 && s.last() != '\n' {
        let t = s.drop_last();
        lemma_last_newline_after(t);
        match last_newline(t) {
            None => {
                assert forall|i: int| 0 <= i < s.len() implies #[trigger] s[i] != '\n' by {
                    if i < t.len() {
                        assert(s[i] == t[i]);
                    }
                }
            },
            Some(k) => {
                let u = s.subrange(k + 1, s.len() as int);
                let v = t.subrange(k + 1, t.len() as int);
                assert forall|i: int| 0 <= i < u.len() implies #[trigger] u[i] != '\n' by {
                    if i < v.len() {
                        assert(u[i] == v[i]);
                    } else {
                        assert(u[i] == s.last());
                    }
                }
            },
        }
    } else if s.len() > 0 {
        assert(s.subrange(s.len() as int, s.len() as int).len() == 0);
    }
}

/// One push of valid UTF-8 into a buffer of valid UTF-8 without a line end:
/// the text yielded, then the text left in the buffer, are the buffer's and the
/// piece's text; the yielded text ends at a line end, and the buffer is left
/// valid, without a line end.
proof fn lemma_stream_step_text(buf: Seq<u8>, c: Seq<u8>)
    requires
        valid_utf8(buf),
        no_newline(decode_utf8(buf)),
        valid_utf8(c),
    ensures
        valid_utf8(spec_stream_step(buf + c).1),
        no_newline(decode_utf8(spec_stream_step(buf + c).1)),
        step_text(spec_stream_step(buf + c).0) + decode_utf8(spec_stream_step(buf + c).1) == decode_utf8(
            buf,
        ) + decode_utf8(c),
        ends_at_line_end(step_text(spec_stream_step(buf + c).0)),
{
    let all = buf + c;
    lemma_decode_concat(buf, c);
    let text = lossy_text(all);
    assert(text == decode_utf8(all));
    lemma_stream_step_conserves_bytes(all);
    lemma_last_newline_after(text);
    let st = spec_stream_step(all);
    let piece = step_text(st.0);
    match last_newline(text) {
        None => {
            assert(piece + decode_utf8(st.1) =~= decode_utf8(buf) + decode_utf8(c));
        },
        Some(k) => {
            let tail = text.subrange(k + 1, text.len() as int);
            assert(st.0 == Some(Some(text.subrange(0, k + 1))));
            assert(encode_utf8(piece) + st.1 == all);
            decode_utf8_encode_utf8(all);
            lemma_encode_utf8_concat(piece, tail);
            assert(piece + tail =~= text);
            assert(st.1 =~= encode_utf8(tail));
            encode_utf8_valid_utf8(tail);
            encode_utf8_decode_utf8(tail);
        },
    }
}

/// Pushing pieces of valid UTF-8, in order, into a buffer of valid UTF-8
/// without a line end: the texts yielded, then the text left in the buffer,
/// are the buffer's and the pieces' text; each yielded text ends at a line
/// end, and the buffer is left valid, without a line end.
proof fn lemma_stream_run(buf: Seq<u8>, chunks: Seq<Seq<u8>>)
    requires
        valid_utf8(buf),
        no_newline(decode_utf8(buf)),
        forall|i: int| 0 <= i < chunks.len() ==> valid_utf8(#[trigger] chunks[i]),
    ensures
        valid_utf8(chunks.flatten()),
        valid_utf8(stream_run(buf, chunks).1),
        no_newline(decode_utf8(stream_run(buf, chunks).1)),
        stream_run(buf, chunks).0.flatten() + decode_utf8(stream_run(buf, chunks).1) == decode_utf8(buf)
            + decode_utf8(chunks.flatten()),
        forall|i: int|
            0 <= i < stream_run(buf, chunks).0.len() ==> ends_at_line_end(
                #[trigger] stream_run(buf, chunks).0[i],
            ),
    decreases chunks.len(),
{
    lemma_flatten_valid(chunks);
    if chunks.len() == 0 {
        assert(decode_utf8(Seq::<u8>::empty()) =~= Seq::<char>::empty());
        assert(Seq::<Seq<char>>::empty().flatten() + decode_utf8(buf) =~= decode_utf8(buf) + decode_utf8(
            Seq::<u8>::empty(),
        ));
    } else {
        let c0 = chunks[0];
        let rest = chunks.drop_first();
        assert forall|i: int| 0 <= i < rest.len() implies valid_utf8(#[trigger] rest[i]) by {
            assert(rest[i] == chunks[i + 1]);
        }
        lemma_flatten_valid(rest);
        lemma_stream_step_text(buf, c0);
        let st = spec_stream_step(buf + c0);
        let piece = step_text(st.0);
        lemma_stream_run(st.1, rest);
        let r = stream_run(st.1, rest);
        lemma_decode_concat(c0, rest.flatten());
        assert(chunks.flatten() == c0 + rest.flatten());
        let out = seq![piece] + r.0;
        assert(stream_run(buf, chunks).0 == out);
        assert(out.drop_first() =~= r.0);
        assert(out.flatten() == piece + r.0.flatten());
        let d_rest = decode_utf8(rest.flatten());
        assert(r.0.flatten() + decode_utf8(r.1) == decode_utf8(st.1) + d_rest);
        assert(piece + decode_utf8(st.1) == decode_utf8(buf) + decode_utf8(c0));
        assert(decode_utf8(chunks.flatten()) == decode_utf8(c0) + d_rest);
        assert(out.flatten() + decode_utf8(r.1) =~= piece + (r.0.flatten() + decode_utf8(r.1)));
        assert(piece + (decode_utf8(st.1) + d_rest) =~= (piece + decode_utf8(st.1)) + d_rest);
        assert((decode_utf8(buf) + decode_utf8(c0)) + d_rest =~= decode_utf8(buf) + (decode_utf8(c0)
            + d_rest));
        assert forall|i: int| 0 <= i < out.len() implies ends_at_line_end(#[trigger] out[i]) by {
            if i > 0 {
                assert(out[i] == r.0[i - 1]);
            }
        }
    }
}

proof fn lemma_lines_from_concat(a: Seq<char>, b: Seq<char>, cur: Seq<char>)
    requires
        a.len() > 0,
        a.last() == '\n',
    ensures
        lines_from(a + b, cur) == lines_from(a, cur) + lines_from(b, Seq::empty()),
    decreases a.len(),
{
    assert((a + b).drop_first() =~= a.drop_first() + b);
    assert((a + b)[0] == a[0]);
    if a.len() == 1 {
        assert(a.drop_first() + b =~= b);
        assert(lines_from(a.drop_first(), Seq::empty()) == Seq::<Seq<char>>::empty());
        assert(seq![strip_cr(cur)] + lines_from(b, Seq::empty()) =~= seq![strip_cr(cur)]
            + Seq::<Seq<char>>::empty() + lines_from(b, Seq::empty()));
    } else {
        assert(a.drop_first().last() == a.last());
        if a[0] == '\n' {
            lemma_lines_from_concat(a.drop_first(), b, Seq::empty());
            assert(seq![strip_cr(cur)] + (lines_from(a.drop_first(), Seq::empty()) + lines_from(
                b,
                Seq::empty(),
            )) =~= seq![strip_cr(cur)] + lines_from(a.drop_first(), Seq::empty()) + lines_from(
                b,
                Seq::empty(),
            ));
        } else {
            lemma_lines_from_concat(a.drop_first(), b, cur.push(a[0]));
        }
    }
}

/// Text that ends at a line end cuts into lines apart from what follows it.
proof fn lemma_lines_concat(a: Seq<char>, b: Seq<char>)
    requires
        ends_at_line_end(a),
    ensures
        lines_of(a + b) == lines_of(a) + lines_of(b),
{
    if a.len() == 0 {
        assert(a + b =~= b);
        assert(lines_of(a) == Seq::<Seq<char>>::empty());
        assert(lines_of(a) + lines_of(b) =~= lines_of(b));
    } else {
        lemma_lines_from_concat(a, b, Seq::empty());
    }
}

proof fn lemma_lines_nonempty(s: Seq<char>, cur: Seq<char>)
    requires
        s.len() > 0 || cur.len() > 0,
    ensures
        lines_from(s, cur).len() > 0,
    decreases s.len(),
{
    if s.len() > 0 && s[0] != '\n' {
        lemma_lines_nonempty(s.drop_first(), cur.push(s[0]));
    }
}

proof fn lemma_scan_concat(l1: Seq<Seq<char>>, l2: Seq<Seq<char>>)
    requires
        forall|i: int| 0 <= i < l1.len() ==> !is_done_line(#[trigger] l1[i]),
    ensures
        scan_data_lines(l1 + l2) == (scan_data_lines(l1).0 + scan_data_lines(l2).0, scan_data_lines(l2).1),
    decreases l1.len(),
{
    if l1.len() == 0 {
        assert(l1 + l2 =~= l2);
        assert(Seq::<Seq<char>>::empty() + scan_data_lines(l2).0 =~= scan_data_lines(l2).0);
    } else {
        let rest = l1.drop_first();
        assert((l1 + l2).drop_first() =~= rest + l2);
        assert((l1 + l2)[0] == l1[0]);
        assert(!is_done_line(l1[0]));
        assert forall|i: int| 0 <= i < rest.len() implies !is_done_line(#[trigger] rest[i]) by {
            assert(rest[i] == l1[i + 1]);
        }
        lemma_scan_concat(rest, l2);
        let l = l1[0];
        if has_prefix(l, "data: "@) {
            let payload = l.subrange(6, l.len() as int);
            assert(seq![payload] + (scan_data_lines(rest).0 + scan_data_lines(l2).0) =~= seq![payload]
                + scan_data_lines(rest).0 + scan_data_lines(l2).0);
        }
    }
}

proof fn lemma_events_text_concat(e1: Seq<Option<OpenAIChunk>>, e2: Seq<Option<OpenAIChunk>>)
    ensures
        events_text(e1 + e2) == events_text(e1) + events_text(e2),
    decreases e2.len(),
{
    if e2.len() == 0 {
        assert(e1 + e2 =~= e1);
        assert(events_text(e1) + events_text(e2) =~= events_text(e1));
    } else {
        assert((e1 + e2).drop_last() =~= e1 + e2.drop_last());
        assert((e1 + e2).last() == e2.last());
        lemma_events_text_concat(e1, e2.drop_last());
        let add = match e2.last() {
            Some(c) => event_text(c),
            None => Seq::<char>::empty(),
        };
        assert(events_text(e1) + events_text(e2.drop_last()) + add =~= events_text(e1) + (events_text(
            e2.drop_last(),
        ) + add));
    }
}

/// The answer text of each yielded piece of a stream, in order.
pub open spec fn contents_of(
    pieces: Seq<Seq<char>>,
    parse: spec_fn(Seq<char>) -> Option<OpenAIChunk>,
) -> Seq<Seq<char>> {
    pieces.map_values(|t: Seq<char>| lines_content(t, parse))
}

proof fn lemma_lines_content_empty(parse: spec_fn(Seq<char>) -> Option<OpenAIChunk>)
    ensures
        lines_content(Seq::empty(), parse) == Seq::<char>::empty(),
{
    assert(lines_of(Seq::empty()) == Seq::<Seq<char>>::empty());
    assert(Seq::<Seq<char>>::empty().map_values(parse) =~= Seq::<Option<OpenAIChunk>>::empty());
}

/// Text that ends at a line end, with no `[DONE]` marker before its last
/// line: the answer text of its pieces, in order, is the answer text of the
/// whole.
proof fn lemma_pieces_content(pieces: Seq<Seq<char>>, parse: spec_fn(Seq<char>) -> Option<OpenAIChunk>)
    requires
        forall|i: int| 0 <= i < pieces.len() ==> ends_at_line_end(#[trigger] pieces[i]),
        done_only_at_end(pieces.flatten()),
    ensures
        contents_of(pieces, parse).flatten() == lines_content(pieces.flatten(), parse),
    decreases pieces.len(),
{
    lemma_lines_content_empty(parse);
    if pieces.len() == 0 {
        assert(contents_of(pieces, parse) =~= Seq::<Seq<char>>::empty());
    } else {
        let p0 = pieces[0];
        let rest = pieces.drop_first();
        let r = rest.flatten();
        let d = pieces.flatten();
        assert(d == p0 + r);
        assert(ends_at_line_end(p0));
        lemma_lines_concat(p0, r);
        let lp = lines_of(p0);
        let lr = lines_of(r);
        assert forall|i: int| 0 <= i < lines_of(r).len() - 1 implies !is_done_line(
            #[trigger] lines_of(r)[i],
        ) by {
            assert(lines_of(d)[lp.len() + i] == lr[i]);
        }
        assert forall|i: int| 0 <= i < rest.len() implies ends_at_line_end(#[trigger] rest[i]) by {
            assert(rest[i] == pieces[i + 1]);
        }
        lemma_pieces_content(rest, parse);
        assert(contents_of(pieces, parse).drop_first() =~= contents_of(rest, parse));
        assert(contents_of(pieces, parse).flatten() == lines_content(p0, parse) + lines_content(r, parse));
        if r.len() == 0 {
            assert(d =~= p0);
            assert(lines_content(p0, parse) + Seq::<char>::empty() =~= lines_content(p0, parse));
        } else {
            lemma_lines_nonempty(r, Seq::empty());
            assert forall|i: int| 0 <= i < lp.len() implies !is_done_line(#[trigger] lp[i]) by {
                assert(lines_of(d)[i] == lp[i]);
            }
            lemma_scan_concat(lp, lr);
            let s0 = scan_data_lines(lp).0;
            let s1 = scan_data_lines(lr).0;
            assert((s0 + s1).map_values(parse) =~= s0.map_values(parse) + s1.map_values(parse));
            lemma_events_text_concat(s0.map_values(parse), s1.map_values(parse));
        }
    }
}

proof fn lemma_flatten_line_end(pieces: Seq<Seq<char>>)
    requires
        forall|i: int| 0 <= i < pieces.len() ==> ends_at_line_end(#[trigger] pieces[i]),
    ensures
        ends_at_line_end(pieces.flatten()),
    decreases pieces.len(),
{
    if pieces.len() > 0 {
        let rest = pieces.drop_first();
        assert forall|i: int| 0 <= i < rest.len() implies ends_at_line_end(#[trigger] rest[i]) by {
            assert(rest[i] == pieces[i + 1]);
        }
        lemma_flatten_line_end(rest);
        assert(ends_at_line_end(pieces[0]));
        if rest.flatten().len() == 0 {
            assert(pieces[0] + rest.flatten() =~= pieces[0]);
        }
    }
}

/// Text cut into a part that ends at a line end and a rest without line end
/// can be cut so in one way only.
proof fn lemma_line_split_unique(p1: Seq<char>, t1: Seq<char>, p2: Seq<char>, t2: Seq<char>)
    requires
        p1 + t1 == p2 + t2,
        ends_at_line_end(p1),
        ends_at_line_end(p2),
        no_newline(t1),
        no_newline(t2),
    ensures
        p1 == p2,
        t1 == t2,
{
    let d = p1 + t1;
    assert(d.len() == p2.len() + t2.len());
    if p1.len() < p2.len() {
        let i = p2.len() - 1;
        assert((p2 + t2)[i] == p2[i]);
        assert((p1 + t1)[i] == t1[i - p1.len()]);
        assert(t1[i - p1.len()] != '\n');
    } else if p2.len() < p1.len() {
        let i = p1.len() - 1;
        assert((p1 + t1)[i] == p1[i]);
        assert((p2 + t2)[i] == t2[i - p2.len()]);
        assert(t2[i - p2.len()] != '\n');
    }
    assert(p1 =~= d.subrange(0, p1.len() as int));
    assert(p2 =~= d.subrange(0, p2.len() as int));
    assert(t1 =~= d.subrange(p1.len() as int, d.len() as int));
    assert(t2 =~= d.subrange(p2.len() as int, d.len() as int));
}

/// What a stream cut into pieces of valid UTF-8 yields: its text up to and
/// including the last line end, while the buffer keeps the text after it.
proof fn lemma_stream_split(chunks: Seq<Seq<u8>>)
    requires
        forall|i: int| 0 <= i < chunks.len() ==> valid_utf8(#[trigger] chunks[i]),
    ensures
        valid_utf8(chunks.flatten()),
        stream_run(Seq::empty(), chunks).0.flatten() + decode_utf8(stream_run(Seq::empty(), chunks).1)
            == decode_utf8(chunks.flatten()),
        ends_at_line_end(stream_run(Seq::empty(), chunks).0.flatten()),
        no_newline(decode_utf8(stream_run(Seq::empty(), chunks).1)),
        valid_utf8(stream_run(Seq::empty(), chunks).1),
        forall|i: int|
            0 <= i < stream_run(Seq::empty(), chunks).0.len() ==> ends_at_line_end(
                #[trigger] stream_run(Seq::empty(), chunks).0[i],
            ),
{
    let e = Seq::<u8>::empty();
    assert(valid_utf8(e));
    assert(decode_utf8(e) =~= Seq::<char>::empty());
    lemma_stream_run(e, chunks);
    assert(decode_utf8(e) + decode_utf8(chunks.flatten()) =~= decode_utf8(chunks.flatten()));
    lemma_flatten_line_end(stream_run(e, chunks).0);
}

/// A stream's bytes, cut into pieces of valid UTF-8 (cut at character
/// boundaries) and pushed in order into an empty buffer, yield the stream's
/// text up to its last line end, whatever the cuts; when the text ends with a
/// line end, they yield all of it and leave the buffer empty.
pub proof fn lemma_stream_yields_text(chunks: Seq<Seq<u8>>)
    requires
        forall|i: int| 0 <= i < chunks.len() ==> valid_utf8(#[trigger] chunks[i]),
    ensures
        valid_utf8(chunks.flatten()),
        ({
            let d = decode_utf8(chunks.flatten());
            let yielded = stream_run(Seq::empty(), chunks).0.flatten();
            &&& match last_newline(d) {
                Some(k) => yielded == d.subrange(0, k + 1),
                None => yielded == Seq::<char>::empty(),
            }
            &&& d.len() > 0 && d.last() == '\n' ==> yielded == d && stream_run(Seq::empty(), chunks).1
                == Seq::<u8>::empty()
        }),
{
    lemma_stream_split(chunks);
    let d = decode_utf8(chunks.flatten());
    let r = stream_run(Seq::empty(), chunks);
    let p = r.0.flatten();
    let t = decode_utf8(r.1);
    lemma_last_newline_after(d);
    match last_newline(d) {
        Some(k) => {
            let p2 = d.subrange(0, k + 1);
            let t2 = d.subrange(k + 1, d.len() as int);
            assert(p2 + t2 =~= d);
            lemma_line_split_unique(p, t, p2, t2);
        },
        None => {
            lemma_line_split_unique(p, t, Seq::empty(), d);
            assert(Seq::<char>::empty() + d =~= d);
        },
    }
    if d.len() > 0 && d.last() == '\n' {
        lemma_line_split_unique(p, t, d, Seq::empty());
        assert(d + Seq::<char>::empty() =~= d);
        decode_utf8_encode_utf8(r.1);
        assert(encode_utf8(Seq::<char>::empty()) =~= Seq::<u8>::empty());
    }
}

/// Whatever pieces a stream's bytes arrive in, as long as each is valid UTF-8
/// (cut at a character boundary), the answer text it yields is the same: the
/// text of the events in its complete lines, each `data:` payload read by
/// `parse`. This holds when no line but the last is the `[DONE]` marker (after
/// the marker each later push still yields its own events).
pub proof fn lemma_chunking_invariant(
    c1: Seq<Seq<u8>>,
    c2: Seq<Seq<u8>>,
    parse: spec_fn(Seq<char>) -> Option<OpenAIChunk>,
)
    requires
        c1.flatten() == c2.flatten(),
        forall|i: int| 0 <= i < c1.len() ==> valid_utf8(#[trigger] c1[i]),
        forall|i: int| 0 <= i < c2.len() ==> valid_utf8(#[trigger] c2[i]),
        done_only_at_end(decode_utf8(c1.flatten())),
    ensures
        streamed_content(c1, parse) == streamed_content(c2, parse),
{
    lemma_streamed_content(c1, parse);
    lemma_streamed_content(c2, parse);
}

/// The answer text a stream yields, cut into pieces of valid UTF-8, is the
/// text of the events in the stream's lines up to its last line end; for a
/// stream that ends with a line end, that of all its events. This holds when
/// no line but the last is the `[DONE]` marker.
pub proof fn lemma_streamed_content(chunks: Seq<Seq<u8>>, parse: spec_fn(Seq<char>) -> Option<OpenAIChunk>)
    requires
        forall|i: int| 0 <= i < chunks.len() ==> valid_utf8(#[trigger] chunks[i]),
        done_only_at_end(decode_utf8(chunks.flatten())),
    ensures
        valid_utf8(chunks.flatten()),
        ({
            let d = decode_utf8(chunks.flatten());
            &&& streamed_content(chunks, parse) == lines_content(
                match last_newline(d) {
                    Some(k) => d.subrange(0, k + 1),
                    None => Seq::<char>::empty(),
                },
                parse,
            )
            &&& d.len() > 0 && d.last() == '\n' ==> streamed_content(chunks, parse) == lines_content(d, parse)
        }),
{
    lemma_stream_split(chunks);
    lemma_stream_yields_text(chunks);
    let d = decode_utf8(chunks.flatten());
    let r = stream_run(Seq::empty(), chunks);
    let p = r.0.flatten();
    let t = decode_utf8(r.1);
    assert(p + t == d);
    lemma_lines_concat(p, t);
    if t.len() == 0 {
        assert(p =~= d);
    } else {
        lemma_lines_nonempty(t, Seq::empty());
        assert forall|i: int| 0 <= i < lines_of(p).len() - 1 implies !is_done_line(
            #[trigger] lines_of(p)[i],
        ) by {
            assert(lines_of(d)[i] == lines_of(p)[i]);
        }
    }
    lemma_pieces_content(r.0, parse);
}

/// The text a folded batch adds to the answer: its content, or nothing.
pub open spec fn fold_text(r: (Option<Seq<char>>, Option<Seq<char>>)) -> Seq<char> {
    match r.0 {
        Some(t) => t,
        None => Seq::empty(),
    }
}

/// Folding one event: its text is exactly the content of its first choice,
/// whatever characters it holds (whitespace included), and its finish reason
/// is the first choice's, unless `[DONE]` ended the batch; an event that did
/// not parse, has no choice or no content adds no text.
pub proof fn lemma_fold_one_event(c: Option<OpenAIChunk>, done: bool)
    ensures
        fold_text(spec_fold_events(seq![c], done)) == match c {
            Some(chunk) => if chunk.choices@.len() > 0 {
                match chunk.choices@[0].delta.content {
                    Some(t) => t@,
                    None => Seq::<char>::empty(),
                }
            } else {
                Seq::<char>::empty()
            },
            None => Seq::<char>::empty(),
        },
        spec_fold_events(seq![c], done).0 is Some <==> fold_text(spec_fold_events(seq![c], done)).len() > 0,
        spec_fold_events(seq![c], done).1 == if done {
            Some("stop"@)
        } else {
            match c {
                Some(chunk) => if chunk.choices@.len() > 0 {
                    match chunk.choices@[0].finish_reason {
                        Some(f) => Some(f@),
                        None => None,
                    }
                } else {
                    None
                },
                None => None,
            }
        },
{
    let e = seq![c];
    assert(e.drop_last() =~= Seq::<Option<OpenAIChunk>>::empty());
    assert(events_text(e.drop_last()) == Seq::<char>::empty());
    assert(events_finish(e.drop_last()) == None::<Seq<char>>);
    assert(e.last() == c);
    assert(Seq::<char>::empty() + event_text(c->0) =~= event_text(c->0));
    assert(Seq::<char>::empty() + Seq::<char>::empty() =~= Seq::<char>::empty());
}

/// Folding a batch of events joins their texts in order, nothing dropped or
/// added: the text of two batches one after the other is the text of the
/// first followed by that of the second. Without `[DONE]`, the finish reason
/// is the last one given.
pub proof fn lemma_fold_concat(e1: Seq<Option<OpenAIChunk>>, e2: Seq<Option<OpenAIChunk>>, done: bool)
    ensures
        fold_text(spec_fold_events(e1 + e2, done)) == fold_text(spec_fold_events(e1, done)) + fold_text(
            spec_fold_events(e2, done),
        ),
        !done ==> spec_fold_events(e1 + e2, done).1 == match spec_fold_events(e2, done).1 {
            Some(f) => Some(f),
            None => spec_fold_events(e1, done).1,
        },
    decreases e2.len(),
{
    lemma_events_text_concat(e1, e2);
    if e2.len() == 0 {
        assert(e1 + e2 =~= e1);
        assert(fold_text(spec_fold_events(e1, done)) + Seq::<char>::empty() =~= fold_text(
            spec_fold_events(e1, done),
        ));
    } else {
        assert((e1 + e2).drop_last() =~= e1 + e2.drop_last());
        assert((e1 + e2).last() == e2.last());
        lemma_fold_concat(e1, e2.drop_last(), done);
    }
}

} // verus!
