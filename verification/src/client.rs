//! The framing of responses: the status line, the line reader with its two
//! limits, and the reading of a whole response.
//!
//! Nothing here touches a stream. The reader is fed the bytes that one bounded
//! read brought, and says whether to read on or what the response is.

use vstd::prelude::*;
use vstd::utf8::{decode_utf8, valid_utf8};
use crate::error::{ErrorResponse, ErrorResponseView, IoErrorKind, Ts3Error, Ts3ErrorView};
use crate::escape::{unescape_spec, unescape_val};
use crate::number::{parse_as, parse_int};
use crate::text::{
    chars_of, split_chars, split_on, starts_with_at, starts_with_spec, str_eq, string_from_utf8,
    substring,
};
use crate::{LIMIT_LINE_BYTES, LIMIT_READ_LINES};

verus! {

/// The byte that ends every line of a response: carriage return.
pub const LINE_END: u8 = 13;

/// The byte that may stand before the line end and is dropped with it: line
/// feed.
pub const LINE_FEED: u8 = 10;

/// What a status line says: `Ok` for `error id=0 ...`, the server's error for
/// another id, and an `InvalidResponse` where the line is no status line. The
/// line is split at single spaces; its first three pieces have to be `error`,
/// `id=` with an unsigned integer, and `msg=` with the escaped message.
pub open spec fn status_of(line: Seq<char>) -> Result<(), Ts3ErrorView> {
    let parts = split_on(line, ' ');
    if parts.len() >= 3 && parts[0] == "error"@ && starts_with_spec(parts[1], "id="@)
        && starts_with_spec(parts[2], "msg="@) {
        match parse_as::<usize>(parts[1].skip(3)) {
            Some(id) => if id == 0 {
                Ok(())
            } else {
                Err(
                    Ts3ErrorView::ServerError {
                        response: ErrorResponseView {
                            id: id as usize,
                            msg: unescape_spec(parts[2].skip(4)),
                        },
                    },
                )
            },
            None => Err(
                Ts3ErrorView::InvalidResponse {
                    context: "expected usize, got "@,
                    data: parts[1].skip(3),
                },
            ),
        }
    } else {
        Err(Ts3ErrorView::InvalidResponse { context: "expected id and msg, got "@, data: line })
    }
}

/// The text that `String::from_utf8_lossy` makes of `bytes`: the decoded
/// text, with U+FFFD in place of what is not valid UTF-8.
pub uninterp spec fn lossy_utf8(bytes: Seq<u8>) -> Seq<char>;

/// Decodes `bytes` as UTF-8, whatever they hold.
///
/// Trusted: calls `String::from_utf8_lossy`. The result is named
/// `lossy_utf8(bytes)`; nothing more is claimed of it.
#[verifier::external_body]
fn string_from_utf8_lossy(bytes: &Vec<u8>) -> (s: String)
    ensures
        s@ == lossy_utf8(bytes@),
{
    String::from_utf8_lossy(bytes).into_owned()
}

/// A line as read, without its end: the final carriage return is dropped, and
/// a line feed before it too.
pub open spec fn strip_line_end(chunk: Seq<u8>) -> Seq<u8>
    recommends
        chunk.len() > 0,
        chunk.last() == LINE_END,
{
    let body = chunk.drop_last();
    if body.len() > 0 && body.last() == LINE_FEED {
        body.drop_last()
    } else {
        body
    }
}

/// What is known of a response while it is read.
pub struct ReaderView {
    /// The data lines read so far.
    pub lines: Seq<Seq<char>>,
    /// How many more lines may be read; at least one.
    pub remaining: nat,
    /// How many bytes a line may have, its end included.
    pub line_bytes: u64,
}

/// What the reader says after a read.
pub enum StepView {
    /// Read another line.
    More(ReaderView),
    /// The response is complete, or reading failed.
    Done(Result<Seq<Seq<char>>, Ts3ErrorView>),
}

/// The state after one more line was counted, where `remaining` lines could
/// be read before it: reading goes on while lines remain, and fails with the
/// lines read so far where this was the last one.
pub open spec fn after_line(lines: Seq<Seq<char>>, remaining: nat, line_bytes: u64) -> StepView {
    if remaining <= 1 {
        StepView::Done(Err(Ts3ErrorView::ResponseLimit { response: lines }))
    } else {
        StepView::More(ReaderView { lines, remaining: (remaining - 1) as nat, line_bytes })
    }
}

/// What the reader in state `state` says when a read that was bounded by
/// `state.line_bytes` brought `chunk`.
///
/// - A chunk that ends with the line end is a line. An empty line is
///   skipped, but counted. A line that is not valid UTF-8 fails. A line that
///   starts with `error ` is the status line and ends the response: with the
///   data lines where the status is 0, with the server's error otherwise.
///   Any other line is a data line.
/// - An empty chunk means that nothing could be read: the connection is
///   closed. This comes first, so a byte budget of 0, under which every read
///   is empty, gives this error and no other.
/// - A chunk without line end that used up the byte budget is an oversized
///   line; on the last line that may be read this counts as the response
///   limit.
/// - Anything else is a line that the end of the stream cut short.
pub open spec fn step_spec(state: ReaderView, chunk: Seq<u8>) -> StepView {
    if chunk.len() > 0 && chunk.last() == LINE_END {
        let body = strip_line_end(chunk);
        if body.len() == 0 {
            after_line(state.lines, state.remaining, state.line_bytes)
        } else if !valid_utf8(body) {
            StepView::Done(Err(Ts3ErrorView::Utf8Error { bytes: body }))
        } else if starts_with_spec(decode_utf8(body), "error "@) {
            match status_of(decode_utf8(body)) {
                Ok(()) => StepView::Done(Ok(state.lines)),
                Err(e) => StepView::Done(Err(e)),
            }
        } else {
            after_line(state.lines.push(decode_utf8(body)), state.remaining, state.line_bytes)
        }
    } else if chunk.len() == 0 {
        StepView::Done(Err(Ts3ErrorView::ConnectionClosed))
    } else if chunk.len() >= state.line_bytes {
        if state.remaining <= 1 {
            StepView::Done(Err(Ts3ErrorView::ResponseLimit { response: state.lines }))
        } else {
            StepView::Done(Err(Ts3ErrorView::OversizedLine { response: state.lines }))
        }
    } else {
        StepView::Done(
            Err(
                Ts3ErrorView::InvalidResponse {
                    context: "expected \\r delimiter, got: "@,
                    data: lossy_utf8(chunk),
                },
            ),
        )
    }
}

/// The state in which the reading of a response starts, for the two limits.
/// With a limit of no line at all the reading fails at once.
pub open spec fn start_spec(max_lines: usize, max_line_bytes: u64) -> StepView {
    if max_lines == 0 {
        StepView::Done(Err(Ts3ErrorView::ResponseLimit { response: Seq::empty() }))
    } else {
        StepView::More(
            ReaderView { lines: Seq::empty(), remaining: max_lines as nat, line_bytes: max_line_bytes },
        )
    }
}

/// The number of bytes of `s` before the first line end; the length of `s`
/// where it holds none.
pub open spec fn line_end_index(s: Seq<u8>) -> nat
    decreases s.len(),
{
    if s.len() == 0 || s[0] == LINE_END {
        0
    } else {
        1 + line_end_index(s.drop_first())
    }
}

/// The number of bytes that a read bounded by `budget` takes from `stream`:
/// up to the first line end and including it, but no more than `budget` and
/// no more than there are.
pub open spec fn chunk_len(stream: Seq<u8>, budget: u64) -> nat {
    let stop = line_end_index(stream) + 1;
    let most = if stream.len() <= budget {
        stream.len()
    } else {
        budget as nat
    };
    if stop <= most {
        stop
    } else {
        most
    }
}

/// What the reading of a response from `stream` gives when it starts in
/// `step`, and how many bytes of `stream` it takes.
pub open spec fn read_spec(step: StepView, stream: Seq<u8>) -> (
    Result<Seq<Seq<char>>, Ts3ErrorView>,
    nat,
)
    decreases
            (match step {
                StepView::More(state) => state.remaining + 1,
                StepView::Done(_) => 0,
            }),
{
    match step {
        StepView::Done(r) => (r, 0),
        StepView::More(state) => {
            let n = chunk_len(stream, state.line_bytes);
            let rest = read_spec(step_spec(state, stream.take(n as int)), stream.skip(n as int));
            (rest.0, n + rest.1)
        },
    }
}

/// The view of what the reading of a response gives.
pub open spec fn response_view(r: Result<Vec<String>, Ts3Error>) -> Result<
    Seq<Seq<char>>,
    Ts3ErrorView,
> {
    match r {
        Ok(lines) => Ok(lines.deep_view()),
        Err(e) => Err(e@),
    }
}

/// What the reading of a response from `stream` gives under the two limits,
/// and how many bytes of `stream` it takes.
pub open spec fn response_of(stream: Seq<u8>, max_lines: usize, max_line_bytes: u64) -> (
    Result<Seq<Seq<char>>, Ts3ErrorView>,
    nat,
) {
    read_spec(start_spec(max_lines, max_line_bytes), stream)
}

/// No byte before `line_end_index` is a line end, and the byte at it is one.
pub proof fn lemma_line_end_index(s: Seq<u8>)
    ensures
        line_end_index(s) <= s.len(),
        line_end_index(s) < s.len() ==> s[line_end_index(s) as int] == LINE_END,
        forall|i: int| 0 <= i < line_end_index(s) ==> s[i] != LINE_END,
    decreases s.len(),
{
    if s.len() > 0 && s[0] != LINE_END {
        let rest = s.drop_first();
        lemma_line_end_index(rest);
        assert forall|i: int| 0 <= i < line_end_index(s) implies s[i] != LINE_END by {
            if i > 0 {
                assert(s[i] == rest[i - 1]);
            }
        }
    }
}

/// A first line that uses up the byte budget before its end comes fails the
/// reading: as an oversized line, or as the response limit where only one
/// line may be read. Exactly the budget is taken from the stream. Under a
/// budget of 0 nothing can be read at all, and the reading fails as on a
/// closed connection.
pub proof fn lemma_oversized_first_line(stream: Seq<u8>, max_lines: usize, max_line_bytes: u64)
    requires
        max_lines >= 1,
        stream.len() >= max_line_bytes,
        line_end_index(stream) >= max_line_bytes,
    ensures
        response_of(stream, max_lines, max_line_bytes).0 is Err,
        response_of(stream, max_lines, max_line_bytes).1 == max_line_bytes,
        max_line_bytes == 0 ==> response_of(stream, max_lines, max_line_bytes).0 == Err::<
            Seq<Seq<char>>,
            _,
        >(Ts3ErrorView::ConnectionClosed),
        max_line_bytes > 0 && max_lines == 1 ==> response_of(
            stream,
            max_lines,
            max_line_bytes,
        ).0 == Err::<Seq<Seq<char>>, _>(Ts3ErrorView::ResponseLimit { response: Seq::empty() }),
        max_line_bytes > 0 && max_lines > 1 ==> response_of(
            stream,
            max_lines,
            max_line_bytes,
        ).0 == Err::<Seq<Seq<char>>, _>(Ts3ErrorView::OversizedLine { response: Seq::empty() }),
{
    lemma_line_end_index(stream);
    let state = ReaderView {
        lines: Seq::empty(),
        remaining: max_lines as nat,
        line_bytes: max_line_bytes,
    };
    let n = chunk_len(stream, max_line_bytes);
    assert(n == max_line_bytes);
    let chunk = stream.take(n as int);
    if n > 0 {
        assert(chunk.last() == stream[n - 1]);
    }
    let next = step_spec(state, chunk);
    assert(next is Done);
    assert(read_spec(next, stream.skip(n as int)).1 == 0);
}

/// A status line never gives a server error with the code 0: that code is
/// success.
pub proof fn lemma_server_error_code(line: Seq<char>)
    ensures
        status_of(line) matches Err(Ts3ErrorView::ServerError { response }) ==> response.id != 0,
{
}

/// What a data line of a response is: not empty, and no status line.
pub open spec fn is_data_text(line: Seq<char>) -> bool {
    line.len() > 0 && !starts_with_spec(line, "error "@)
}

proof fn lemma_read_keeps_data_lines(state: ReaderView, stream: Seq<u8>)
    requires
        state.remaining >= 1,
        forall|i: int| 0 <= i < state.lines.len() ==> is_data_text(#[trigger] state.lines[i]),
    ensures
        match read_spec(StepView::More(state), stream).0 {
            Ok(lines) => forall|i: int| 0 <= i < lines.len() ==> is_data_text(#[trigger] lines[i]),
            Err(Ts3ErrorView::ResponseLimit { response }) => forall|i: int|
                0 <= i < response.len() ==> is_data_text(#[trigger] response[i]),
            Err(Ts3ErrorView::OversizedLine { response }) => forall|i: int|
                0 <= i < response.len() ==> is_data_text(#[trigger] response[i]),
            Err(_) => true,
        },
    decreases state.remaining,
{
    let n = chunk_len(stream, state.line_bytes);
    let chunk = stream.take(n as int);
    let rest = stream.skip(n as int);
    let next = step_spec(state, chunk);
    assert(read_spec(StepView::More(state), stream).0 == read_spec(next, rest).0);
    if chunk.len() > 0 && chunk.last() == LINE_END {
        let body = strip_line_end(chunk);
        if body.len() == 0 {
            if state.remaining > 1 {
                lemma_read_keeps_data_lines(
                    ReaderView { remaining: (state.remaining - 1) as nat, ..state },
                    rest,
                );
            }
        } else if valid_utf8(body) && !starts_with_spec(decode_utf8(body), "error "@) {
            let lines = state.lines.push(decode_utf8(body));
            assert(decode_utf8(body).len() > 0);
            assert forall|i: int| 0 <= i < lines.len() implies is_data_text(
                #[trigger] lines[i],
            ) by {
                if i < state.lines.len() {
                    assert(lines[i] == state.lines[i]);
                }
            }
            if state.remaining > 1 {
                lemma_read_keeps_data_lines(
                    ReaderView {
                        lines,
                        remaining: (state.remaining - 1) as nat,
                        line_bytes: state.line_bytes,
                    },
                    rest,
                );
            }
        }
    }
}

/// The lines that the reading of a response gives are data lines: none is
/// empty and none is a status line. The same holds of the lines that the
/// errors for a reached limit carry.
pub proof fn lemma_response_lines(stream: Seq<u8>, max_lines: usize, max_line_bytes: u64)
    ensures
        match response_of(stream, max_lines, max_line_bytes).0 {
            Ok(lines) => forall|i: int| 0 <= i < lines.len() ==> is_data_text(#[trigger] lines[i]),
            Err(Ts3ErrorView::ResponseLimit { response }) => forall|i: int|
                0 <= i < response.len() ==> is_data_text(#[trigger] response[i]),
            Err(Ts3ErrorView::OversizedLine { response }) => forall|i: int|
                0 <= i < response.len() ==> is_data_text(#[trigger] response[i]),
            Err(_) => true,
        },
{
    if max_lines > 0 {
        lemma_read_keeps_data_lines(
            ReaderView {
                lines: Seq::empty(),
                remaining: max_lines as nat,
                line_bytes: max_line_bytes,
            },
            stream,
        );
    }
}

/// A data line as it travels: not empty, valid UTF-8, without a line end
/// inside, without a line feed at its end, and not starting with `error `.
pub open spec fn is_data_line(body: Seq<u8>) -> bool {
    &&& body.len() > 0
    &&& valid_utf8(body)
    &&& forall|i: int| 0 <= i < body.len() ==> body[i] != LINE_END
    &&& body.last() != LINE_FEED
    &&& !starts_with_spec(decode_utf8(body), "error "@)
}

/// The bytes of the lines `bodies`, each followed by the line end.
pub open spec fn framed(bodies: Seq<Seq<u8>>) -> Seq<u8>
    decreases bodies.len(),
{
    if bodies.len() == 0 {
        Seq::empty()
    } else {
        bodies[0].push(LINE_END) + framed(bodies.drop_first())
    }
}

/// The texts of the lines `bodies`.
pub open spec fn decoded(bodies: Seq<Seq<u8>>) -> Seq<Seq<char>> {
    bodies.map_values(|b: Seq<u8>| decode_utf8(b))
}

proof fn lemma_line_end_after_body(body: Seq<u8>, rest: Seq<u8>)
    requires
        forall|i: int| 0 <= i < body.len() ==> body[i] != LINE_END,
    ensures
        line_end_index(body.push(LINE_END) + rest) == body.len(),
    decreases body.len(),
{
    let s = body.push(LINE_END) + rest;
    if body.len() == 0 {
        assert(s[0] == LINE_END);
    } else {
        assert(s[0] == body[0]);
        let tail = body.drop_first();
        assert forall|i: int| 0 <= i < tail.len() implies tail[i] != LINE_END by {
            assert(tail[i] == body[i + 1]);
        }
        lemma_line_end_after_body(tail, rest);
        assert(s.drop_first() == tail.push(LINE_END) + rest);
    }
}

proof fn lemma_data_lines_fill(state: ReaderView, bodies: Seq<Seq<u8>>, rest: Seq<u8>)
    requires
        state.remaining >= 1,
        bodies.len() >= state.remaining,
        forall|i: int|
            0 <= i < bodies.len() ==> is_data_line(#[trigger] bodies[i]) && bodies[i].len()
                < state.line_bytes,
    ensures
        read_spec(StepView::More(state), framed(bodies) + rest).0 == Err::<Seq<Seq<char>>, _>(
            Ts3ErrorView::ResponseLimit {
                response: state.lines + decoded(bodies).take(state.remaining as int),
            },
        ),
    decreases state.remaining,
{
    let body = bodies[0];
    let others = bodies.drop_first();
    let stream = framed(bodies) + rest;
    let after = framed(others) + rest;
    assert(is_data_line(body));
    assert(stream == body.push(LINE_END) + after);
    lemma_line_end_after_body(body, after);
    let n = chunk_len(stream, state.line_bytes);
    assert(n == body.len() + 1);
    let chunk = stream.take(n as int);
    assert(chunk == body.push(LINE_END));
    assert(chunk.drop_last() == body);
    assert(strip_line_end(chunk) == body);
    assert(stream.skip(n as int) == after);
    let lines = state.lines.push(decode_utf8(body));
    let next = step_spec(state, chunk);
    assert(next == after_line(lines, state.remaining, state.line_bytes));
    let all = decoded(bodies);
    assert(all[0] == decode_utf8(body));
    assert(read_spec(StepView::More(state), stream).0 == read_spec(next, after).0);
    if state.remaining <= 1 {
        assert(all.take(1) == seq![decode_utf8(body)]);
        assert(state.lines + seq![decode_utf8(body)] == lines);
        assert(all.take(state.remaining as int) == all.take(1));
        assert(next == StepView::Done(
            Err(Ts3ErrorView::ResponseLimit { response: lines }),
        ));
    } else {
        let next_state = ReaderView {
            lines,
            remaining: (state.remaining - 1) as nat,
            line_bytes: state.line_bytes,
        };
        assert forall|i: int| 0 <= i < others.len() implies is_data_line(#[trigger] others[i])
            && others[i].len() < next_state.line_bytes by {
            assert(others[i] == bodies[i + 1]);
        }
        assert(next == StepView::More(next_state));
        lemma_data_lines_fill(next_state, others, rest);
        assert(decoded(others) == all.drop_first());
        assert(lines + all.drop_first().take(state.remaining - 1) == state.lines + all.take(
            state.remaining as int,
        ));
    }
}

/// A stream that brings as many data lines as may be read, or more, and no
/// status line among them fails the reading with the response limit, and the
/// error holds exactly the lines that were read, in order. Whatever follows
/// those lines in the stream plays no part.
pub proof fn lemma_line_limit(
    bodies: Seq<Seq<u8>>,
    rest: Seq<u8>,
    max_lines: usize,
    max_line_bytes: u64,
)
    requires
        bodies.len() >= max_lines,
        forall|i: int|
            0 <= i < bodies.len() ==> is_data_line(#[trigger] bodies[i]) && bodies[i].len()
                < max_line_bytes,
    ensures
        response_of(framed(bodies) + rest, max_lines, max_line_bytes).0 == Err::<
            Seq<Seq<char>>,
            _,
        >(Ts3ErrorView::ResponseLimit { response: decoded(bodies).take(max_lines as int) }),
{
    if max_lines == 0 {
        assert(decoded(bodies).take(0) == Seq::<Seq<char>>::empty());
    } else {
        let state = ReaderView {
            lines: Seq::empty(),
            remaining: max_lines as nat,
            line_bytes: max_line_bytes,
        };
        lemma_data_lines_fill(state, bodies, rest);
        assert(Seq::<Seq<char>>::empty() + decoded(bodies).take(max_lines as int) == decoded(
            bodies,
        ).take(max_lines as int));
    }
}

/// The reader of one response: it is fed what each bounded read brought and
/// keeps the data lines and the count of lines that may still be read.
#[derive(Debug)]
pub struct ResponseReader {
    lines: Vec<String>,
    remaining: usize,
    line_bytes: u64,
}

impl View for ResponseReader {
    type V = ReaderView;

    closed spec fn view(&self) -> ReaderView {
        ReaderView {
            lines: self.lines.deep_view(),
            remaining: self.remaining as nat,
            line_bytes: self.line_bytes,
        }
    }
}

/// What the reader asks for next.
#[derive(Debug)]
pub enum ReadStep {
    /// Read another line, of at most `budget()` bytes, and feed it.
    More(ResponseReader),
    /// The response is complete, or reading failed.
    Done(Result<Vec<String>, Ts3Error>),
}

impl View for ReadStep {
    type V = StepView;

    open spec fn view(&self) -> StepView {
        match self {
            ReadStep::More(reader) => StepView::More(reader@),
            ReadStep::Done(Ok(lines)) => StepView::Done(Ok(lines.deep_view())),
            ReadStep::Done(Err(e)) => StepView::Done(Err(e@)),
        }
    }
}

impl ResponseReader {
    #[verifier::type_invariant]
    spec fn well_formed(self) -> bool {
        self.remaining >= 1
    }

    /// The step after one more line was counted.
    fn after_line(lines: Vec<String>, remaining: usize, line_bytes: u64) -> (r: ReadStep)
        ensures
            r@ == after_line(lines.deep_view(), remaining as nat, line_bytes),
    {
        if remaining <= 1 {
            ReadStep::Done(Err(Ts3Error::ResponseLimit { response: lines }))
        } else {
            ReadStep::More(ResponseReader { lines, remaining: remaining - 1, line_bytes })
        }
    }

    /// Starts the reading of a response of at most `max_lines` lines, each of
    /// at most `max_line_bytes` bytes.
    pub fn start(max_lines: usize, max_line_bytes: u64) -> (r: ReadStep)
        ensures
            r@ == start_spec(max_lines, max_line_bytes),
    {
        let lines: Vec<String> = Vec::new();
        proof {
            assert(lines.deep_view() == Seq::<Seq<char>>::empty());
        }
        if max_lines == 0 {
            ReadStep::Done(Err(Ts3Error::ResponseLimit { response: lines }))
        } else {
            ReadStep::More(ResponseReader { lines, remaining: max_lines, line_bytes: max_line_bytes })
        }
    }

    /// The number of bytes that the next read may bring at most.
    pub fn budget(&self) -> (r: u64)
        ensures
            r == self@.line_bytes,
            self@.remaining >= 1,
    {
        proof {
            use_type_invariant(self);
        }
        self.line_bytes
    }

    /// Takes what one read brought: the bytes up to and including the line
    /// end, or fewer where the budget or the stream ended first.
    pub fn feed(self, chunk: Vec<u8>) -> (r: ReadStep)
        ensures
            r@ == step_spec(self@, chunk@),
    {
        proof {
            use_type_invariant(&self);
        }
        let ResponseReader { lines, remaining, line_bytes } = self;
        let n = chunk.len();
        if n > 0 && chunk[n - 1] == LINE_END {
            let mut body = chunk;
            body.pop();
            if body.len() > 0 && body[body.len() - 1] == LINE_FEED {
                body.pop();
            }
            assert(body@ == strip_line_end(chunk@));
            if body.len() == 0 {
                return Self::after_line(lines, remaining, line_bytes);
            }
            match string_from_utf8(body) {
                Err(bytes) => ReadStep::Done(Err(Ts3Error::Utf8Error { bytes })),
                Ok(line) => {
                    let chars = chars_of(line.as_str());
                    proof {
                        assert(chars@.skip(0) == chars@);
                    }
                    if starts_with_at(&chars, 0, "error ") {
                        match QueryClient::check_ok(line.as_str()) {
                            Ok(()) => ReadStep::Done(Ok(lines)),
                            Err(e) => ReadStep::Done(Err(e)),
                        }
                    } else {
                        let mut lines = lines;
                        let ghost before = lines.deep_view();
                        lines.push(line);
                        proof {
                            assert(lines.deep_view() == before.push(line@));
                        }
                        Self::after_line(lines, remaining, line_bytes)
                    }
                },
            }
        } else if n == 0 {
            ReadStep::Done(Err(Ts3Error::ConnectionClosed))
        } else if n as u64 >= line_bytes {
            if remaining <= 1 {
                ReadStep::Done(Err(Ts3Error::ResponseLimit { response: lines }))
            } else {
                ReadStep::Done(Err(Ts3Error::OversizedLine { response: lines }))
            }
        } else {
            let data = string_from_utf8_lossy(&chunk);
            ReadStep::Done(
                Err(Ts3Error::InvalidResponse { context: "expected \\r delimiter, got: ", data }),
            )
        }
    }
}

/// What one read of at most `budget` bytes takes from `stream` at `pos`.
fn take_chunk(stream: &[u8], pos: usize, budget: u64) -> (chunk: Vec<u8>)
    requires
        pos <= stream@.len(),
    ensures
        chunk@.len() <= stream@.len() - pos,
        chunk@.len() == chunk_len(stream@.skip(pos as int), budget),
        chunk@ == stream@.skip(pos as int).take(chunk@.len() as int),
{
    let mut chunk: Vec<u8> = Vec::new();
    let mut i: usize = pos;
    let ghost rest = stream@.skip(pos as int);
    while i < stream.len() && ((i - pos) as u64) < budget
        invariant
            pos <= i <= stream@.len(),
            rest == stream@.skip(pos as int),
            i - pos <= budget,
            chunk@ == rest.take(i - pos),
            line_end_index(rest) == (i - pos) + line_end_index(stream@.skip(i as int)),
        decreases stream@.len() - i,
    {
        let b = stream[i];
        chunk.push(b);
        proof {
            assert(rest.take(i - pos + 1) == rest.take(i - pos).push(rest[i - pos]));
            assert(stream@.skip(i as int).drop_first() == stream@.skip(i + 1));
        }
        i = i + 1;
        if b == LINE_END {
            return chunk;
        }
    }
    proof {
        lemma_line_end_index(stream@.skip(i as int));
    }
    chunk
}

/// The framing side of a query connection: the two limits that guard the
/// reading of a response.
#[derive(Debug)]
pub struct QueryClient {
    limit_lines: usize,
    limit_lines_bytes: u64,
}

/// The view of a `QueryClient`: its two limits.
pub struct QueryClientView {
    pub limit_lines: usize,
    pub limit_lines_bytes: u64,
}

impl View for QueryClient {
    type V = QueryClientView;

    closed spec fn view(&self) -> QueryClientView {
        QueryClientView { limit_lines: self.limit_lines, limit_lines_bytes: self.limit_lines_bytes }
    }
}

impl QueryClient {
    /// A client with the default limits.
    pub fn new() -> (r: QueryClient)
        ensures
            r@.limit_lines == LIMIT_READ_LINES,
            r@.limit_lines_bytes == LIMIT_LINE_BYTES,
    {
        QueryClient { limit_lines: LIMIT_READ_LINES, limit_lines_bytes: LIMIT_LINE_BYTES }
    }

    /// Sets the number of lines that a response may have.
    pub fn limit_lines(&mut self, limit: usize)
        ensures
            final(self)@.limit_lines == limit,
            final(self)@.limit_lines_bytes == old(self)@.limit_lines_bytes,
    {
        self.limit_lines = limit;
    }

    /// Sets the number of bytes that a line of a response may have.
    pub fn limit_line_bytes(&mut self, limit: u64)
        ensures
            final(self)@.limit_lines_bytes == limit,
            final(self)@.limit_lines == old(self)@.limit_lines,
    {
        self.limit_lines_bytes = limit;
    }

    /// Whether a failure of kind `kind` while reading the second line of the
    /// greeting only means that the server sent no second line: a timeout, or
    /// a read that would block. Any other failure ends the handshake.
    pub fn greeting_may_lack(kind: IoErrorKind) -> (r: bool)
        ensures
            r == (kind == IoErrorKind::TimedOut || kind == IoErrorKind::WouldBlock),
    {
        match kind {
            IoErrorKind::TimedOut => true,
            IoErrorKind::WouldBlock => true,
            IoErrorKind::Other => false,
        }
    }

    /// Starts the reading of a response under this client's limits.
    pub fn begin_response(&self) -> (r: ReadStep)
        ensures
            r@ == start_spec(self@.limit_lines, self@.limit_lines_bytes),
    {
        ResponseReader::start(self.limit_lines, self.limit_lines_bytes)
    }

    /// Reads one response from `stream`, which holds the bytes that the
    /// server sent: the data lines, or the error that ended the reading, and
    /// the number of bytes that were taken from `stream`.
    pub fn read_response(&self, stream: &[u8]) -> (r: (Result<Vec<String>, Ts3Error>, usize))
        ensures
            response_view(r.0) == response_of(
                stream@,
                self@.limit_lines,
                self@.limit_lines_bytes,
            ).0,
            r.1 == response_of(stream@, self@.limit_lines, self@.limit_lines_bytes).1,
    {
        let mut step = self.begin_response();
        let mut pos: usize = 0;
        let total = stream.len();
        let ghost goal = response_of(stream@, self@.limit_lines, self@.limit_lines_bytes);
        proof {
            assert(stream@.skip(0) == stream@);
        }
        loop
            invariant
                pos <= stream@.len() == total,
                goal == response_of(stream@, self@.limit_lines, self@.limit_lines_bytes),
                goal.0 == read_spec(step@, stream@.skip(pos as int)).0,
                goal.1 == pos + read_spec(step@, stream@.skip(pos as int)).1,
            decreases
                    (match step@ {
                        StepView::More(state) => state.remaining + 1,
                        StepView::Done(_) => 0,
                    }),
        {
            match step {
                ReadStep::Done(r) => {
                    return (r, pos);
                },
                ReadStep::More(reader) => {
                    let budget = reader.budget();
                    let chunk = take_chunk(stream, pos, budget);
                    proof {
                        let rest = stream@.skip(pos as int);
                        assert(rest.skip(chunk@.len() as int) == stream@.skip(
                            pos + chunk@.len(),
                        ));
                    }
                    pos = pos + chunk.len();
                    step = reader.feed(chunk);
                },
            }
        }
    }

    /// Decodes the status line `msg`: `Ok` for id 0, the server's error for
    /// another id, an `InvalidResponse` for a line of another shape.
    pub fn check_ok(msg: &str) -> (r: Result<(), Ts3Error>)
        ensures
            match r {
                Ok(()) => status_of(msg@) == Ok::<(), Ts3ErrorView>(()),
                Err(e) => status_of(msg@) == Err::<(), _>(e@),
            },
    {
        let chars = chars_of(msg);
        let parts = split_chars(&chars, ' ');
        proof {
            reveal_strlit("id=");
            reveal_strlit("msg=");
        }
        if parts.len() >= 3 && str_eq(parts[0].as_str(), "error") {
            let id_part = chars_of(parts[1].as_str());
            let msg_part = chars_of(parts[2].as_str());
            proof {
                assert(id_part@.skip(0) == id_part@);
                assert(msg_part@.skip(0) == msg_part@);
            }
            if starts_with_at(&id_part, 0, "id=") && starts_with_at(&msg_part, 0, "msg=") {
                let id_text = substring(&id_part, 3, id_part.len());
                proof {
                    assert(id_part@.subrange(3, id_part@.len() as int) == id_part@.skip(3));
                    assert(msg_part@.subrange(4, msg_part@.len() as int) == msg_part@.skip(4));
                }
                return match parse_int::<usize>(id_text.as_str()) {
                    Some(id) => if id == 0 {
                        Ok(())
                    } else {
                        let raw = substring(&msg_part, 4, msg_part.len());
                        Err(
                            Ts3Error::ServerError {
                                response: ErrorResponse { id, msg: unescape_val(raw.as_str()) },
                            },
                        )
                    },
                    None => Err(
                        Ts3Error::InvalidResponse { context: "expected usize, got ", data: id_text },
                    ),
                };
            }
        }
        Err(Ts3Error::InvalidResponse { context: "expected id and msg, got ", data: msg.to_owned() })
    }
}

} // verus!
