//! Bounded lines from the backend process.
use vstd::prelude::*;
use vstd::utf8::{decode_utf8, valid_utf8};
use crate::text::utf8_text;
use crate::text::utf8_complaint;

verus! {

/// The most bytes of a line.
pub const MAX_RPC_LINE_BYTES: usize = 1024 * 1024;

/// The complaint about a line that is too long.
pub const RPC_LINE_TOO_LONG: &'static str = "Pi RPC line exceeds 1 MiB";

/// Collects the bytes of one line.
#[derive(Debug)]
pub struct LineBuffer {
    bytes: Vec<u8>,
}

/// What available bytes did to a line.
#[derive(Clone, Copy, Debug, PartialEq, Eq, Structural)]
pub enum LineFeed {
    /// The line would be too long; nothing was taken.
    TooLong,
    /// All available bytes were taken, and the line goes on.
    More,
    /// So many bytes were taken, and the line ended with them.
    Ended(usize),
}

/// The place of the first line feed, or the length where there is none.
pub open spec fn line_length(bytes: Seq<u8>) -> int
    decreases bytes.len(),
{
    if bytes.len() == 0 || bytes[0] == 10 {
        0
    } else {
        1 + line_length(bytes.drop_first())
    }
}

/// The line length is a place, and no line feed comes before it.
proof fn lemma_line_length(bytes: Seq<u8>)
    ensures
        0 <= line_length(bytes) <= bytes.len(),
        line_length(bytes) < bytes.len() ==> bytes[line_length(bytes)] == 10,
        forall|i: int| 0 <= i < line_length(bytes) ==> bytes[i] != 10,
    decreases bytes.len(),
{
    if bytes.len() > 0 && bytes[0] != 10 {
        lemma_line_length(bytes.drop_first());
        assert forall|i: int| 0 <= i < line_length(bytes) implies bytes[i] != 10 by {
            if i > 0 {
                assert(bytes.drop_first()[i - 1] == bytes[i]);
            }
        }
    }
}

/// Before the first line feed there is none.
proof fn lemma_line_length_is(bytes: Seq<u8>, n: int)
    requires
        0 <= n <= bytes.len(),
        n < bytes.len() ==> bytes[n] == 10,
        forall|i: int| 0 <= i < n ==> bytes[i] != 10,
    ensures
        line_length(bytes) == n,
    decreases bytes.len(),
{
    if n > 0 {
        assert(bytes[0] != 10);
        assert forall|i: int| 0 <= i < n - 1 implies bytes.drop_first()[i] != 10 by {
            assert(bytes.drop_first()[i] == bytes[i + 1]);
        }
        lemma_line_length_is(bytes.drop_first(), n - 1);
    }
}

/// The line buffer after available bytes, and what they did to it.
pub open spec fn fed(buffer: Seq<u8>, available: Seq<u8>) -> (Seq<u8>, LineFeed) {
    let n = line_length(available);
    if buffer.len() + n > MAX_RPC_LINE_BYTES {
        (buffer, LineFeed::TooLong)
    } else {
        (
            buffer + available.take(n),
            if n < available.len() {
                LineFeed::Ended((n + 1) as usize)
            } else {
                LineFeed::More
            },
        )
    }
}

/// The bytes of a line without the carriage return before its end.
pub open spec fn without_return(bytes: Seq<u8>) -> Seq<u8> {
    if bytes.len() > 0 && bytes.last() == 13 {
        bytes.drop_last()
    } else {
        bytes
    }
}

impl View for LineBuffer {
    type V = Seq<u8>;

    closed spec fn view(&self) -> Seq<u8> {
        self.bytes@
    }
}

impl LineBuffer {
    /// An empty line.
    pub fn new() -> (r: LineBuffer)
        ensures
            r@ == Seq::<u8>::empty(),
    {
        LineBuffer { bytes: Vec::new() }
    }

    /// Whether no byte was collected. At the end of the stream there is then
    /// no further line.
    pub fn is_empty(&self) -> (r: bool)
        ensures
            r == (self@.len() == 0),
    {
        self.bytes.len() == 0
    }

    /// Takes available bytes up to the end of the line.
    pub fn feed(&mut self, available: &[u8]) -> (r: LineFeed)
        ensures
            (final(self)@, r) == fed(old(self)@, available@),
    {
        let size: usize = available.len();
        let mut n: usize = 0;
        while n < size && available[n] != 10
            invariant
                n <= size,
                size == available@.len(),
                forall|i: int| 0 <= i < n ==> available@[i] != 10,
            decreases size - n,
        {
            n = n + 1;
        }
        proof {
            lemma_line_length_is(available@, n as int);
        }
        if self.bytes.len().saturating_add(n) > MAX_RPC_LINE_BYTES {
            return LineFeed::TooLong;
        }
        let ghost before = self.bytes@;
        let mut i: usize = 0;
        assert(before + available@.take(0) =~= before);
        while i < n
            invariant
                i <= n <= size,
                size == available@.len(),
                self.bytes@ == before + available@.take(i as int),
            decreases n - i,
        {
            self.bytes.push(available[i]);
            assert(before + available@.take(i + 1) =~= (before + available@.take(i as int)).push(
                available@[i as int],
            ));
            i = i + 1;
        }
        if n < size {
            LineFeed::Ended(n + 1)
        } else {
            LineFeed::More
        }
    }

    /// The text of the line, or what is wrong with it.
    pub fn finish(self) -> (r: Result<String, String>)
        ensures
            match r {
                Ok(text) => valid_utf8(without_return(self@)) && text@ == decode_utf8(
                    without_return(self@),
                ),
                Err(message) => !valid_utf8(without_return(self@)) && message@ == utf8_complaint(
                    without_return(self@),
                ),
            },
    {
        let mut bytes = self.bytes;
        if bytes.len() > 0 && bytes[bytes.len() - 1] == 13 {
            bytes.pop();
        }
        assert(bytes@ =~= without_return(self@));
        utf8_text(bytes)
    }
}

/// How the stream is cut into pieces makes no difference: a piece without a
/// line feed before another does what both do together.
pub proof fn fragmentation_makes_no_difference(buffer: Seq<u8>, first: Seq<u8>, second: Seq<u8>)
    requires
        line_length(first) == first.len(),
    ensures
        ({
            let (between, more) = fed(buffer, first);
            let (after, end) = fed(between, second);
            let (whole, together) = fed(buffer, first + second);
            match together {
                LineFeed::Ended(n) => {
                    &&& more == LineFeed::More
                    &&& after == whole
                    &&& end is Ended && n == first.len() + end->Ended_0
                },
                LineFeed::More => {
                    &&& more == LineFeed::More
                    &&& after == whole
                    &&& end == LineFeed::More
                },
                LineFeed::TooLong => more == LineFeed::TooLong || end == LineFeed::TooLong,
            }
        }),
{
    let both = first + second;
    lemma_line_length(first);
    lemma_line_length(second);
    let n = first.len() + line_length(second);
    assert forall|i: int| 0 <= i < n implies both[i] != 10 by {
        if i < first.len() {
            assert(both[i] == first[i]);
        } else {
            assert(both[i] == second[i - first.len()]);
        }
    }
    if n < both.len() {
        assert(both[n] == second[line_length(second)]);
    }
    lemma_line_length_is(both, n);
    assert(first.take(first.len() as int) =~= first);
    assert(buffer + first + second.take(line_length(second)) =~= buffer + both.take(n));
}

/// A collected line never exceeds its limit.
pub proof fn lines_stay_bounded(buffer: Seq<u8>, available: Seq<u8>)
    requires
        buffer.len() <= MAX_RPC_LINE_BYTES,
    ensures
        fed(buffer, available).0.len() <= MAX_RPC_LINE_BYTES,
{
    lemma_line_length(available);
}

/// A line is taken up to its line feed, which belongs to it and is not kept; what follows is left.
/// Without a line feed all is taken, and the line goes on. A line of more than 1 MiB is refused,
/// and then nothing is taken.
pub proof fn lines_end_at_the_line_feed(buffer: Seq<u8>, text: Seq<u8>, rest: Seq<u8>)
    requires
        !text.contains(10),
        text.len() < usize::MAX,
    ensures
        buffer.len() + text.len() <= 1024 * 1024 ==> fed(buffer, text.push(10) + rest) == (
            buffer + text,
            LineFeed::Ended((text.len() + 1) as usize),
        ),
        buffer.len() + text.len() <= 1024 * 1024 ==> fed(buffer, text) == (
            buffer + text,
            LineFeed::More,
        ),
        buffer.len() + text.len() > 1024 * 1024 ==> fed(buffer, text.push(10) + rest) == (
            buffer,
            LineFeed::TooLong,
        ) && fed(buffer, text) == (buffer, LineFeed::TooLong),
{
    let n = text.len() as int;
    let whole = text.push(10) + rest;
    assert forall|i: int| 0 <= i < n implies whole[i] != 10 && text[i] != 10 by {
        assert(whole[i] == text[i]);
    }
    assert(whole[n] == 10);
    lemma_line_length_is(whole, n);
    lemma_line_length_is(text, n);
    assert(whole.take(n) =~= text);
    assert(text.take(n) =~= text);
}

/// A carriage return at the end of a line is not part of it; one of them is taken away.
pub proof fn carriage_returns_are_taken_away(bytes: Seq<u8>)
    ensures
        without_return(bytes.push(13)) == bytes,
        bytes.len() > 0 && bytes.last() != 13 ==> without_return(bytes) == bytes,
        without_return(Seq::empty()) == Seq::<u8>::empty(),
{
    assert(bytes.push(13).drop_last() =~= bytes);
}

} // verus!
