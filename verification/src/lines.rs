//! Splitting a stream of bytes into lines, chunk by chunk.
//!
//! A line ends at a line feed. The line feed is not part of the line, nor is a
//! carriage return that stands directly before it. What follows the last line
//! feed is the open line: it is kept until more bytes come or the stream ends.
use vstd::prelude::*;

verus! {

pub const LINE_FEED: u8 = 10;

pub const CARRIAGE_RETURN: u8 = 13;

/// The open line of `stream`: the bytes after its last line feed.
pub open spec fn pending(stream: Seq<u8>) -> Seq<u8>
    decreases stream.len(),
{
    if stream.len() == 0 {
        Seq::empty()
    } else if stream.last() == LINE_FEED {
        Seq::empty()
    } else {
        pending(stream.drop_last()).push(stream.last())
    }
}

/// `line` without the carriage return at its end, if it has one there.
pub open spec fn strip_carriage_return(line: Seq<u8>) -> Seq<u8> {
    if line.len() > 0 && line.last() == CARRIAGE_RETURN {
        line.drop_last()
    } else {
        line
    }
}

/// The lines of `stream` that a line feed has ended, in order.
pub open spec fn complete_lines(stream: Seq<u8>) -> Seq<Seq<u8>>
    decreases stream.len(),
{
    if stream.len() == 0 {
        Seq::empty()
    } else if stream.last() == LINE_FEED {
        complete_lines(stream.drop_last()).push(
            strip_carriage_return(pending(stream.drop_last())),
        )
    } else {
        complete_lines(stream.drop_last())
    }
}

/// The line that the end of a stream makes of the open line: the open line
/// itself, unless it is empty.
pub open spec fn closing_line(open_line: Seq<u8>) -> Seq<Seq<u8>> {
    if open_line.len() > 0 {
        seq![open_line]
    } else {
        Seq::empty()
    }
}

/// The line that the end of `stream` closes, if there is one.
pub open spec fn last_line(stream: Seq<u8>) -> Seq<Seq<u8>> {
    closing_line(pending(stream))
}

/// All the lines of a stream that has ended.
pub open spec fn all_lines(stream: Seq<u8>) -> Seq<Seq<u8>> {
    complete_lines(stream) + last_line(stream)
}

/// No byte of `bytes` is a line feed.
pub open spec fn has_no_line_feed(bytes: Seq<u8>) -> bool {
    forall|at: int| 0 <= at < bytes.len() ==> bytes[at] != LINE_FEED
}

/// What the lines hold, as sequences of bytes.
pub open spec fn byte_lines(lines: Seq<Vec<u8>>) -> Seq<Seq<u8>> {
    lines.map_values(|line: Vec<u8>| line@)
}

/// Bytes without a line feed are one open line and no complete line.
pub proof fn lemma_no_line_feed(bytes: Seq<u8>)
    requires
        has_no_line_feed(bytes),
    ensures
        pending(bytes) == bytes,
        complete_lines(bytes) == Seq::<Seq<u8>>::empty(),
    decreases bytes.len(),
{
    if bytes.len() > 0 {
        lemma_no_line_feed(bytes.drop_last());
        assert(bytes.drop_last().push(bytes.last()) =~= bytes);
    } else {
        assert(pending(bytes) =~= bytes);
    }
}

/// The open line holds no line feed.
pub proof fn lemma_pending_has_no_line_feed(stream: Seq<u8>)
    ensures
        has_no_line_feed(pending(stream)),
        pending(pending(stream)) == pending(stream),
    decreases stream.len(),
{
    if stream.len() > 0 && stream.last() != LINE_FEED {
        lemma_pending_has_no_line_feed(stream.drop_last());
    }
    lemma_no_line_feed(pending(stream));
}

/// The open line is the tail of the stream behind its last line feed: it is
/// the end of the stream, and a line feed stands before it unless it is the
/// whole stream.
pub proof fn lemma_pending_is_the_tail(stream: Seq<u8>)
    ensures
        pending(stream).len() <= stream.len(),
        stream.skip(stream.len() - pending(stream).len()) == pending(stream),
        pending(stream).len() < stream.len() ==> stream[stream.len() - pending(stream).len() - 1]
            == LINE_FEED,
    decreases stream.len(),
{
    if stream.len() == 0 {
        assert(stream.skip(0) =~= pending(stream));
    } else if stream.last() == LINE_FEED {
        assert(stream.skip(stream.len() as int) =~= pending(stream));
    } else {
        let init = stream.drop_last();
        lemma_pending_is_the_tail(init);
        let keep = init.len() - pending(init).len();
        assert(stream.skip(keep) =~= init.skip(keep).push(stream.last()));
    }
}

/// No complete line holds a line feed.
pub proof fn lemma_lines_have_no_line_feed(stream: Seq<u8>)
    ensures
        forall|at: int|
            0 <= at < complete_lines(stream).len() ==> has_no_line_feed(
                #[trigger] complete_lines(stream)[at],
            ),
    decreases stream.len(),
{
    if stream.len() > 0 {
        let init = stream.drop_last();
        lemma_lines_have_no_line_feed(init);
        lemma_pending_has_no_line_feed(init);
        assert(has_no_line_feed(strip_carriage_return(pending(init))));
        assert forall|at: int| 0 <= at < complete_lines(stream).len() implies has_no_line_feed(
            #[trigger] complete_lines(stream)[at],
        ) by {
            if at < complete_lines(init).len() {
                assert(complete_lines(stream)[at] == complete_lines(init)[at]);
            }
        }
    }
}

/// Each line feed ends one line: there are as many complete lines as line
/// feeds.
pub proof fn lemma_one_line_for_each_line_feed(stream: Seq<u8>)
    ensures
        complete_lines(stream).len() == stream.filter(|byte: u8| byte == LINE_FEED).len(),
    decreases stream.len(),
{
    reveal(Seq::filter);
    if stream.len() > 0 {
        lemma_one_line_for_each_line_feed(stream.drop_last());
    }
}

/// A stream may be split chunk by chunk: the lines of two pieces put together
/// are the lines of the first, then those of what the first left open followed
/// by the second; and the same bytes stay open at the end.
pub proof fn lemma_split_in_chunks(first: Seq<u8>, second: Seq<u8>)
    ensures
        complete_lines(first + second) == complete_lines(first) + complete_lines(
            pending(first) + second,
        ),
        pending(first + second) == pending(pending(first) + second),
    decreases second.len(),
{
    if second.len() == 0 {
        assert(first + second =~= first);
        assert(pending(first) + second =~= pending(first));
        lemma_pending_has_no_line_feed(first);
        lemma_no_line_feed(pending(first));
        assert(complete_lines(first) + complete_lines(pending(first)) =~= complete_lines(first));
    } else {
        let init = second.drop_last();
        assert((first + second).drop_last() =~= first + init);
        assert((pending(first) + second).drop_last() =~= pending(first) + init);
        lemma_split_in_chunks(first, init);
        if second.last() == LINE_FEED {
            assert(complete_lines(first + second) =~= complete_lines(first) + complete_lines(
                pending(first) + second,
            ));
        }
    }
}

/// Splits a stream that comes in chunks. It holds the open line and nothing
/// else, so it needs no more memory than the longest line.
pub struct LineSplitter {
    open_line: Vec<u8>,
}

impl View for LineSplitter {
    type V = Seq<u8>;

    /// The bytes of the open line.
    closed spec fn view(&self) -> Seq<u8> {
        self.open_line@
    }
}

impl LineSplitter {
    #[verifier::type_invariant]
    closed spec fn open_line_is_open(self) -> bool {
        has_no_line_feed(self.open_line@)
    }

    /// A splitter at the start of a stream.
    pub fn new() -> (made: Self)
        ensures
            made@ == Seq::<u8>::empty(),
    {
        LineSplitter { open_line: Vec::new() }
    }

    /// Takes the next chunk of the stream and gives the lines that it ends.
    pub fn push_chunk(&mut self, chunk: &[u8]) -> (lines: Vec<Vec<u8>>)
        ensures
            byte_lines(lines@) == complete_lines(old(self)@ + chunk@),
            final(self)@ == pending(old(self)@ + chunk@),
    {
        proof {
            use_type_invariant(&*self);
            lemma_no_line_feed(self@);
        }
        let ghost before = self@;
        let mut current: Vec<u8> = Vec::new();
        std::mem::swap(&mut self.open_line, &mut current);
        let mut lines: Vec<Vec<u8>> = Vec::new();
        let mut at: usize = 0;
        assert(before + chunk@.take(0) =~= before);
        assert(byte_lines(lines@) =~= Seq::<Seq<u8>>::empty());
        while at < chunk.len()
            invariant
                at <= chunk@.len(),
                byte_lines(lines@) == complete_lines(before + chunk@.take(at as int)),
                current@ == pending(before + chunk@.take(at as int)),
            decreases chunk@.len() - at,
        {
            let byte = chunk[at];
            assert((before + chunk@.take(at + 1)).drop_last() =~= before + chunk@.take(
                at as int,
            ));
            if byte == LINE_FEED {
                let n: usize = current.len();
                if n > 0 && current[n - 1] == CARRIAGE_RETURN {
                    current.pop();
                }
                let ghost line = current@;
                let ghost earlier = lines@;
                lines.push(current);
                current = Vec::new();
                assert(byte_lines(lines@) =~= byte_lines(earlier).push(line));
                assert(current@ =~= Seq::<u8>::empty());
            } else {
                current.push(byte);
            }
            at += 1;
        }
        assert(chunk@.take(at as int) =~= chunk@);
        proof {
            lemma_pending_has_no_line_feed(before + chunk@);
        }
        self.open_line = current;
        lines
    }

    /// Ends the stream and gives the line that was still open, if it holds
    /// anything.
    pub fn finish(self) -> (last: Option<Vec<u8>>)
        ensures
            match last {
                Some(line) => self@.len() > 0 && line@ == self@,
                None => self@.len() == 0,
            },
    {
        if self.open_line.len() > 0 {
            Some(self.open_line)
        } else {
            None
        }
    }
}

} // verus!
