//! Draining one output stream of the child: its bytes are split into lines,
//! each line is decoded and handed back to be shown, and the lines that are
//! warnings or errors are recorded.
use vstd::prelude::*;
use crate::decode::{from_utf8_lossy, lossy_text};
use crate::diagnostics::{
    appended,
    diagnostics_of,
    lemma_diagnostics_of_concat,
    lemma_diagnostics_of_push,
    MatchedDiagnostics,
};
use crate::lines::{
    all_lines,
    byte_lines,
    closing_line,
    complete_lines,
    lemma_split_in_chunks,
    pending,
    LineSplitter,
};

verus! {

/// The texts of raw lines, each decoded permissively.
pub open spec fn decoded(raw: Seq<Seq<u8>>) -> Seq<Seq<char>> {
    raw.map_values(|line: Seq<u8>| lossy_text(line))
}

/// What the strings hold, as sequences of characters.
pub open spec fn texts(lines: Seq<String>) -> Seq<Seq<char>> {
    lines.map_values(|line: String| line@)
}

/// Decodes the raw lines and records those that are warnings or errors. The
/// lines come back decoded and in their order, to be shown.
pub fn take_lines(raw: Vec<Vec<u8>>, out: &mut MatchedDiagnostics) -> (echo: Vec<String>)
    ensures
        texts(echo@) == decoded(byte_lines(raw@)),
        final(out)@ == old(out)@ + diagnostics_of(texts(echo@)),
{
    let mut echo: Vec<String> = Vec::new();
    let mut at: usize = 0;
    assert(texts(echo@) =~= decoded(byte_lines(raw@)).take(0));
    assert(out@ =~= old(out)@ + diagnostics_of(texts(echo@)));
    while at < raw.len()
        invariant
            at <= raw@.len(),
            texts(echo@) == decoded(byte_lines(raw@)).take(at as int),
            out@ == old(out)@ + diagnostics_of(texts(echo@)),
        decreases raw@.len() - at,
    {
        let line: String = from_utf8_lossy(raw[at].as_slice()).to_owned();
        let ghost shown = texts(echo@);
        proof {
            lemma_diagnostics_of_push(shown, line@);
        }
        out.record(line.clone());
        echo.push(line);
        assert(texts(echo@) =~= shown.push(line@));
        assert(texts(echo@) =~= decoded(byte_lines(raw@)).take(at + 1));
        assert(out@ =~= old(out)@ + appended(diagnostics_of(shown), line@));
        at += 1;
    }
    assert(decoded(byte_lines(raw@)).take(at as int) =~= decoded(byte_lines(raw@)));
    echo
}

/// Takes the next chunk of a stream: the lines that the chunk ends come back
/// decoded, and their diagnostics are recorded behind those already there.
pub fn drain_chunk(
    splitter: &mut LineSplitter,
    chunk: &[u8],
    out: &mut MatchedDiagnostics,
) -> (echo: Vec<String>)
    ensures
        final(splitter)@ == pending(old(splitter)@ + chunk@),
        texts(echo@) == decoded(complete_lines(old(splitter)@ + chunk@)),
        final(out)@ == old(out)@ + diagnostics_of(texts(echo@)),
{
    let raw = splitter.push_chunk(chunk);
    take_lines(raw, out)
}

/// Ends a stream: the line that was still open, if it holds anything, comes
/// back decoded, and its diagnostic is recorded.
pub fn drain_end(splitter: LineSplitter, out: &mut MatchedDiagnostics) -> (echo: Vec<String>)
    ensures
        texts(echo@) == decoded(closing_line(splitter@)),
        final(out)@ == old(out)@ + diagnostics_of(texts(echo@)),
{
    let mut raw: Vec<Vec<u8>> = Vec::new();
    match splitter.finish() {
        Some(line) => {
            raw.push(line);
        },
        None => {},
    }
    assert(byte_lines(raw@) =~= closing_line(splitter@));
    take_lines(raw, out)
}

/// Drains a stream that is at hand as a whole. The lines come back decoded, in
/// the order in which the stream has them, and the diagnostics are recorded in
/// that order behind those already there.
pub fn drain(stream: &[u8], out: &mut MatchedDiagnostics) -> (echo: Vec<String>)
    ensures
        texts(echo@) == decoded(all_lines(stream@)),
        final(out)@ == old(out)@ + diagnostics_of(decoded(all_lines(stream@))),
{
    let mut splitter = LineSplitter::new();
    let mut echo = drain_chunk(&mut splitter, stream, out);
    let ghost first = texts(echo@);
    assert(Seq::<u8>::empty() + stream@ =~= stream@);
    let mut rest = drain_end(splitter, out);
    let ghost second = texts(rest@);
    echo.append(&mut rest);
    proof {
        assert(texts(echo@) =~= first + second);
        assert(decoded(all_lines(stream@)) =~= first + second);
        lemma_diagnostics_of_concat(first, second);
        assert(out@ =~= old(out)@ + (diagnostics_of(first) + diagnostics_of(second)));
    }
    echo
}

/// A stream may be drained chunk by chunk: the lines that two pieces put
/// together give are those that the first gives, then those that the second
/// gives behind what the first left open.
pub proof fn lemma_drain_in_chunks(first: Seq<u8>, second: Seq<u8>)
    ensures
        decoded(complete_lines(first + second)) == decoded(complete_lines(first)) + decoded(
            complete_lines(pending(first) + second),
        ),
        decoded(all_lines(first + second)) == decoded(complete_lines(first)) + decoded(
            all_lines(pending(first) + second),
        ),
{
    lemma_split_in_chunks(first, second);
    assert(decoded(complete_lines(first + second)) =~= decoded(complete_lines(first)) + decoded(
        complete_lines(pending(first) + second),
    ));
    assert(all_lines(first + second) =~= complete_lines(first) + all_lines(
        pending(first) + second,
    ));
    assert(decoded(all_lines(first + second)) =~= decoded(complete_lines(first)) + decoded(
        all_lines(pending(first) + second),
    ));
}

} // verus!
