//! Diagnostics and the ordered, append-only collection that gathers them.
use vstd::prelude::*;
use crate::classify::{classify, line_kind, DiagnosticKind};

verus! {

/// What a diagnostic is in contracts: its kind and the text of its line.
pub type Entry = (DiagnosticKind, Seq<char>);

/// The diagnostic that a line gives rise to, if it gives rise to one.
pub open spec fn entry_of(line: Seq<char>) -> Option<Entry> {
    match line_kind(line) {
        Some(kind) => Some((kind, line)),
        None => None,
    }
}

/// The diagnostics that a sequence of lines gives rise to, in the lines' order.
pub open spec fn diagnostics_of(lines: Seq<Seq<char>>) -> Seq<Entry> {
    lines.filter_map(|line: Seq<char>| entry_of(line))
}

/// How many of the entries are of the given kind.
pub open spec fn count_kind(entries: Seq<Entry>, kind: DiagnosticKind) -> nat {
    entries.filter(|entry: Entry| entry.0 == kind).len()
}

/// How many of the lines are classified as the given kind.
pub open spec fn count_lines(lines: Seq<Seq<char>>, kind: DiagnosticKind) -> nat {
    lines.filter(|line: Seq<char>| line_kind(line) == Some(kind)).len()
}

/// The entries that one more line leaves behind a collection.
pub open spec fn appended(entries: Seq<Entry>, line: Seq<char>) -> Seq<Entry> {
    match entry_of(line) {
        Some(entry) => entries.push(entry),
        None => entries,
    }
}

/// A classified line: its kind and its text. The kind is always the one that
/// the classifier gives the text.
pub struct Diagnostic {
    kind: DiagnosticKind,
    text: String,
}

impl View for Diagnostic {
    type V = Entry;

    closed spec fn view(&self) -> Entry {
        (self.kind, self.text@)
    }
}

impl Diagnostic {
    #[verifier::type_invariant]
    closed spec fn kind_matches_text(self) -> bool {
        line_kind(self.text@) == Some(self.kind)
    }

    /// Classifies `line` and keeps it if it is a warning or an error.
    pub fn from_line(line: String) -> (made: Option<Diagnostic>)
        ensures
            match made {
                Some(diagnostic) => entry_of(line@) == Some(diagnostic@),
                None => entry_of(line@) is None,
            },
    {
        match classify(line.as_str()) {
            Some(kind) => Some(Diagnostic { kind, text: line }),
            None => None,
        }
    }

    /// The kind, which is the classification of the text.
    pub fn kind(&self) -> (kind: DiagnosticKind)
        ensures
            kind == self@.0,
            line_kind(self@.1) == Some(kind),
    {
        proof {
            use_type_invariant(self);
        }
        self.kind
    }

    /// The text of the line.
    pub fn text(&self) -> (text: &str)
        ensures
            text@ == self@.1,
    {
        self.text.as_str()
    }
}

impl Clone for Diagnostic {
    fn clone(&self) -> (copy: Self)
        ensures
            copy@ == self@,
    {
        proof {
            use_type_invariant(self);
        }
        Diagnostic { kind: self.kind, text: self.text.clone() }
    }
}

/// The diagnostics matched so far, in the order in which they were recorded.
/// Entries are only ever added at the end.
pub struct MatchedDiagnostics {
    items: Vec<Diagnostic>,
}

impl View for MatchedDiagnostics {
    type V = Seq<Entry>;

    closed spec fn view(&self) -> Seq<Entry> {
        self.items@.map_values(|diagnostic: Diagnostic| diagnostic@)
    }
}

impl MatchedDiagnostics {
    /// An empty collection.
    pub fn new() -> (made: Self)
        ensures
            made@ == Seq::<Entry>::empty(),
    {
        let made = MatchedDiagnostics { items: Vec::new() };
        assert(made@ =~= Seq::<Entry>::empty());
        made
    }

    /// Classifies `line` and, if it is a warning or an error, adds it at the
    /// end. Tells whether it was added.
    pub fn record(&mut self, line: String) -> (added: bool)
        ensures
            final(self)@ == appended(old(self)@, line@),
            added == entry_of(line@) is Some,
    {
        match Diagnostic::from_line(line) {
            Some(diagnostic) => {
                self.items.push(diagnostic);
                assert(self@ =~= old(self)@.push(diagnostic@));
                true
            },
            None => false,
        }
    }

    /// The number of diagnostics.
    pub fn len(&self) -> (n: usize)
        ensures
            n == self@.len(),
    {
        self.items.len()
    }

    /// Whether there is no diagnostic.
    pub fn is_empty(&self) -> (empty: bool)
        ensures
            empty == (self@.len() == 0),
    {
        self.items.len() == 0
    }

    /// The diagnostic at position `at`.
    pub fn get(&self, at: usize) -> (found: Option<&Diagnostic>)
        ensures
            match found {
                Some(diagnostic) => at < self@.len() && diagnostic@ == self@[at as int],
                None => at >= self@.len(),
            },
    {
        if at < self.items.len() {
            Some(&self.items[at])
        } else {
            None
        }
    }

    /// How many of the diagnostics are of the given kind.
    pub fn count(&self, kind: DiagnosticKind) -> (n: usize)
        ensures
            n == count_kind(self@, kind),
    {
        let mut n: usize = 0;
        let mut at: usize = 0;
        while at < self.items.len()
            invariant
                at <= self.items.len(),
                n <= at,
                n == count_kind(self@.take(at as int), kind),
            decreases self.items.len() - at,
        {
            proof {
                lemma_count_kind_push(self@.take(at as int), self@[at as int], kind);
                assert(self@.take(at + 1) =~= self@.take(at as int).push(self@[at as int]));
            }
            if self.items[at].kind() == kind {
                n += 1;
            }
            at += 1;
        }
        assert(self@.take(at as int) =~= self@);
        n
    }
}

/// Counting after one more entry: one more if the entry is of the kind.
pub proof fn lemma_count_kind_push(entries: Seq<Entry>, entry: Entry, kind: DiagnosticKind)
    ensures
        count_kind(entries.push(entry), kind) == count_kind(entries, kind) + (if entry.0
            == kind {
            1nat
        } else {
            0nat
        }),
{
    reveal(Seq::filter);
    assert(entries.push(entry).drop_last() =~= entries);
}

/// The texts of the entries, in order.
pub open spec fn texts_of(entries: Seq<Entry>) -> Seq<Seq<char>> {
    entries.map_values(|entry: Entry| entry.1)
}

/// `merged` holds the items of `first` and of `second`, each in its own order,
/// woven together in some way.
pub open spec fn is_interleaving<T>(merged: Seq<T>, first: Seq<T>, second: Seq<T>) -> bool
    decreases merged.len(),
{
    if merged.len() == 0 {
        first.len() == 0 && second.len() == 0
    } else {
        ||| first.len() > 0 && first.last() == merged.last() && is_interleaving(
            merged.drop_last(),
            first.drop_last(),
            second,
        )
        ||| second.len() > 0 && second.last() == merged.last() && is_interleaving(
            merged.drop_last(),
            first,
            second.drop_last(),
        )
    }
}

/// One more line adds its diagnostic, if it has one, behind those of the lines
/// before it.
pub proof fn lemma_diagnostics_of_push(lines: Seq<Seq<char>>, line: Seq<char>)
    ensures
        diagnostics_of(lines.push(line)) == appended(diagnostics_of(lines), line),
{
    assert(lines.push(line).drop_last() =~= lines);
    assert(diagnostics_of(lines.push(line)) =~= appended(diagnostics_of(lines), line));
}

/// The diagnostics of two runs of lines, one after the other, are those of the
/// first followed by those of the second.
pub proof fn lemma_diagnostics_of_concat(first: Seq<Seq<char>>, second: Seq<Seq<char>>)
    ensures
        diagnostics_of(first + second) == diagnostics_of(first) + diagnostics_of(second),
    decreases second.len(),
{
    if second.len() == 0 {
        assert(first + second =~= first);
        assert(diagnostics_of(first) + diagnostics_of(second) =~= diagnostics_of(first));
    } else {
        let init = second.drop_last();
        let last = second.last();
        assert(second =~= init.push(last));
        assert(first + second =~= (first + init).push(last));
        lemma_diagnostics_of_concat(first, init);
        lemma_diagnostics_of_push(first + init, last);
        lemma_diagnostics_of_push(init, last);
        assert(diagnostics_of(first + second) =~= diagnostics_of(first) + diagnostics_of(
            second,
        ));
    }
}

/// Order is kept: the texts of the diagnostics are the lines that are warnings
/// or errors, in the order in which the lines came.
pub proof fn lemma_diagnostics_keep_order(lines: Seq<Seq<char>>)
    ensures
        texts_of(diagnostics_of(lines)) == lines.filter(
            |line: Seq<char>| line_kind(line) is Some,
        ),
        forall|at: int|
            0 <= at < diagnostics_of(lines).len() ==> line_kind(
                #[trigger] diagnostics_of(lines)[at].1,
            ) == Some(diagnostics_of(lines)[at].0),
    decreases lines.len(),
{
    reveal(Seq::filter);
    if lines.len() > 0 {
        let init = lines.drop_last();
        let last = lines.last();
        assert(lines =~= init.push(last));
        lemma_diagnostics_keep_order(init);
        lemma_diagnostics_of_push(init, last);
        assert(texts_of(diagnostics_of(lines)) =~= lines.filter(
            |line: Seq<char>| line_kind(line) is Some,
        ));
    } else {
        assert(texts_of(diagnostics_of(lines)) =~= lines.filter(
            |line: Seq<char>| line_kind(line) is Some,
        ));
    }
}

/// Counts are right: among the diagnostics of some lines there are as many of
/// a kind as there are lines that the classifier gives that kind.
pub proof fn lemma_counts_match_lines(lines: Seq<Seq<char>>, kind: DiagnosticKind)
    ensures
        count_kind(diagnostics_of(lines), kind) == count_lines(lines, kind),
    decreases lines.len(),
{
    reveal(Seq::filter);
    if lines.len() > 0 {
        let init = lines.drop_last();
        let last = lines.last();
        assert(lines =~= init.push(last));
        lemma_counts_match_lines(init, kind);
        lemma_diagnostics_of_push(init, last);
        match entry_of(last) {
            Some(entry) => {
                lemma_count_kind_push(diagnostics_of(init), entry, kind);
            },
            None => {},
        }
    }
}

/// However the lines of two streams are woven together on arrival, the lines
/// of each kind number as many as in both streams taken one by one.
pub proof fn lemma_count_lines_of_interleaving(
    merged: Seq<Seq<char>>,
    first: Seq<Seq<char>>,
    second: Seq<Seq<char>>,
    kind: DiagnosticKind,
)
    requires
        is_interleaving(merged, first, second),
    ensures
        count_lines(merged, kind) == count_lines(first, kind) + count_lines(second, kind),
    decreases merged.len(),
{
    reveal(Seq::filter);
    if merged.len() > 0 {
        if first.len() > 0 && first.last() == merged.last() && is_interleaving(
            merged.drop_last(),
            first.drop_last(),
            second,
        ) {
            lemma_count_lines_of_interleaving(merged.drop_last(), first.drop_last(), second, kind);
        } else {
            lemma_count_lines_of_interleaving(merged.drop_last(), first, second.drop_last(), kind);
        }
    }
}

/// Counts are right for two streams: however their lines are woven together
/// on arrival, the diagnostics of a kind number as many as the lines of that
/// kind in both streams.
pub proof fn lemma_counts_of_two_streams(
    merged: Seq<Seq<char>>,
    first: Seq<Seq<char>>,
    second: Seq<Seq<char>>,
    kind: DiagnosticKind,
)
    requires
        is_interleaving(merged, first, second),
    ensures
        count_kind(diagnostics_of(merged), kind) == count_lines(first, kind) + count_lines(
            second,
            kind,
        ),
{
    lemma_counts_match_lines(merged, kind);
    lemma_count_lines_of_interleaving(merged, first, second, kind);
}

/// Each stream keeps its order among the diagnostics: however the lines of two
/// streams are woven together on arrival, the diagnostics are those of the
/// first stream and those of the second, each in its own order, woven
/// together.
pub proof fn lemma_diagnostics_of_interleaving(
    merged: Seq<Seq<char>>,
    first: Seq<Seq<char>>,
    second: Seq<Seq<char>>,
)
    requires
        is_interleaving(merged, first, second),
    ensures
        is_interleaving(diagnostics_of(merged), diagnostics_of(first), diagnostics_of(second)),
    decreases merged.len(),
{
    if merged.len() > 0 {
        let line = merged.last();
        assert(merged =~= merged.drop_last().push(line));
        lemma_diagnostics_of_push(merged.drop_last(), line);
        if first.len() > 0 && first.last() == line && is_interleaving(
            merged.drop_last(),
            first.drop_last(),
            second,
        ) {
            assert(first =~= first.drop_last().push(line));
            lemma_diagnostics_of_push(first.drop_last(), line);
            lemma_diagnostics_of_interleaving(merged.drop_last(), first.drop_last(), second);
            match entry_of(line) {
                Some(entry) => {
                    assert(diagnostics_of(merged).drop_last() =~= diagnostics_of(
                        merged.drop_last(),
                    ));
                    assert(diagnostics_of(first).drop_last() =~= diagnostics_of(
                        first.drop_last(),
                    ));
                },
                None => {},
            }
        } else {
            assert(second =~= second.drop_last().push(line));
            lemma_diagnostics_of_push(second.drop_last(), line);
            lemma_diagnostics_of_interleaving(merged.drop_last(), first, second.drop_last());
            match entry_of(line) {
                Some(entry) => {
                    assert(diagnostics_of(merged).drop_last() =~= diagnostics_of(
                        merged.drop_last(),
                    ));
                    assert(diagnostics_of(second).drop_last() =~= diagnostics_of(
                        second.drop_last(),
                    ));
                },
                None => {},
            }
        }
    } else {
        assert(first =~= Seq::<Seq<char>>::empty());
        assert(second =~= Seq::<Seq<char>>::empty());
    }
}

} // verus!
