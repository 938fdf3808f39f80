//! Diagnostic report: findings with a severity, and remedies printed under
//! the finding they belong to.
use vstd::prelude::*;
use crate::text::{push_chars, push_str};

verus! {

#[derive(Clone, Copy, Debug, PartialEq, Eq, Structural)]
pub enum Level {
    Pass,
    Warn,
    Fail,
}

pub enum Entry {
    Line(Level, Vec<char>, Vec<char>),
    Hint(Vec<char>),
}

pub enum EntryView {
    Line(Level, Seq<char>, Seq<char>),
    Hint(Seq<char>),
}

pub open spec fn entry_view(e: Entry) -> EntryView {
    match e {
        Entry::Line(level, label, detail) => EntryView::Line(level, label@, detail@),
        Entry::Hint(text) => EntryView::Hint(text@),
    }
}

pub struct ReportView {
    pub warnings: nat,
    pub failures: nat,
    pub entries: Seq<EntryView>,
}

impl ReportView {
    /// The report after one finding: warnings and failures are counted.
    pub open spec fn line(self, level: Level, label: Seq<char>, detail: Seq<char>) -> ReportView {
        ReportView {
            warnings: if level == Level::Warn { self.warnings + 1 } else { self.warnings },
            failures: if level == Level::Fail { self.failures + 1 } else { self.failures },
            entries: self.entries.push(EntryView::Line(level, label, detail)),
        }
    }

    /// The report after one remedy.
    pub open spec fn hint(self, text: Seq<char>) -> ReportView {
        ReportView { entries: self.entries.push(EntryView::Hint(text)), ..self }
    }

    /// Room for `n` more findings of either severity in the counters.
    pub open spec fn room(self, n: nat) -> bool {
        self.warnings + n <= u32::MAX && self.failures + n <= u32::MAX
    }
}

pub struct Report {
    pub warnings: u32,
    pub failures: u32,
    entries: Vec<Entry>,
}

impl View for Report {
    type V = ReportView;

    closed spec fn view(&self) -> ReportView {
        ReportView {
            warnings: self.warnings as nat,
            failures: self.failures as nat,
            entries: self.entries@.map_values(|e: Entry| entry_view(e)),
        }
    }
}

/// The text a finding or remedy reads as: `label: detail`, or the remedy.
pub open spec fn message_text(e: EntryView) -> Seq<char> {
    match e {
        EntryView::Line(_, label, detail) => label + seq![':', ' '] + detail,
        EntryView::Hint(text) => text,
    }
}

/// Spaces that left-align a label in a 34-character column.
pub open spec fn padding(label: Seq<char>) -> Seq<char> {
    if label.len() < 34 {
        Seq::new((34 - label.len()) as nat, |k: int| ' ')
    } else {
        Seq::empty()
    }
}

pub open spec fn mark(level: Level) -> Seq<char> {
    match level {
        Level::Pass => "  ok  "@,
        Level::Warn => " warn "@,
        Level::Fail => " FAIL "@,
    }
}

/// The console line of an entry: `[mark] label` when there is no detail,
/// `[mark] label<padding> detail` otherwise, and an indented arrow before a
/// remedy.
pub open spec fn printed_text(e: EntryView) -> Seq<char> {
    match e {
        EntryView::Line(level, label, detail) => if detail.len() == 0 {
            "["@ + mark(level) + "] "@ + label
        } else {
            "["@ + mark(level) + "] "@ + label + padding(label) + " "@ + detail
        },
        EntryView::Hint(text) => "         \u{2192} "@ + text,
    }
}

/// The summary line of a report with these counts.
pub open spec fn verdict_text(warnings: nat, failures: nat) -> Seq<char> {
    if failures > 0 {
        crate::number::decimal(failures) + " problem(s) and "@ + crate::number::decimal(warnings)
            + " warning(s) found \u{2014} fix the FAIL lines first."@
    } else if warnings > 0 {
        "No blocking problems, "@ + crate::number::decimal(warnings) + " warning(s)."@
    } else {
        "Everything checks out."@
    }
}

/// `std::iter::FromIterator` for `String` over characters.
#[verifier::external_body]
pub(crate) fn chars_to_string(v: &[char]) -> (r: String)
    ensures
        r@ == v@,
{
    v.iter().collect()
}

impl Report {
    /// The number of warnings found so far, as the view counts them.
    pub fn warning_count(&self) -> (r: u32)
        ensures
            r == self@.warnings,
    {
        self.warnings
    }

    /// The number of failures found so far, as the view counts them.
    pub fn failure_count(&self) -> (r: u32)
        ensures
            r == self@.failures,
    {
        self.failures
    }

    pub fn new() -> (r: Report)
        ensures
            r@ == (ReportView { warnings: 0, failures: 0, entries: Seq::empty() }),
    {
        let r = Report { warnings: 0, failures: 0, entries: Vec::new() };
        assert(r@.entries =~= Seq::<EntryView>::empty());
        r
    }

    /// Record a finding.
    pub fn line(&mut self, level: Level, label: Vec<char>, detail: Vec<char>)
        requires
            level != Level::Pass ==> old(self)@.room(1),
        ensures
            final(self)@ == old(self)@.line(level, label@, detail@),
    {
        match level {
            Level::Warn => self.warnings = self.warnings + 1,
            Level::Fail => self.failures = self.failures + 1,
            Level::Pass => {},
        }
        let ghost before = self.entries@;
        self.entries.push(Entry::Line(level, label, detail));
        assert(self.entries@.map_values(|e: Entry| entry_view(e)) == before.map_values(
            |e: Entry| entry_view(e),
        ).push(EntryView::Line(level, label@, detail@)));
    }

    /// Record a remedy under the previous finding.
    pub fn hint(&mut self, text: Vec<char>)
        ensures
            final(self)@ == old(self)@.hint(text@),
    {
        let ghost before = self.entries@;
        self.entries.push(Entry::Hint(text));
        assert(self.entries@.map_values(|e: Entry| entry_view(e)) == before.map_values(
            |e: Entry| entry_view(e),
        ).push(EntryView::Hint(text@)));
    }

    /// The console rendering of every entry, in order.
    pub fn printed(&self) -> (r: Vec<String>)
        ensures
            r@.len() == self@.entries.len(),
            forall|i: int| 0 <= i < r@.len() ==> #[trigger] r@[i]@ == printed_text(self@.entries[i]),
    {
        let mut out: Vec<String> = Vec::new();
        let mut i: usize = 0;
        while i < self.entries.len()
            invariant
                i <= self.entries@.len(),
                out@.len() == i,
                forall|k: int|
                    0 <= k < i ==> #[trigger] out@[k]@ == printed_text(entry_view(self.entries@[k])),
            decreases self.entries@.len() - i,
        {
            let mut text: Vec<char> = Vec::new();
            match &self.entries[i] {
                Entry::Line(level, label, detail) => {
                    push_str(&mut text, "[");
                    match level {
                        Level::Pass => push_str(&mut text, "  ok  "),
                        Level::Warn => push_str(&mut text, " warn "),
                        Level::Fail => push_str(&mut text, " FAIL "),
                    }
                    push_str(&mut text, "] ");
                    push_chars(&mut text, label.as_slice());
                    if detail.len() > 0 {
                        let mut n = label.len();
                        let ghost base = text@;
                        while n < 34
                            invariant
                                label@.len() <= n <= 34 || (n == label@.len() && n >= 34),
                                text@ == base + Seq::new((n - label@.len()) as nat, |k: int| ' '),
                            decreases 34 - n,
                        {
                            text.push(' ');
                            n = n + 1;
                            assert(text@ =~= base + Seq::new((n - label@.len()) as nat, |k: int| ' '));
                        }
                        assert(padding(label@) == Seq::new((n - label@.len()) as nat, |k: int| ' '));
                        push_str(&mut text, " ");
                        push_chars(&mut text, detail.as_slice());
                    }
                },
                Entry::Hint(t) => {
                    push_str(&mut text, "         \u{2192} ");
                    push_chars(&mut text, t.as_slice());
                },
            }
            out.push(chars_to_string(text.as_slice()));
            i = i + 1;
        }
        out
    }

    /// The summary line: the failures and warnings found, or that everything checks out.
    pub fn verdict(&self) -> (r: String)
        ensures
            r@ == verdict_text(self@.warnings, self@.failures),
    {
        let mut text: Vec<char> = Vec::new();
        if self.failures > 0 {
            crate::number::push_decimal(&mut text, self.failures as u64);
            push_str(&mut text, " problem(s) and ");
            crate::number::push_decimal(&mut text, self.warnings as u64);
            push_str(&mut text, " warning(s) found \u{2014} fix the FAIL lines first.");
        } else if self.warnings > 0 {
            push_str(&mut text, "No blocking problems, ");
            crate::number::push_decimal(&mut text, self.warnings as u64);
            push_str(&mut text, " warning(s).");
        } else {
            push_str(&mut text, "Everything checks out.");
        }
        chars_to_string(text.as_slice())
    }

    /// The text of every entry, in order.
    pub fn messages(&self) -> (r: Vec<String>)
        ensures
            r@.len() == self@.entries.len(),
            forall|i: int| 0 <= i < r@.len() ==> #[trigger] r@[i]@ == message_text(self@.entries[i]),
    {
        let mut out: Vec<String> = Vec::new();
        let mut i: usize = 0;
        while i < self.entries.len()
            invariant
                i <= self.entries@.len(),
                out@.len() == i,
                forall|k: int|
                    0 <= k < i ==> #[trigger] out@[k]@ == message_text(
                        entry_view(self.entries@[k]),
                    ),
            decreases self.entries@.len() - i,
        {
            let mut text: Vec<char> = Vec::new();
            match &self.entries[i] {
                Entry::Line(_, label, detail) => {
                    push_chars(&mut text, label.as_slice());
                    push_chars(&mut text, &[':', ' ']);
                    push_chars(&mut text, detail.as_slice());
                },
                Entry::Hint(t) => {
                    push_chars(&mut text, t.as_slice());
                },
            }
            out.push(chars_to_string(text.as_slice()));
            i = i + 1;
        }
        out
    }
}

/// The number of findings of a severity.
pub open spec fn level_count(es: Seq<EntryView>, level: Level) -> nat
    decreases es.len(),
{
    if es.len() == 0 {
        0
    } else {
        level_count(es.drop_last(), level) + match es.last() {
            EntryView::Line(l, _, _) => if l == level {
                1nat
            } else {
                0nat
            },
            EntryView::Hint(_) => 0nat,
        }
    }
}

/// The counters tell how many warnings and failures the report holds.
pub open spec fn counts_agree(r: ReportView) -> bool {
    r.warnings == level_count(r.entries, Level::Warn) && r.failures == level_count(
        r.entries,
        Level::Fail,
    )
}

/// Counting law: a new report's counters agree with its findings, and
/// recording a finding or a remedy keeps them in agreement.
pub proof fn lemma_counts_agree(r: ReportView, level: Level, label: Seq<char>, detail: Seq<char>, text: Seq<char>)
    requires
        counts_agree(r),
    ensures
        counts_agree(
            ReportView { warnings: 0, failures: 0, entries: Seq::<EntryView>::empty() },
        ),
        counts_agree(r.line(level, label, detail)),
        counts_agree(r.hint(text)),
{
    let l = r.line(level, label, detail);
    assert(l.entries.drop_last() == r.entries);
    let h = r.hint(text);
    assert(h.entries.drop_last() == r.entries);
}

} // verus!
