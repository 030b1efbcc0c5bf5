//! The report of a batch: what became of each endpoint, in the order in
//! which the endpoints first came, and how many deliveries succeeded and
//! failed.

use vstd::prelude::*;

use crate::outcome::DeliveryOutcome;
use crate::tally::{
    count_delivered, count_failed, distinct_keys, has_key, index_of, lemma_count_push,
    lemma_count_update, lemma_counts_sum, lemma_index_of_distinct, lemma_report_size,
    lemma_tally_distinct, lemma_tally_push, record, tally, Written,
};

verus! {

/// One line of a report.
#[derive(Debug)]
pub struct ReportEntry {
    pub endpoint: String,
    pub outcome: DeliveryOutcome,
}

impl View for ReportEntry {
    type V = Written;

    open spec fn view(&self) -> Written {
        Written { endpoint: self.endpoint@, outcome: self.outcome }
    }
}

/// The lines of a report as the model sees them.
pub open spec fn lines(entries: Seq<ReportEntry>) -> Seq<Written> {
    entries.map_values(|e: ReportEntry| e@)
}

/// The report of a batch. It holds one entry for each endpoint that an
/// outcome was written under, whatever the number of writes.
pub struct BatchReport {
    entries: Vec<ReportEntry>,
    ok_count: usize,
    error_count: usize,
    writes: Ghost<Seq<Written>>,
}

impl View for BatchReport {
    type V = Seq<Written>;

    /// The entries, in the order in which their endpoints first came.
    closed spec fn view(&self) -> Seq<Written> {
        lines(self.entries@)
    }
}

fn position(entries: &Vec<ReportEntry>, endpoint: &String) -> (found: Option<usize>)
    ensures
        match found {
            Some(i) => i < entries.len() && entries[i as int].endpoint@ == endpoint@,
            None => !has_key(lines(entries@), endpoint@),
        },
{
    let mut i: usize = 0;
    while i < entries.len()
        invariant
            i <= entries.len(),
            forall|k: int| 0 <= k < i ==> (#[trigger] lines(entries@)[k]).endpoint != endpoint@,
        decreases entries.len() - i,
    {
        if entries[i].endpoint == *endpoint {
            return Some(i);
        }
        assert(lines(entries@)[i as int].endpoint == entries[i as int].endpoint@);
        i += 1;
    }
    None
}

impl BatchReport {
    #[verifier::type_invariant]
    spec fn consistent(&self) -> bool {
        &&& lines(self.entries@) == tally(self.writes@)
        &&& self.ok_count == count_delivered(lines(self.entries@))
        &&& self.error_count == count_failed(lines(self.entries@))
    }

    /// All that was written to the report, in order: one write for each call
    /// of [`BatchReport::record`].
    pub closed spec fn writes(&self) -> Seq<Written> {
        self.writes@
    }

    /// The count of deliveries that the report holds.
    pub closed spec fn ok_total(&self) -> nat {
        self.ok_count as nat
    }

    /// The count of failures that the report holds.
    pub closed spec fn error_total(&self) -> nat {
        self.error_count as nat
    }

    /// A report that nothing was written to.
    pub fn new() -> (report: BatchReport)
        ensures
            report@ == Seq::<Written>::empty(),
            report.writes() == Seq::<Written>::empty(),
            report.ok_total() == 0,
            report.error_total() == 0,
    {
        let entries: Vec<ReportEntry> = Vec::new();
        assert(lines(entries@) =~= Seq::<Written>::empty());
        BatchReport { entries, ok_count: 0, error_count: 0, writes: Ghost(Seq::empty()) }
    }

    /// Writes `outcome` under `endpoint`. An entry that stands under the
    /// endpoint already is replaced where it stands; a new endpoint comes
    /// last.
    pub fn record(self, endpoint: String, outcome: DeliveryOutcome) -> (report: BatchReport)
        ensures
            report.writes() == self.writes().push(Written { endpoint: endpoint@, outcome }),
            report@ == record(self@, Written { endpoint: endpoint@, outcome }),
            report.ok_total() == count_delivered(report@),
            report.error_total() == count_failed(report@),
    {
        proof {
            use_type_invariant(&self);
            lemma_tally_distinct(self.writes@);
            lemma_counts_sum(lines(self.entries@));
        }
        let ghost write = Written { endpoint: endpoint@, outcome };
        let ghost before = lines(self.entries@);
        let BatchReport { entries, ok_count, error_count, writes } = self;
        let mut entries = entries;
        let mut ok_count = ok_count;
        proof {
            lemma_tally_push(writes@, write);
        }
        match position(&entries, &endpoint) {
            Some(i) => {
                let previous = entries[i].outcome;
                proof {
                    assert(before[i as int].endpoint == endpoint@);
                    lemma_index_of_distinct(before, i as int);
                    lemma_count_update(before, i as int, write);
                }
                entries.set(i, ReportEntry { endpoint, outcome });
                assert(lines(entries@) =~= before.update(i as int, write));
                proof {
                    lemma_counts_sum(lines(entries@));
                }
                if previous.is_delivered() && !outcome.is_delivered() {
                    ok_count = ok_count - 1;
                } else if !previous.is_delivered() && outcome.is_delivered() {
                    ok_count = ok_count + 1;
                }
            },
            None => {
                proof {
                    lemma_count_push(before, write);
                }
                entries.push(ReportEntry { endpoint, outcome });
                assert(lines(entries@) =~= before.push(write));
                proof {
                    lemma_counts_sum(lines(entries@));
                }
                assert(entries.len() <= usize::MAX);
                if outcome.is_delivered() {
                    ok_count = ok_count + 1;
                }
            },
        }
        proof {
            lemma_counts_sum(lines(entries@));
        }
        let error_count = entries.len() - ok_count;
        BatchReport { entries, ok_count, error_count, writes: Ghost(writes@.push(write)) }
    }

    /// The number of entries.
    pub fn len(&self) -> (n: usize)
        ensures
            n == self@.len(),
            self@ == tally(self.writes()),
            n <= self.writes().len(),
    {
        proof {
            use_type_invariant(self);
            lemma_report_size(self.writes@);
        }
        assert(lines(self.entries@).len() == self.entries@.len());
        self.entries.len()
    }

    /// The number of entries that tell of a delivery.
    pub fn ok_count(&self) -> (n: usize)
        ensures
            n == self.ok_total(),
            n == count_delivered(self@),
            n + self.error_total() == self@.len(),
    {
        proof {
            use_type_invariant(self);
            lemma_counts_sum(lines(self.entries@));
        }
        self.ok_count
    }

    /// The number of entries that tell of a failure.
    pub fn error_count(&self) -> (n: usize)
        ensures
            n == self.error_total(),
            n == count_failed(self@),
            self.ok_total() + n == self@.len(),
    {
        proof {
            use_type_invariant(self);
            lemma_counts_sum(lines(self.entries@));
        }
        self.error_count
    }

    /// The outcome that stands under `endpoint`, if one does.
    pub fn get(&self, endpoint: &String) -> (found: Option<DeliveryOutcome>)
        ensures
            found is Some <==> has_key(self@, endpoint@),
            found matches Some(outcome) ==> outcome == self@[index_of(self@, endpoint@)].outcome,
    {
        proof {
            use_type_invariant(self);
            lemma_tally_distinct(self.writes@);
        }
        match position(&self.entries, endpoint) {
            Some(i) => {
                proof {
                    assert(lines(self.entries@)[i as int].endpoint == endpoint@);
                    lemma_index_of_distinct(lines(self.entries@), i as int);
                }
                Some(self.entries[i].outcome)
            },
            None => None,
        }
    }

    /// The report as it is shown: for each entry its endpoint and the label
    /// of its outcome, in the order of the entries.
    pub fn labels(&self) -> (shown: Vec<(String, &'static str)>)
        ensures
            shown.len() == self@.len(),
            forall|i: int|
                0 <= i < shown.len() ==> (#[trigger] shown[i]).0@ == self@[i].endpoint
                    && shown[i].1@ == self@[i].outcome.label_text(),
    {
        let mut shown: Vec<(String, &'static str)> = Vec::new();
        let mut i: usize = 0;
        while i < self.entries.len()
            invariant
                i <= self.entries.len(),
                shown.len() == i,
                forall|k: int|
                    0 <= k < i ==> (#[trigger] shown[k]).0@ == self.entries[k].endpoint@
                        && shown[k].1@ == self.entries[k].outcome.label_text(),
            decreases self.entries.len() - i,
        {
            let entry = &self.entries[i];
            shown.push((entry.endpoint.clone(), entry.outcome.label()));
            i += 1;
        }
        shown
    }

    /// The entries, in the order in which their endpoints first came.
    pub fn entries(&self) -> (entries: &Vec<ReportEntry>)
        ensures
            lines(entries@) == self@,
            self@ == tally(self.writes()),
            distinct_keys(self@),
    {
        proof {
            use_type_invariant(self);
            lemma_tally_distinct(self.writes@);
        }
        &self.entries
    }
}

} // verus!
