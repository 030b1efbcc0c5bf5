//! The arithmetic of a report: what a sequence of writes leaves behind.
//!
//! A report is a mapping from endpoints to outcomes that remembers the order
//! in which the endpoints first came. A write for an endpoint that is there
//! already takes the place of what was there: the last write wins.

use vstd::prelude::*;

use crate::outcome::DeliveryOutcome;

verus! {

/// An outcome, written under the endpoint it belongs to.
pub struct Written {
    pub endpoint: Seq<char>,
    pub outcome: DeliveryOutcome,
}

/// Whether some entry stands under `key`.
pub open spec fn has_key(entries: Seq<Written>, key: Seq<char>) -> bool {
    exists|i: int| 0 <= i < entries.len() && (#[trigger] entries[i]).endpoint == key
}

/// The position of an entry under `key`.
pub open spec fn index_of(entries: Seq<Written>, key: Seq<char>) -> int
    recommends
        has_key(entries, key),
{
    choose|i: int| 0 <= i < entries.len() && (#[trigger] entries[i]).endpoint == key
}

/// Whether no two entries stand under one endpoint.
pub open spec fn distinct_keys(entries: Seq<Written>) -> bool {
    forall|i: int, j: int|
        0 <= i < j < entries.len() ==> (#[trigger] entries[i]).endpoint != (
        #[trigger] entries[j]).endpoint
}

/// The endpoints of `entries`, in order.
pub open spec fn keys(entries: Seq<Written>) -> Seq<Seq<char>> {
    entries.map_values(|e: Written| e.endpoint)
}

/// The entries after one more write: in place where the endpoint is known,
/// at the end where it is new.
pub open spec fn record(entries: Seq<Written>, write: Written) -> Seq<Written> {
    if has_key(entries, write.endpoint) {
        entries.update(index_of(entries, write.endpoint), write)
    } else {
        entries.push(write)
    }
}

/// The entries that a sequence of writes leaves behind.
pub open spec fn tally(writes: Seq<Written>) -> Seq<Written>
    decreases writes.len(),
{
    if writes.len() == 0 {
        Seq::empty()
    } else {
        record(tally(writes.drop_last()), writes.last())
    }
}

/// The number of entries that tell of a delivery.
pub open spec fn count_delivered(entries: Seq<Written>) -> nat
    decreases entries.len(),
{
    if entries.len() == 0 {
        0
    } else {
        count_delivered(entries.drop_last()) + if entries.last().outcome.delivered() {
            1nat
        } else {
            0nat
        }
    }
}

/// The number of entries that tell of a failure.
pub open spec fn count_failed(entries: Seq<Written>) -> nat
    decreases entries.len(),
{
    if entries.len() == 0 {
        0
    } else {
        count_failed(entries.drop_last()) + if entries.last().outcome.delivered() {
            0nat
        } else {
            1nat
        }
    }
}

/// Every entry tells of a delivery or of a failure, and of one only.
pub proof fn lemma_counts_sum(entries: Seq<Written>)
    ensures
        count_delivered(entries) + count_failed(entries) == entries.len(),
    decreases entries.len(),
{
    if entries.len() > 0 {
        lemma_counts_sum(entries.drop_last());
    }
}

/// What one more entry at the end adds to the counts.
pub proof fn lemma_count_push(entries: Seq<Written>, write: Written)
    ensures
        count_delivered(entries.push(write)) == count_delivered(entries) + if write.outcome.delivered() {
            1nat
        } else {
            0nat
        },
{
    assert(entries.push(write).drop_last() =~= entries);
}

/// What a write in place changes in the counts: the old entry leaves, the
/// new one comes.
pub proof fn lemma_count_update(entries: Seq<Written>, i: int, write: Written)
    requires
        0 <= i < entries.len(),
    ensures
        count_delivered(entries.update(i, write)) + (if entries[i].outcome.delivered() {
            1nat
        } else {
            0nat
        }) == count_delivered(entries) + if write.outcome.delivered() {
            1nat
        } else {
            0nat
        },
    decreases entries.len(),
{
    let updated = entries.update(i, write);
    if i == entries.len() - 1 {
        assert(updated.drop_last() =~= entries.drop_last());
    } else {
        assert(updated.drop_last() =~= entries.drop_last().update(i, write));
        lemma_count_update(entries.drop_last(), i, write);
    }
}

/// Where no two entries share an endpoint, an entry is found under its
/// endpoint at its own position.
pub proof fn lemma_index_of_distinct(entries: Seq<Written>, i: int)
    requires
        distinct_keys(entries),
        0 <= i < entries.len(),
    ensures
        has_key(entries, entries[i].endpoint),
        index_of(entries, entries[i].endpoint) == i,
{
    let found = index_of(entries, entries[i].endpoint);
    if found < i {
        assert(entries[found].endpoint != entries[i].endpoint);
    }
    if i < found {
        assert(entries[i].endpoint != entries[found].endpoint);
    }
}

/// A write leaves the endpoints distinct, adds its own endpoint and no
/// other, and never shortens the entries.
pub proof fn lemma_record(entries: Seq<Written>, write: Written)
    requires
        distinct_keys(entries),
    ensures
        distinct_keys(record(entries, write)),
        has_key(record(entries, write), write.endpoint),
        record(entries, write)[index_of(record(entries, write), write.endpoint)] == write,
        forall|key: Seq<char>|
            has_key(record(entries, write), key) <==> has_key(entries, key) || key
                == write.endpoint,
        record(entries, write).len() == entries.len() + if has_key(entries, write.endpoint) {
            0int
        } else {
            1int
        },
{
    let after = record(entries, write);
    let at = if has_key(entries, write.endpoint) {
        index_of(entries, write.endpoint)
    } else {
        entries.len() as int
    };
    assert(after[at] == write);
    assert forall|i: int, j: int| 0 <= i < j < after.len() implies (#[trigger] after[i]).endpoint
        != (#[trigger] after[j]).endpoint by {
        if has_key(entries, write.endpoint) {
            assert(after[i].endpoint == entries[i].endpoint);
            assert(after[j].endpoint == entries[j].endpoint);
        } else if j == entries.len() {
            assert(after[i] == entries[i]);
        } else {
            assert(after[i] == entries[i]);
            assert(after[j] == entries[j]);
        }
    }
    lemma_index_of_distinct(after, at);
    assert forall|key: Seq<char>| has_key(after, key) <==> has_key(entries, key) || key
        == write.endpoint by {
        if has_key(after, key) && key != write.endpoint {
            let i = index_of(after, key);
            assert(entries[i].endpoint == key);
        }
        if has_key(entries, key) {
            let i = index_of(entries, key);
            assert(after[i].endpoint == key);
        }
    }
}

/// A write moves no entry: what stood at a position stands there still,
/// under the same endpoint, and a new endpoint comes behind all others.
pub proof fn lemma_record_keeps_order(entries: Seq<Written>, write: Written)
    ensures
        entries.len() <= record(entries, write).len() <= entries.len() + 1,
        forall|i: int|
            0 <= i < entries.len() ==> (#[trigger] record(entries, write)[i]).endpoint
                == entries[i].endpoint,
        !has_key(entries, write.endpoint) ==> record(entries, write).last() == write,
{
}

/// A write changes nothing under any other endpoint.
pub proof fn lemma_record_keeps_others(entries: Seq<Written>, write: Written, key: Seq<char>)
    requires
        distinct_keys(entries),
        has_key(entries, key),
        key != write.endpoint,
    ensures
        has_key(record(entries, write), key),
        index_of(record(entries, write), key) == index_of(entries, key),
        record(entries, write)[index_of(entries, key)] == entries[index_of(entries, key)],
{
    lemma_record(entries, write);
    let after = record(entries, write);
    let i = index_of(entries, key);
    assert(after[i] == entries[i]);
    lemma_index_of_distinct(after, i);
}

/// In what a sequence of writes leaves behind, no two entries share an
/// endpoint.
pub proof fn lemma_tally_distinct(writes: Seq<Written>)
    ensures
        distinct_keys(tally(writes)),
    decreases writes.len(),
{
    if writes.len() > 0 {
        lemma_tally_distinct(writes.drop_last());
        lemma_record(tally(writes.drop_last()), writes.last());
    }
}

/// One more write is one more step of the tally.
pub proof fn lemma_tally_push(writes: Seq<Written>, write: Written)
    ensures
        tally(writes.push(write)) == record(tally(writes), write),
{
    assert(writes.push(write).drop_last() =~= writes);
}

/// An endpoint stands in the report exactly if something was written under
/// it: no write is dropped, and no entry comes from nowhere.
pub proof fn lemma_tally_keys(writes: Seq<Written>, key: Seq<char>)
    ensures
        has_key(tally(writes), key) <==> has_key(writes, key),
    decreases writes.len(),
{
    if writes.len() > 0 {
        let before = writes.drop_last();
        lemma_tally_keys(before, key);
        lemma_tally_distinct(before);
        lemma_record(tally(before), writes.last());
        if has_key(writes, key) {
            let i = index_of(writes, key);
            if i < before.len() {
                assert(before[i].endpoint == key);
            }
        }
        if has_key(before, key) {
            let i = index_of(before, key);
            assert(writes[i].endpoint == key);
        }
        assert(writes[writes.len() - 1] == writes.last());
    }
}

/// The entry under an endpoint is the last that was written under it.
pub proof fn lemma_last_write_wins(writes: Seq<Written>, last: int)
    requires
        0 <= last < writes.len(),
        forall|later: int|
            last < later < writes.len() ==> (#[trigger] writes[later]).endpoint
                != writes[last].endpoint,
    ensures
        has_key(tally(writes), writes[last].endpoint),
        tally(writes)[index_of(tally(writes), writes[last].endpoint)] == writes[last],
    decreases writes.len(),
{
    let before = writes.drop_last();
    lemma_tally_distinct(before);
    lemma_record(tally(before), writes.last());
    if last < writes.len() - 1 {
        assert forall|later: int| last < later < before.len() implies (
        #[trigger] before[later]).endpoint != before[last].endpoint by {
            assert(writes[later].endpoint != writes[last].endpoint);
        }
        lemma_last_write_wins(before, last);
        assert(writes.last() == writes[writes.len() - 1]);
        lemma_record_keeps_others(tally(before), writes.last(), writes[last].endpoint);
    }
}

/// A report has as many entries as the writes name endpoints: as many as
/// there were writes where no endpoint came twice, and fewer where one did.
/// Its counts of deliveries and failures add up to that number.
pub proof fn lemma_report_size(writes: Seq<Written>)
    ensures
        distinct_keys(tally(writes)),
        tally(writes).len() == keys(writes).to_set().len(),
        tally(writes).len() <= writes.len(),
        distinct_keys(writes) ==> tally(writes).len() == writes.len(),
        count_delivered(tally(writes)) + count_failed(tally(writes)) == keys(writes).to_set().len(),
    decreases writes.len(),
{
    broadcast use vstd::seq_lib::seq_to_set_is_finite;

    lemma_tally_distinct(writes);
    lemma_counts_sum(tally(writes));
    if writes.len() == 0 {
        assert(keys(writes) =~= Seq::<Seq<char>>::empty());
        assert(keys(writes).to_set() =~= Set::<Seq<char>>::empty());
    } else {
        let before = writes.drop_last();
        let write = writes.last();
        lemma_report_size(before);
        lemma_record(tally(before), write);
        lemma_tally_keys(before, write.endpoint);
        assert(keys(writes) =~= keys(before).push(write.endpoint));
        keys(before).lemma_push_to_set_commute(write.endpoint);
        vstd::set::axiom_set_insert_len(keys(before).to_set(), write.endpoint);
        if has_key(before, write.endpoint) {
            let i = index_of(before, write.endpoint);
            assert(keys(before)[i] == write.endpoint);
            assert(keys(before).to_set().contains(write.endpoint));
            assert(writes[i].endpoint == writes[writes.len() - 1].endpoint);
        } else {
            if keys(before).to_set().contains(write.endpoint) {
                let i = choose|i: int| 0 <= i < keys(before).len() && keys(before)[i] == write.endpoint;
                assert(before[i].endpoint == write.endpoint);
            }
            if distinct_keys(writes) {
                assert forall|i: int, j: int| 0 <= i < j < before.len() implies (
                #[trigger] before[i]).endpoint != (#[trigger] before[j]).endpoint by {
                    assert(writes[i].endpoint != writes[j].endpoint);
                }
            }
        }
    }
}

} // verus!
