//! A batch: one payload for many recipients, one outcome for each.
//!
//! The coordinator goes through the subscriptions in order and once. It
//! settles by itself what needs no sending, hands out the request for the
//! first recipient that needs one, and waits for what became of it. Nothing
//! that happens to one recipient touches the outcome of another, and no
//! failure of a delivery ends the batch.
//!
//! ```text
//! BatchCoordinator --advance--> Send(InFlight, request) --resolve--> BatchCoordinator
//!                  --advance--> Finished(report)
//! ```
//!
//! A caller whose transport waits, or sleeps, or is polled, takes these
//! steps itself. [`dispatch_batch`] takes them for a transport that is an
//! ordinary function. Within `advance`, [`BatchCoordinator::take`] says what
//! the batch does with each thing that preparing a delivery can end in.

use vstd::prelude::*;

use crate::dispatcher::{
    classify, local_verdict, outcome_of_event, prepare, prepared, request_matches, sent_through,
    settles_unsent, OutboundRequest, TransportEvent,
};
use crate::model::{DispatchConfig, PushPayload, Subscription};
use crate::outcome::DeliveryOutcome;
use crate::report::BatchReport;
use crate::tally::{
    count_delivered, count_failed, has_key, keys, lemma_report_size, lemma_tally_keys, tally,
    Written,
};
use crate::vapid::VapidIdentity;

verus! {

/// Whether `settled` holds the outcomes of the first subscriptions of
/// `subscriptions`, one for each, in order and under their endpoints.
pub open spec fn settles_first(settled: Seq<Written>, subscriptions: Seq<Subscription>) -> bool {
    &&& settled.len() <= subscriptions.len()
    &&& forall|k: int|
        0 <= k < settled.len() ==> (#[trigger] settled[k]).endpoint == subscriptions[k].endpoint@
}

/// Whether `later` goes on from `earlier`: what was settled stays settled,
/// and what was settled since needed nothing to be sent.
pub open spec fn goes_on_unsent(
    earlier: Seq<Written>,
    later: Seq<Written>,
    subscriptions: Seq<Subscription>,
    payload: PushPayload,
    config: DispatchConfig,
) -> bool {
    &&& earlier.len() <= later.len() <= subscriptions.len()
    &&& later.subrange(0, earlier.len() as int) == earlier
    &&& forall|k: int|
        earlier.len() <= k < later.len() ==> settles_unsent(
            subscriptions[k],
            payload,
            config,
            (#[trigger] later[k]).outcome,
        )
}

/// The endpoints of `subscriptions`, in order.
pub open spec fn endpoints(subscriptions: Seq<Subscription>) -> Seq<Seq<char>> {
    subscriptions.map_values(|s: Subscription| s.endpoint@)
}

/// The report of a batch holds one entry for each endpoint that the
/// subscriptions name, and none else: as many entries as subscriptions where
/// no endpoint comes twice, and fewer where one does. Its counts of
/// deliveries and of failures add up to the number of its entries.
pub proof fn lemma_one_entry_per_endpoint(subscriptions: Seq<Subscription>, writes: Seq<Written>)
    requires
        writes.len() == subscriptions.len(),
        settles_first(writes, subscriptions),
    ensures
        tally(writes).len() == endpoints(subscriptions).to_set().len(),
        tally(writes).len() <= subscriptions.len(),
        endpoints(subscriptions).no_duplicates() ==> tally(writes).len() == subscriptions.len(),
        count_delivered(tally(writes)) + count_failed(tally(writes)) == endpoints(
            subscriptions,
        ).to_set().len(),
        forall|key: Seq<char>|
            has_key(tally(writes), key) <==> endpoints(subscriptions).contains(key),
{
    lemma_report_size(writes);
    assert(keys(writes) =~= endpoints(subscriptions));
    if endpoints(subscriptions).no_duplicates() {
        assert forall|i: int, j: int| 0 <= i < j < writes.len() implies (
        #[trigger] writes[i]).endpoint != (#[trigger] writes[j]).endpoint by {
            assert(endpoints(subscriptions)[i] != endpoints(subscriptions)[j]);
        }
    }
    assert forall|key: Seq<char>| has_key(tally(writes), key) <==> endpoints(
        subscriptions,
    ).contains(key) by {
        lemma_tally_keys(writes, key);
        if has_key(writes, key) {
            let i = choose|i: int| 0 <= i < writes.len() && (#[trigger] writes[i]).endpoint == key;
            assert(endpoints(subscriptions)[i] == key);
        }
        if endpoints(subscriptions).contains(key) {
            let i = choose|i: int|
                0 <= i < endpoints(subscriptions).len() && endpoints(subscriptions)[i] == key;
            assert(writes[i].endpoint == key);
        }
    }
}

/// A batch between two deliveries.
pub struct BatchCoordinator {
    subscriptions: Vec<Subscription>,
    payload: PushPayload,
    config: DispatchConfig,
    report: BatchReport,
    cursor: usize,
}

/// A batch that waits for the transport's report on the request it handed
/// out.
pub struct InFlight {
    batch: BatchCoordinator,
}

/// What a batch does next.
pub enum Progress {
    /// The request is to be sent, and what the transport reports of it is
    /// owed to the batch.
    Send(InFlight, OutboundRequest),
    /// Every subscription has its outcome.
    Finished(BatchReport),
}

/// What a batch does with what [`prepare`] ended in for the subscription
/// that is due.
pub enum Step {
    /// The request is to be sent.
    Send(InFlight, OutboundRequest),
    /// The outcome is written down, and the next subscription is due.
    Next(BatchCoordinator),
}

impl BatchCoordinator {
    #[verifier::type_invariant]
    spec fn in_step(&self) -> bool {
        &&& self.cursor == self.report.writes().len()
        &&& settles_first(self.report.writes(), self.subscriptions@)
    }

    pub closed spec fn subscriptions(&self) -> Seq<Subscription> {
        self.subscriptions@
    }

    pub closed spec fn payload(&self) -> PushPayload {
        self.payload
    }

    pub closed spec fn config(&self) -> DispatchConfig {
        self.config
    }

    /// The outcomes so far: one for each of the first subscriptions.
    pub closed spec fn settled(&self) -> Seq<Written> {
        self.report.writes()
    }

    /// A batch that delivers `payload` to `subscriptions` within `config`.
    pub fn new(subscriptions: Vec<Subscription>, payload: PushPayload, config: DispatchConfig) -> (batch:
        BatchCoordinator)
        ensures
            batch.subscriptions() == subscriptions@,
            batch.payload() == payload,
            batch.config() == config,
            batch.settled() == Seq::<Written>::empty(),
    {
        BatchCoordinator { subscriptions, payload, config, report: BatchReport::new(), cursor: 0 }
    }

    /// The number of subscriptions that have no outcome yet.
    pub fn remaining(&self) -> (n: usize)
        ensures
            n == self.subscriptions().len() - self.settled().len(),
            settles_first(self.settled(), self.subscriptions()),
    {
        proof {
            use_type_invariant(self);
        }
        self.subscriptions.len() - self.cursor
    }

    /// Takes what [`prepare`] ended in for the subscription that is due. A
    /// request is handed out, and the batch waits for what becomes of it. An
    /// outcome is written down under the endpoint of the subscription, and
    /// the next subscription is due.
    pub fn take(self, prepared: Result<OutboundRequest, DeliveryOutcome>) -> (step: Step)
        requires
            self.settled().len() < self.subscriptions().len(),
        ensures
            match step {
                Step::Send(pending, request) => {
                    &&& prepared == Ok::<OutboundRequest, DeliveryOutcome>(request)
                    &&& pending.subscriptions() == self.subscriptions()
                    &&& pending.payload() == self.payload()
                    &&& pending.config() == self.config()
                    &&& pending.settled() == self.settled()
                },
                Step::Next(batch) => {
                    &&& prepared matches Err(outcome)
                    &&& batch.subscriptions() == self.subscriptions()
                    &&& batch.payload() == self.payload()
                    &&& batch.config() == self.config()
                    &&& batch.settled() == self.settled().push(
                        Written {
                            endpoint: self.subscriptions()[self.settled().len() as int].endpoint@,
                            outcome,
                        },
                    )
                    &&& settles_first(batch.settled(), batch.subscriptions())
                },
            },
    {
        proof {
            use_type_invariant(&self);
        }
        let BatchCoordinator { subscriptions, payload, config, report, cursor } = self;
        match prepared {
            Ok(request) => {
                let batch = BatchCoordinator { subscriptions, payload, config, report, cursor };
                Step::Send(InFlight { batch }, request)
            },
            Err(outcome) => {
                let report = report.record(subscriptions[cursor].endpoint.clone(), outcome);
                assert(cursor < subscriptions.len() <= usize::MAX);
                Step::Next(
                    BatchCoordinator { subscriptions, payload, config, report, cursor: cursor + 1 },
                )
            },
        }
    }

    /// Goes on with the batch until a request is to be sent or every
    /// subscription has its outcome.
    ///
    /// Each subscription that is passed on the way has the outcome that
    /// [`prepare`] names for it, and nothing was sent for it. The request, if
    /// one is returned, is the one that `prepare` makes for the first
    /// subscription without an outcome. The report, once every subscription
    /// has its outcome, holds one entry for each endpoint, and its counts add
    /// up to the number of its entries.
    pub fn advance(self, identity: &VapidIdentity, now: u64) -> (progress: Progress)
        ensures
            match progress {
                Progress::Send(pending, request) => {
                    &&& pending.subscriptions() == self.subscriptions()
                    &&& pending.payload() == self.payload()
                    &&& pending.config() == self.config()
                    &&& pending.settled().len() < self.subscriptions().len()
                    &&& settles_first(pending.settled(), self.subscriptions())
                    &&& goes_on_unsent(
                        self.settled(),
                        pending.settled(),
                        self.subscriptions(),
                        self.payload(),
                        self.config(),
                    )
                    &&& prepared(
                        identity@,
                        self.subscriptions()[pending.settled().len() as int],
                        self.payload(),
                        self.config(),
                        now,
                        Ok(request),
                    )
                },
                Progress::Finished(report) => {
                    &&& report.writes().len() == self.subscriptions().len()
                    &&& settles_first(report.writes(), self.subscriptions())
                    &&& goes_on_unsent(
                        self.settled(),
                        report.writes(),
                        self.subscriptions(),
                        self.payload(),
                        self.config(),
                    )
                    &&& report@ == tally(report.writes())
                    &&& report@.len() == endpoints(self.subscriptions()).to_set().len()
                    &&& report.ok_total() == count_delivered(report@)
                    &&& report.error_total() == count_failed(report@)
                    &&& report.ok_total() + report.error_total() == report@.len()
                },
            },
    {
        proof {
            use_type_invariant(&self);
        }
        let ghost start = self.settled();
        let mut batch = self;
        assert(start.subrange(0, start.len() as int) =~= start);
        loop
            invariant
                batch.subscriptions() == self.subscriptions(),
                batch.payload() == self.payload(),
                batch.config() == self.config(),
                start == self.settled(),
                settles_first(batch.settled(), self.subscriptions()),
                goes_on_unsent(
                    start,
                    batch.settled(),
                    self.subscriptions(),
                    self.payload(),
                    self.config(),
                ),
            decreases self.subscriptions().len() - batch.settled().len(),
        {
            proof {
                use_type_invariant(&batch);
            }
            if batch.cursor >= batch.subscriptions.len() {
                let BatchCoordinator { subscriptions, payload, config, report, cursor } = batch;
                let _ = report.len();
                let _ = report.ok_count();
                let _ = report.error_count();
                proof {
                    lemma_one_entry_per_endpoint(subscriptions@, report.writes());
                }
                return Progress::Finished(report);
            }
            let ghost before = batch.settled();
            let prepared = prepare(
                identity,
                &batch.subscriptions[batch.cursor],
                &batch.payload,
                &batch.config,
                now,
            );
            match batch.take(prepared) {
                Step::Send(pending, request) => {
                    return Progress::Send(pending, request);
                },
                Step::Next(next) => {
                    batch = next;
                    assert(batch.settled().subrange(0, start.len() as int) =~= before.subrange(
                        0,
                        start.len() as int,
                    ));
                },
            }
        }
    }
}

impl InFlight {
    #[verifier::type_invariant]
    spec fn owes_one(&self) -> bool {
        self.batch.cursor < self.batch.subscriptions@.len()
    }

    pub closed spec fn subscriptions(&self) -> Seq<Subscription> {
        self.batch.subscriptions()
    }

    pub closed spec fn payload(&self) -> PushPayload {
        self.batch.payload()
    }

    pub closed spec fn config(&self) -> DispatchConfig {
        self.batch.config()
    }

    /// The outcomes so far. The delivery that is under way is the one for the
    /// first subscription without an outcome.
    pub closed spec fn settled(&self) -> Seq<Written> {
        self.batch.settled()
    }

    /// Takes what the transport reports of the request that was handed out,
    /// and writes down the outcome it amounts to.
    pub fn resolve(self, event: TransportEvent) -> (batch: BatchCoordinator)
        ensures
            batch.subscriptions() == self.subscriptions(),
            batch.payload() == self.payload(),
            batch.config() == self.config(),
            self.settled().len() < self.subscriptions().len(),
            batch.settled() == self.settled().push(
                Written {
                    endpoint: self.subscriptions()[self.settled().len() as int].endpoint@,
                    outcome: outcome_of_event(event),
                },
            ),
            settles_first(batch.settled(), batch.subscriptions()),
    {
        proof {
            use_type_invariant(&self);
            use_type_invariant(&self.batch);
        }
        let InFlight { batch } = self;
        let BatchCoordinator { subscriptions, payload, config, report, cursor } = batch;
        let outcome = classify(event);
        let report = report.record(subscriptions[cursor].endpoint.clone(), outcome);
        assert(cursor < subscriptions.len() <= usize::MAX);
        BatchCoordinator { subscriptions, payload, config, report, cursor: cursor + 1 }
    }
}

/// Delivers `payload` to every recipient in `subscriptions`, one after the
/// other, and reports what became of each.
///
/// Every subscription is gone through once, in order, and has exactly one
/// outcome written under its endpoint: the outcome that [`deliver`] would
/// name for it with this transport. What happens to one recipient changes
/// nothing for another, and no failure ends the batch. Where an endpoint
/// comes twice it is sent to twice, and the report keeps what was written
/// last.
///
/// [`deliver`]: crate::dispatcher::deliver
pub fn dispatch_batch<T: Fn(OutboundRequest) -> TransportEvent>(
    identity: &VapidIdentity,
    transport: &T,
    subscriptions: Vec<Subscription>,
    payload: PushPayload,
    config: DispatchConfig,
    now: u64,
) -> (report: BatchReport)
    requires
        forall|k: int, request: OutboundRequest|
            0 <= k < subscriptions.len() && #[trigger] request_matches(
                request,
                identity@,
                subscriptions[k],
                payload,
                config,
                now,
            ) ==> call_requires(*transport, (request,)),
    ensures
        report.writes().len() == subscriptions.len(),
        settles_first(report.writes(), subscriptions@),
        forall|k: int|
            0 <= k < subscriptions.len() ==> sent_through(
                *transport,
                identity@,
                subscriptions[k],
                payload,
                config,
                now,
                (#[trigger] report.writes()[k]).outcome,
            ),
        forall|k: int|
            0 <= k < subscriptions.len() ==> (local_verdict(
                subscriptions[k],
                payload,
                config,
            ) matches Some(owed) ==> (#[trigger] report.writes()[k]).outcome == owed),
        report@ == tally(report.writes()),
        report@.len() == endpoints(subscriptions@).to_set().len(),
        report@.len() <= subscriptions.len(),
        report.ok_total() == count_delivered(report@),
        report.error_total() == count_failed(report@),
        report.ok_total() + report.error_total() == report@.len(),
{
    let ghost all = subscriptions@;
    let mut batch = BatchCoordinator::new(subscriptions, payload, config);
    loop
        invariant
            all == subscriptions@,
            batch.subscriptions() == all,
            batch.payload() == payload,
            batch.config() == config,
            settles_first(batch.settled(), all),
            forall|k: int, request: OutboundRequest|
                0 <= k < all.len() && #[trigger] request_matches(
                    request,
                    identity@,
                    all[k],
                    payload,
                    config,
                    now,
                ) ==> call_requires(*transport, (request,)),
            forall|k: int|
                0 <= k < batch.settled().len() ==> sent_through(
                    *transport,
                    identity@,
                    all[k],
                    payload,
                    config,
                    now,
                    (#[trigger] batch.settled()[k]).outcome,
                ),
        decreases all.len() - batch.settled().len(),
    {
        let ghost before = batch.settled();
        match batch.advance(identity, now) {
            Progress::Finished(report) => {
                assert forall|k: int| 0 <= k < all.len() implies sent_through(
                    *transport,
                    identity@,
                    all[k],
                    payload,
                    config,
                    now,
                    (#[trigger] report.writes()[k]).outcome,
                ) by {
                    if k < before.len() {
                        assert(report.writes().subrange(0, before.len() as int)[k] == before[k]);
                    }
                }
                proof {
                    lemma_one_entry_per_endpoint(all, report.writes());
                }
                return report;
            },
            Progress::Send(pending, request) => {
                let ghost passed = pending.settled();
                let ghost made = request;
                let event = transport(request);
                batch = pending.resolve(event);
                assert forall|k: int| 0 <= k < batch.settled().len() implies sent_through(
                    *transport,
                    identity@,
                    all[k],
                    payload,
                    config,
                    now,
                    (#[trigger] batch.settled()[k]).outcome,
                ) by {
                    if k < before.len() {
                        assert(passed.subrange(0, before.len() as int)[k] == before[k]);
                    } else if k < passed.len() {
                        assert(batch.settled()[k] == passed[k]);
                    } else {
                        assert(call_ensures(*transport, (made,), event));
                    }
                }
            },
        }
    }
}

} // verus!
