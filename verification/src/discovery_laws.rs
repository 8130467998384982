//! What holds of a discovery pass.

use vstd::prelude::*;

use crate::capability::DeviceDataView;
use crate::database::controls::StateControlsView;
use crate::database::device::{lemma_with_routes_wf, DeviceView};
use crate::database::round_trip::{
    grown_by_device, hangs_from, lemma_delete_undoes_growth, lemma_insert_then_delete_restores,
};
use crate::database::soundness::{
    lemma_delete_device_wf, lemma_insert_device_wf, lemma_insert_main_route_wf, lemma_kept_row,
    lemma_same_devices, lemma_same_routes,
};
use crate::database::{AddressRow, StoreError, StoreView};
use crate::database::device::DeviceAddressView;
use crate::discovery::{
    candidates, has_address, DiscoveredDeviceView, PassState, PassView, ProbeView,
};
use crate::manifest_client::{
    lemma_probing_respects_order, marked_unreachable, usable, RetrievalView,
};

verus! {

/// A pass over records of which none has an address, and so a pass over no
/// record at all, is complete at once: it leaves the store as it was, asks
/// for nothing and has no device.
pub proof fn lemma_empty_batch_leaves_store(db: StoreView, found: Seq<DiscoveredDeviceView>)
    requires
        forall|i: int| 0 <= i < found.len() ==> (#[trigger] found[i]).addresses.len() == 0,
    ensures
        PassView::start(db, found).1 == db,
        PassView::start(db, found).0.state == PassState::Completed,
        PassView::start(db, found).0.request() is None,
        PassView::start(db, found).0.devices.len() == 0,
        PassView::start(db, found).0.wf(),
{
    let batch = found.filter(has_address());
    if batch.len() > 0 {
        lemma_kept_row(found, has_address(), 0);
    }
}

/// A pass over records of which one has an address clears the store first:
/// what it leaves does not depend on what the store held.
pub proof fn lemma_pass_rebuilds_store(
    db: StoreView,
    other: StoreView,
    found: Seq<DiscoveredDeviceView>,
)
    requires
        found.filter(has_address()).len() > 0,
    ensures
        PassView::start(db, found) == PassView::start(other, found),
{
}

/// A device that is stored with its addresses and then deleted, as happens
/// to a device of which no address answers with a manifest, leaves every
/// table as it was.
pub proof fn lemma_unreachable_device_leaves_no_row(db: StoreView, record: DiscoveredDeviceView)
    requires
        db.wf(),
        db.last_device_id < u16::MAX,
    ensures
        record.saved_in(db).delete_device(record.metadata_in(db).id).same_rows(db),
{
    let id = record.metadata_in(db).id;
    let saved = record.saved_in(db);
    lemma_insert_device_wf(db, record.port, record.scheme_or_default(), record.path_or_default());
    assert(grown_by_device(db, saved, id)) by {
        assert forall|i: int| db.addresses.len() <= i < saved.addresses.len() implies hangs_from::<
            AddressRow,
        >(id)(#[trigger] saved.addresses[i]) by {}
        assert forall|other: u16| db.has_route(other) implies saved.has_route(other) by {
            let k = choose|k: int| 0 <= k < db.routes.len() && (#[trigger] db.routes[k]).id
                == other;
            assert(saved.routes[k].id == other);
        }
    }
    lemma_delete_undoes_growth(db, saved, id);
}

/// A device that is stored with its addresses and its manifest and then
/// deleted leaves every table as it was.
pub proof fn lemma_answering_device_can_be_deleted(
    db: StoreView,
    record: DiscoveredDeviceView,
    data: DeviceDataView,
)
    requires
        db.wf(),
        db.last_device_id < u16::MAX,
        db.last_route_id + data.routes.len() <= u16::MAX,
    ensures
        record.saved_in(db).with_manifest(record.metadata_in(db).id, data).delete_device(
            record.metadata_in(db).id,
        ).same_rows(db),
{
    lemma_insert_then_delete_restores(
        db,
        record.port,
        record.scheme_or_default(),
        record.path_or_default(),
        record.addresses,
        data,
    );
}

impl PassView {
    /// The pass and the store after the current device has been asked at one
    /// address after the other until its retrieval has ended, where
    /// `answers[i]` is what the `i`-th address of the device answers when it
    /// is asked.
    pub open spec fn respond_until_settled(
        self,
        db: StoreView,
        answers: Seq<Option<DeviceDataView>>,
    ) -> (PassView, StoreView)
        recommends
            self.wf(),
            self.current is Some,
            answers.len() == self.current->0.retrieval.addresses.len(),
        decreases
            match self.current {
                Some(probe) => probe.retrieval.addresses.len() - probe.retrieval.tried,
                None => 0,
            },
    {
        match self.current {
            Some(probe) => {
                if probe.retrieval.done() {
                    (self, db)
                } else {
                    let answer = answers[probe.retrieval.tried as int];
                    let retrieval = probe.retrieval.respond(answer);
                    let next = self.respond(db, answer);
                    if retrieval.done() {
                        next
                    } else {
                        next.0.respond_until_settled(next.1, answers)
                    }
                }
            },
            None => (self, db),
        }
    }
}

/// How a device is settled depends on the retrieval through what it ended
/// with alone.
proof fn lemma_settle_ignores_retrieval(
    pass: PassView,
    other: PassView,
    db: StoreView,
    addresses: Seq<DeviceAddressView>,
    data: Option<DeviceDataView>,
)
    requires
        pass.current is Some,
        other.current is Some,
        other.current->0.metadata == pass.current->0.metadata,
        other == (PassView { current: other.current, ..pass }),
    ensures
        other.settle(db, addresses, data) == pass.settle(db, addresses, data),
{
}

/// Asking the current device until its retrieval has ended settles it with
/// what the retrieval, run by itself, ends with.
pub proof fn lemma_respond_until_settled(
    pass: PassView,
    db: StoreView,
    answers: Seq<Option<DeviceDataView>>,
)
    requires
        pass.current is Some,
        !pass.current->0.retrieval.done(),
    ensures
        pass.respond_until_settled(db, answers) == pass.settle(
            db,
            pass.current->0.retrieval.run(answers).addresses,
            pass.current->0.retrieval.run(answers).data,
        ),
    decreases pass.current->0.retrieval.addresses.len() - pass.current->0.retrieval.tried,
{
    let probe = pass.current->0;
    let answer = answers[probe.retrieval.tried as int];
    let retrieval = probe.retrieval.respond(answer);
    let next = pass.respond(db, answer);
    let end = probe.retrieval.run(answers);
    assert(end == retrieval.run(answers));
    if !retrieval.done() {
        lemma_respond_until_settled(next.0, next.1, answers);
        lemma_settle_ignores_retrieval(pass, next.0, db, end.addresses, end.data);
    }
}

/// A pass settles a device by the first of its addresses that answers with
/// a usable manifest.
///
/// Let the pass have just turned to a device, let the addresses of the
/// device before `first` answer with nothing usable and the address at
/// `first` with a usable manifest. Then the device is settled with that
/// manifest; its addresses before `first` are marked as unreachable, and
/// those from `first` on are as they were. Where no address answers with a
/// usable manifest, the device is settled without a manifest, and so
/// deleted, with all its addresses marked as unreachable.
pub proof fn lemma_first_usable_answer_settles_device(
    pass: PassView,
    db: StoreView,
    answers: Seq<Option<DeviceDataView>>,
    first: int,
)
    requires
        pass.current is Some,
        pass.current->0.retrieval == RetrievalView::start(pass.current->0.retrieval.addresses),
        pass.current->0.retrieval.addresses.len() > 0,
        answers.len() == pass.current->0.retrieval.addresses.len(),
        0 <= first <= answers.len(),
        forall|i: int| 0 <= i < first ==> !usable(#[trigger] answers[i]),
        first < answers.len() ==> usable(answers[first]),
    ensures
        ({
            let addresses = pass.current->0.retrieval.addresses;
            let end = RetrievalView::start(addresses).run(answers);
            &&& pass.respond_until_settled(db, answers) == pass.settle(
                db,
                end.addresses,
                if first < answers.len() {
                    answers[first]
                } else {
                    None
                },
            )
            &&& end.addresses.len() == addresses.len()
            &&& forall|i: int|
                0 <= i < first ==> #[trigger] end.addresses[i] == marked_unreachable(addresses[i])
            &&& forall|i: int|
                first <= i < answers.len() ==> #[trigger] end.addresses[i] == addresses[i]
        }),
{
    lemma_probing_respects_order(pass.current->0.retrieval.addresses, answers, first);
    lemma_respond_until_settled(pass, db, answers);
}

/// What a pass amounts to: the devices that have answered, the store, and
/// what the store refused, if it refused anything.
pub struct PassOutcome {
    pub devices: Seq<DeviceView>,
    pub store: StoreView,
    pub error: Option<StoreError>,
}

/// What a pass amounts to after one more record, where `answers[i]` is what
/// the `i`-th address of the device answers when it is asked.
///
/// The device is stored with its addresses. Where one of its addresses
/// answers with a usable manifest, the manifest of the first that does is
/// inserted and the device joins the devices that have answered; otherwise
/// the device is deleted again. Once the store has refused an operation,
/// nothing changes any more.
pub open spec fn device_outcome(
    before: PassOutcome,
    record: DiscoveredDeviceView,
    answers: Seq<Option<DeviceDataView>>,
) -> PassOutcome {
    if before.error is Some {
        before
    } else if before.store.last_device_id == u16::MAX {
        PassOutcome { error: Some(StoreError::IdsExhausted), ..before }
    } else {
        let metadata = record.metadata_in(before.store);
        let saved = record.saved_in(before.store);
        let end = RetrievalView::start(candidates(metadata, record.addresses)).run(answers);
        match end.data {
            Some(data) => {
                if saved.last_route_id + data.routes.len() > u16::MAX {
                    PassOutcome {
                        store: saved,
                        error: Some(StoreError::IdsExhausted),
                        ..before
                    }
                } else {
                    PassOutcome {
                        devices: before.devices.push(
                            DeviceView {
                                metadata,
                                addresses: end.addresses,
                                data,
                                state_controls: StateControlsView::empty().with_routes(
                                    saved.last_route_id,
                                    data.routes,
                                ),
                            },
                        ),
                        store: saved.with_manifest(metadata.id, data),
                        error: None,
                    }
                }
            },
            None => PassOutcome { store: saved.delete_device(metadata.id), ..before },
        }
    }
}

/// What a pass over the records of `batch` amounts to, from an empty store,
/// where `answers[k][i]` is what the `i`-th address of the `k`-th device
/// answers when it is asked.
pub open spec fn pass_outcome(
    batch: Seq<DiscoveredDeviceView>,
    answers: Seq<Seq<Option<DeviceDataView>>>,
) -> PassOutcome
    decreases batch.len(),
{
    if batch.len() == 0 {
        PassOutcome { devices: Seq::empty(), store: StoreView::empty(), error: None }
    } else {
        device_outcome(
            pass_outcome(batch.drop_last(), answers.drop_last()),
            batch.last(),
            answers.last(),
        )
    }
}

impl PassView {
    /// The pass and the store after the pass has run to its end, where
    /// `answers[k][i]` is what the `i`-th address of the `k`-th device
    /// answers when it is asked.
    pub open spec fn run(self, db: StoreView, answers: Seq<Seq<Option<DeviceDataView>>>) -> (
        PassView,
        StoreView,
    )
        decreases self.batch.len() - self.cursor,
    {
        if self.current is None || self.cursor >= self.batch.len() {
            (self, db)
        } else {
            let next = self.respond_until_settled(db, answers[self.cursor as int]);
            if self.cursor < next.0.cursor <= self.batch.len() && next.0.batch == self.batch {
                next.0.run(next.1, answers)
            } else {
                next
            }
        }
    }
}

/// Whether there is an answer for every address of every record.
pub open spec fn answers_fit(
    batch: Seq<DiscoveredDeviceView>,
    answers: Seq<Seq<Option<DeviceDataView>>>,
) -> bool {
    &&& answers.len() == batch.len()
    &&& forall|k: int|
        0 <= k < batch.len() ==> (#[trigger] answers[k]).len() == batch[k].addresses.len()
}

/// Storing a device with its addresses preserves the invariant of the
/// store; the store then holds the device.
pub proof fn lemma_saved_in_wf(db: StoreView, record: DiscoveredDeviceView)
    requires
        db.wf(),
        db.last_device_id < u16::MAX,
    ensures
        record.saved_in(db).wf(),
        record.saved_in(db).has_device(record.metadata_in(db).id),
        record.saved_in(db).last_route_id == db.last_route_id,
{
    let inserted = db.insert_device(
        record.port,
        record.scheme_or_default(),
        record.path_or_default(),
    );
    let saved = record.saved_in(db);
    lemma_insert_device_wf(db, record.port, record.scheme_or_default(), record.path_or_default());
    lemma_same_devices(inserted, saved);
    lemma_same_routes(inserted, saved);
    assert forall|i: int| 0 <= i < saved.addresses.len() implies saved.has_device(
        (#[trigger] saved.addresses[i]).device_id,
    ) by {
        if i < inserted.addresses.len() {
            assert(saved.addresses[i] == inserted.addresses[i]);
        }
    }
}

/// What a pass amounts to keeps the invariant of the store.
pub proof fn lemma_pass_outcome_wf(
    batch: Seq<DiscoveredDeviceView>,
    answers: Seq<Seq<Option<DeviceDataView>>>,
)
    ensures
        pass_outcome(batch, answers).store.wf(),
    decreases batch.len(),
{
    if batch.len() > 0 {
        let before = pass_outcome(batch.drop_last(), answers.drop_last());
        lemma_pass_outcome_wf(batch.drop_last(), answers.drop_last());
        if before.error is None && before.store.last_device_id < u16::MAX {
            let record = batch.last();
            let metadata = record.metadata_in(before.store);
            let saved = record.saved_in(before.store);
            lemma_saved_in_wf(before.store, record);
            let end = RetrievalView::start(candidates(metadata, record.addresses)).run(
                answers.last(),
            );
            match end.data {
                Some(data) => {
                    if saved.last_route_id + data.routes.len() <= u16::MAX {
                        lemma_insert_main_route_wf(saved, data.main_route, metadata.id);
                        let with_main = saved.insert_main_route(data.main_route, metadata.id);
                        lemma_same_devices(saved, with_main);
                        lemma_with_routes_wf(with_main, metadata.id, data.routes);
                    }
                },
                None => {
                    lemma_delete_device_wf(saved, metadata.id);
                },
            }
        }
    }
}

/// Once the store has refused an operation, further records change nothing.
proof fn lemma_outcome_stays_after_error(
    batch: Seq<DiscoveredDeviceView>,
    answers: Seq<Seq<Option<DeviceDataView>>>,
    k: int,
)
    requires
        answers.len() == batch.len(),
        0 <= k <= batch.len(),
        pass_outcome(batch.take(k), answers.take(k)).error is Some,
    ensures
        pass_outcome(batch, answers) == pass_outcome(batch.take(k), answers.take(k)),
    decreases batch.len() - k,
{
    if k == batch.len() {
        assert(batch.take(k) =~= batch);
        assert(answers.take(k) =~= answers);
    } else {
        assert(batch.take(k + 1).drop_last() =~= batch.take(k));
        assert(answers.take(k + 1).drop_last() =~= answers.take(k));
        lemma_outcome_stays_after_error(batch, answers, k + 1);
    }
}

/// A pass that turns to the record at `k`, with the devices and the store
/// that the records before `k` amount to, runs to what all the records
/// amount to.
proof fn lemma_open_then_run(
    pass: PassView,
    db: StoreView,
    answers: Seq<Seq<Option<DeviceDataView>>>,
    k: int,
)
    requires
        answers_fit(pass.batch, answers),
        forall|i: int| 0 <= i < pass.batch.len() ==> (#[trigger] pass.batch[i]).addresses.len() > 0,
        0 <= k <= pass.batch.len(),
        pass.cursor == k,
        pass.current is None,
        pass.error is None,
        pass_outcome(pass.batch.take(k), answers.take(k)) == (PassOutcome {
            devices: pass.devices,
            store: db,
            error: None,
        }),
    ensures
        ({
            let opened = pass.open(db);
            let end = opened.0.run(opened.1, answers);
            let outcome = pass_outcome(pass.batch, answers);
            &&& end.0.current is None
            &&& end.0.devices == outcome.devices
            &&& end.1 == outcome.store
            &&& end.0.error == outcome.error
            &&& end.0.state == if outcome.error is Some {
                PassState::Aborted
            } else {
                PassState::Completed
            }
        }),
    decreases pass.batch.len() - k, 1int,
{
    let batch = pass.batch;
    let opened = pass.open(db);
    lemma_pass_outcome_wf(batch.take(k), answers.take(k));
    if k == batch.len() {
        assert(batch.take(k) =~= batch);
        assert(answers.take(k) =~= answers);
    } else {
        assert(batch.take(k + 1).drop_last() =~= batch.take(k));
        assert(answers.take(k + 1).drop_last() =~= answers.take(k));
        assert(batch.take(k + 1).last() == batch[k]);
        assert(answers.take(k + 1).last() == answers[k]);
        if db.last_device_id == u16::MAX {
            lemma_outcome_stays_after_error(batch, answers, k + 1);
        } else {
            lemma_run_from(opened.0, opened.1, answers, k, pass.devices, db);
        }
    }
}

/// A pass that has just turned to the record at `k`, after the records
/// before `k` amounted to `devices` and `before`, runs to what all the
/// records amount to.
proof fn lemma_run_from(
    pass: PassView,
    db: StoreView,
    answers: Seq<Seq<Option<DeviceDataView>>>,
    k: int,
    devices: Seq<DeviceView>,
    before: StoreView,
)
    requires
        answers_fit(pass.batch, answers),
        forall|i: int| 0 <= i < pass.batch.len() ==> (#[trigger] pass.batch[i]).addresses.len() > 0,
        0 <= k < pass.batch.len(),
        pass.cursor == k,
        pass.error is None,
        pass.devices == devices,
        before.wf(),
        before.last_device_id < u16::MAX,
        pass_outcome(pass.batch.take(k), answers.take(k)) == (PassOutcome {
            devices,
            store: before,
            error: None,
        }),
        db == pass.batch[k].saved_in(before),
        pass.current == Some(
            ProbeView {
                metadata: pass.batch[k].metadata_in(before),
                retrieval: RetrievalView::start(
                    candidates(pass.batch[k].metadata_in(before), pass.batch[k].addresses),
                ),
            },
        ),
    ensures
        ({
            let end = pass.run(db, answers);
            let outcome = pass_outcome(pass.batch, answers);
            &&& end.0.current is None
            &&& end.0.devices == outcome.devices
            &&& end.1 == outcome.store
            &&& end.0.error == outcome.error
            &&& end.0.state == if outcome.error is Some {
                PassState::Aborted
            } else {
                PassState::Completed
            }
        }),
    decreases pass.batch.len() - k, 0int,
{
    let batch = pass.batch;
    let record = batch[k];
    let metadata = record.metadata_in(before);
    let probe = pass.current->0;
    assert(record.addresses.len() > 0);
    assert(probe.retrieval.addresses.len() == record.addresses.len());
    lemma_respond_until_settled(pass, db, answers[k]);
    let end = probe.retrieval.run(answers[k]);
    let next = pass.respond_until_settled(db, answers[k]);
    assert(next == pass.settle(db, end.addresses, end.data));
    lemma_saved_in_wf(before, record);

    assert(batch.take(k + 1).drop_last() =~= batch.take(k));
    assert(answers.take(k + 1).drop_last() =~= answers.take(k));
    assert(batch.take(k + 1).last() == batch[k]);
    assert(answers.take(k + 1).last() == answers[k]);
    let current = pass_outcome(batch.take(k + 1), answers.take(k + 1));

    match end.data {
        Some(data) => {
            if db.last_route_id + data.routes.len() > u16::MAX {
                lemma_outcome_stays_after_error(batch, answers, k + 1);
            } else {
                let settled = PassView {
                    cursor: pass.cursor + 1,
                    current: None,
                    devices: current.devices,
                    ..pass
                };
                assert(next == settled.open(current.store));
                lemma_open_then_run(settled, current.store, answers, k + 1);
            }
        },
        None => {
            let settled = PassView { cursor: pass.cursor + 1, current: None, ..pass };
            assert(next == settled.open(current.store));
            lemma_open_then_run(settled, current.store, answers, k + 1);
        },
    }
}

/// A pass over records of which one has an address amounts to this: the
/// store is cleared; then, for each record that has an address, in order,
/// the device is stored with its addresses and either, where one of its
/// addresses answers with a usable manifest, the manifest of the first that
/// does is inserted and the device joins the result, or the device is
/// deleted again. The pass ends complete, or aborted where the store has
/// run out of identifiers.
pub proof fn lemma_pass_runs_to_its_outcome(
    db: StoreView,
    found: Seq<DiscoveredDeviceView>,
    answers: Seq<Seq<Option<DeviceDataView>>>,
)
    requires
        found.filter(has_address()).len() > 0,
        answers_fit(found.filter(has_address()), answers),
    ensures
        ({
            let start = PassView::start(db, found);
            let end = start.0.run(start.1, answers);
            let outcome = pass_outcome(found.filter(has_address()), answers);
            &&& end.0.request() is None
            &&& end.0.devices == outcome.devices
            &&& end.1 == outcome.store
            &&& end.0.error == outcome.error
            &&& end.0.state == if outcome.error is Some {
                PassState::Aborted
            } else {
                PassState::Completed
            }
            &&& outcome.store.wf()
        }),
{
    let batch = found.filter(has_address());
    let pass = PassView {
        state: PassState::Completed,
        batch,
        cursor: 0,
        current: None,
        devices: Seq::empty(),
        error: None,
    };
    assert forall|i: int| 0 <= i < batch.len() implies (#[trigger] batch[i]).addresses.len()
        > 0 by {
        found.lemma_filter_pred(has_address(), i);
    }
    assert(batch.take(0) =~= Seq::empty());
    lemma_open_then_run(pass, StoreView::empty(), answers, 0);
    lemma_pass_outcome_wf(batch, answers);
}

} // verus!
