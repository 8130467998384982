//! The discovery pass: from the records of the devices found on the network
//! to the store rebuilt and the devices with their controls.
//!
//! A pass is a state machine. [`Pass::start`] takes the records. Where none
//! of them has an address, the pass is complete at once and the store stays
//! as it was. Otherwise the store is cleared and the records are handled one
//! after the other: the device and its addresses are inserted, the
//! addresses are asked for the manifest, and then either the manifest is
//! inserted and the device joins the result, or, where no address answered
//! with a manifest, the device is deleted again. The caller sends the
//! requests: it takes the next one from [`Pass::request`] and hands the
//! answer to [`Pass::respond`] until no request is left.

use vstd::prelude::*;

use crate::capability::{DeviceData, DeviceDataView};
use crate::database::controls::StateControlsView;
use crate::database::device::{
    candidate_of, device_address_of, read_as_ip, Device, DeviceAddress, DeviceAddressView,
    DeviceView,
};
use crate::database::query::{lemma_deep_view_push, Store};
use crate::database::soundness::{lemma_insert_device_wf, lemma_same_devices};
use crate::database::{Address, Metadata, MetadataView, StoreError, StoreView};
use crate::manifest_client::{Retrieval, RetrievalView};

verus! {

/// The scheme of a device that advertises none.
pub const DEFAULT_SCHEME: &'static str = "http";

/// The path of a device that advertises none: the well-known location of the
/// manifest.
pub const WELL_KNOWN_URI: &'static str = "/.well-known/ascot";

/// A property that a device advertises.
#[derive(Clone, Debug, PartialEq, Eq)]
pub struct Property {
    pub key: String,
    pub value: String,
}

/// The mathematical value of a [`Property`].
pub struct PropertyView {
    pub key: Seq<char>,
    pub value: Seq<char>,
}

impl DeepView for Property {
    type V = PropertyView;

    open spec fn deep_view(&self) -> PropertyView {
        PropertyView { key: self.key@, value: self.value@ }
    }
}

/// The record of a device found on the network.
#[derive(Clone, Debug, PartialEq, Eq)]
pub struct DiscoveredDevice {
    pub port: u16,
    /// The URI scheme, where the device advertises one.
    pub scheme: Option<String>,
    /// The resource path, where the device advertises one.
    pub path: Option<String>,
    /// The IP addresses at which the device was found, in text form and in
    /// the order in which they are asked.
    pub addresses: Vec<String>,
    /// What else the device advertises. The pass does not read it.
    pub properties: Vec<Property>,
}

/// The mathematical value of a [`DiscoveredDevice`].
pub struct DiscoveredDeviceView {
    pub port: u16,
    pub scheme: Option<Seq<char>>,
    pub path: Option<Seq<char>>,
    pub addresses: Seq<Seq<char>>,
    pub properties: Seq<PropertyView>,
}

impl DeepView for DiscoveredDevice {
    type V = DiscoveredDeviceView;

    open spec fn deep_view(&self) -> DiscoveredDeviceView {
        DiscoveredDeviceView {
            port: self.port,
            scheme: self.scheme.deep_view(),
            path: self.path.deep_view(),
            addresses: self.addresses.deep_view(),
            properties: self.properties.deep_view(),
        }
    }
}

impl DiscoveredDeviceView {
    /// The scheme of the device: the one it advertises, or `http`.
    pub open spec fn scheme_or_default(self) -> Seq<char> {
        match self.scheme {
            Some(scheme) => scheme,
            None => DEFAULT_SCHEME@,
        }
    }

    /// The path of the device: the one it advertises, or the well-known
    /// location of the manifest.
    pub open spec fn path_or_default(self) -> Seq<char> {
        match self.path {
            Some(path) => path,
            None => WELL_KNOWN_URI@,
        }
    }

    /// The metadata of the device once `db` has stored it.
    pub open spec fn metadata_in(self, db: StoreView) -> MetadataView
        recommends
            db.last_device_id < u16::MAX,
    {
        MetadataView {
            id: (db.last_device_id + 1) as u16,
            port: self.port,
            scheme: self.scheme_or_default(),
            path: self.path_or_default(),
        }
    }

    /// The store after it has stored the device and its addresses.
    pub open spec fn saved_in(self, db: StoreView) -> StoreView
        recommends
            db.last_device_id < u16::MAX,
    {
        db.insert_device(self.port, self.scheme_or_default(), self.path_or_default()).with_addresses(
            (db.last_device_id + 1) as u16,
            self.addresses,
        )
    }
}

/// Holds of the records that have an address.
pub open spec fn has_address() -> spec_fn(DiscoveredDeviceView) -> bool {
    |record: DiscoveredDeviceView| record.addresses.len() > 0
}

/// The candidate addresses that metadata and addresses make, in the order of
/// the addresses.
pub open spec fn candidates(metadata: MetadataView, addresses: Seq<Seq<char>>) -> Seq<
    DeviceAddressView,
> {
    addresses.map_values(|address: Seq<char>| device_address_of(metadata, address))
}

/// Keeps the records that have an address, in their order. A record without
/// an address cannot be asked for anything and is dropped.
pub fn search_devices(found: Vec<DiscoveredDevice>) -> (devices_info: Vec<DiscoveredDevice>)
    ensures
        devices_info.deep_view() == found.deep_view().filter(has_address()),
{
    let ghost all = found.deep_view();
    let mut devices_info: Vec<DiscoveredDevice> = Vec::new();
    proof {
        assert(all.take(0) =~= Seq::empty());
        all.take(0).lemma_filter_len(has_address());
        assert(devices_info.deep_view() =~= all.take(0).filter(has_address()));
    }
    for record in it: found
        invariant
            it.seq() == found@,
            all == found.deep_view(),
            devices_info.deep_view() == all.take(it.index() as int).filter(has_address()),
    {
        let ghost before = devices_info;
        proof {
            assert(all[it.index() as int] == record.deep_view());
            assert(all.take(it.index() + 1) =~= all.take(it.index() as int).push(
                record.deep_view(),
            ));
            all.take(it.index() as int).lemma_filter_push(record.deep_view(), has_address());
            assert(record.deep_view().addresses.len() == record.addresses.len());
        }
        if record.addresses.len() > 0 {
            devices_info.push(record);
            proof {
                lemma_deep_view_push(before, devices_info, record);
            }
        }
    }
    proof {
        assert(all.take(found@.len() as int) =~= all);
    }
    devices_info
}

/// The candidates of addresses that are all IP addresses are one for each
/// address.
pub proof fn lemma_candidates_of_ip_addresses(metadata: MetadataView, addresses: Seq<Seq<char>>)
    ensures
        read_as_ip(addresses).filter_map(candidate_of(metadata)) == candidates(metadata, addresses),
    decreases addresses.len(),
{
    let read = read_as_ip(addresses);
    if addresses.len() == 0 {
        assert(read.filter_map(candidate_of(metadata)) =~= candidates(metadata, addresses));
    } else {
        lemma_candidates_of_ip_addresses(metadata, addresses.drop_last());
        assert(read.drop_last() =~= read_as_ip(addresses.drop_last()));
        assert(read.last() == Some(addresses.last()));
        assert(read.filter_map(candidate_of(metadata)) =~= candidates(metadata, addresses));
    }
}

/// The addresses of a record as what they are read as. Discovery finds a
/// device at IP addresses, so each is read as itself.
fn addresses_of_record(record: &DiscoveredDevice) -> (addresses: Vec<Option<Address>>)
    ensures
        addresses.deep_view() == read_as_ip(record.deep_view().addresses),
{
    let ghost expected = read_as_ip(record.deep_view().addresses);
    let mut addresses: Vec<Option<Address>> = Vec::new();
    let mut i: usize = 0;
    while i < record.addresses.len()
        invariant
            i <= record.addresses.len(),
            expected == read_as_ip(record.addresses.deep_view()),
            addresses.deep_view() =~= expected.take(i as int),
        decreases record.addresses.len() - i,
    {
        let ghost before = addresses;
        let address = Some(Address { address: record.addresses[i].clone() });
        addresses.push(address);
        proof {
            lemma_deep_view_push(before, addresses, address);
        }
        i += 1;
    }
    proof {
        assert(expected.take(record.addresses.len() as int) =~= expected);
    }
    addresses
}

/// Stores a device and its addresses, and returns the metadata of the
/// device with the identifier that the store gave it. Fails, and changes
/// nothing, when the store has handed out every identifier.
pub fn save_device(db: &mut Store, record: &DiscoveredDevice) -> (result: Result<
    Metadata,
    StoreError,
>)
    requires
        old(db).wf(),
    ensures
        final(db).wf(),
        match result {
            Ok(metadata) => {
                &&& old(db)@.last_device_id < u16::MAX
                &&& metadata.deep_view() == record.deep_view().metadata_in(old(db)@)
                &&& final(db)@ == record.deep_view().saved_in(old(db)@)
                &&& final(db)@.has_device(metadata.id)
            },
            Err(error) => {
                &&& error == StoreError::IdsExhausted
                &&& old(db)@.last_device_id == u16::MAX
                &&& final(db)@ == old(db)@
            },
        },
{
    let scheme: &str = match &record.scheme {
        Some(scheme) => scheme.as_str(),
        None => DEFAULT_SCHEME,
    };
    let path: &str = match &record.path {
        Some(path) => path.as_str(),
        None => WELL_KNOWN_URI,
    };
    let ghost start = db@;
    let id = match db.insert_device(record.port, scheme, path) {
        Ok(id) => id,
        Err(error) => {
            return Err(error);
        },
    };
    let ghost inserted = db@;
    let ghost addresses = record.deep_view().addresses;
    proof {
        lemma_insert_device_wf(start, record.port, scheme@, path@);
        assert(inserted.with_addresses(id, addresses.take(0)).addresses =~= inserted.addresses);
    }
    let mut i: usize = 0;
    while i < record.addresses.len()
        invariant
            i <= record.addresses.len(),
            addresses == record.addresses.deep_view(),
            inserted.has_device(id),
            db.wf(),
            db@.has_device(id),
            db@ == inserted.with_addresses(id, addresses.take(i as int)),
        decreases record.addresses.len() - i,
    {
        let ghost before = db@;
        let saved = db.insert_address(record.addresses[i].clone(), id);
        proof {
            assert(saved is Ok);
            lemma_same_devices(before, db@);
            assert(db@.addresses =~= inserted.with_addresses(
                id,
                addresses.take(i + 1),
            ).addresses);
        }
        i += 1;
    }
    proof {
        assert(addresses.take(record.addresses.len() as int) =~= addresses);
    }
    Ok(Metadata { id, port: record.port, scheme: scheme.to_owned(), path: path.to_owned() })
}

/// Where a pass stands.
#[derive(Clone, Copy, Debug, PartialEq, Eq, Hash, Structural)]
pub enum PassState {
    /// A device is being asked for its manifest.
    PerDevice,
    /// Every record has been handled.
    Completed,
    /// The store refused an operation; the records that were left are not
    /// handled.
    Aborted,
}

/// Why a pass has no result.
#[derive(Clone, Copy, Debug, PartialEq, Eq, Hash, Structural)]
pub enum PassError {
    /// The store refused an operation.
    Store(StoreError),
    /// The pass has not ended: a device still waits for an answer.
    Unfinished,
}

/// The device that a pass is asking for its manifest.
#[derive(Debug)]
pub struct Probe {
    metadata: Metadata,
    retrieval: Retrieval,
}

/// The mathematical value of a [`Probe`].
pub struct ProbeView {
    pub metadata: MetadataView,
    pub retrieval: RetrievalView,
}

impl View for Probe {
    type V = ProbeView;

    closed spec fn view(&self) -> ProbeView {
        ProbeView { metadata: self.metadata.deep_view(), retrieval: self.retrieval@ }
    }
}

/// The mathematical value of a [`Pass`].
pub struct PassView {
    pub state: PassState,
    /// The records of the pass: those that have an address.
    pub batch: Seq<DiscoveredDeviceView>,
    /// How many records have been handled.
    pub cursor: nat,
    /// The device that is being asked, while there is one.
    pub current: Option<ProbeView>,
    /// The devices that have answered, in the order of their records.
    pub devices: Seq<DeviceView>,
    /// What the store refused, if it refused anything.
    pub error: Option<StoreError>,
}

impl PassView {
    /// The invariant of a pass.
    pub open spec fn wf(self) -> bool {
        &&& forall|i: int| 0 <= i < self.batch.len() ==> (#[trigger] self.batch[i]).addresses.len() > 0
        &&& self.cursor <= self.batch.len()
        &&& self.state == PassState::PerDevice <==> self.current is Some
        &&& self.state == PassState::Aborted <==> self.error is Some
        &&& self.state == PassState::Completed ==> self.cursor == self.batch.len()
        &&& self.current matches Some(probe) ==> {
            &&& self.cursor < self.batch.len()
            &&& probe.retrieval.wf()
            &&& !probe.retrieval.done()
        }
    }

    /// The pass after the store has refused an operation.
    pub open spec fn abort(self, error: StoreError) -> PassView {
        PassView { state: PassState::Aborted, current: None, error: Some(error), ..self }
    }

    /// Turns to the record at the cursor. Where no record is left, the pass
    /// is complete. Otherwise the device and its addresses are stored and
    /// the retrieval of its manifest begins; the pass is aborted where the
    /// store has no identifier left for the device.
    pub open spec fn open(self, db: StoreView) -> (PassView, StoreView) {
        if self.cursor >= self.batch.len() {
            (PassView { state: PassState::Completed, current: None, ..self }, db)
        } else if db.last_device_id == u16::MAX {
            (self.abort(StoreError::IdsExhausted), db)
        } else {
            let record = self.batch[self.cursor as int];
            let metadata = record.metadata_in(db);
            let probe = ProbeView {
                metadata,
                retrieval: RetrievalView::start(candidates(metadata, record.addresses)),
            };
            (
                PassView { state: PassState::PerDevice, current: Some(probe), ..self },
                record.saved_in(db),
            )
        }
    }

    /// A pass over the records found and the store that it leaves. The
    /// records without an address are dropped. Where no record is left, the
    /// pass is complete and the store is as it was. Otherwise the store is
    /// cleared and the pass turns to the first record.
    pub open spec fn start(db: StoreView, found: Seq<DiscoveredDeviceView>) -> (
        PassView,
        StoreView,
    ) {
        let pass = PassView {
            state: PassState::Completed,
            batch: found.filter(has_address()),
            cursor: 0,
            current: None,
            devices: Seq::empty(),
            error: None,
        };
        if pass.batch.len() == 0 {
            (pass, db)
        } else {
            pass.open(StoreView::empty())
        }
    }

    /// Ends the retrieval of the current device, which left `addresses` and
    /// `data`, and turns to the next record.
    ///
    /// With a manifest, the manifest is inserted and the device joins the
    /// result with its controls; the pass is aborted, and the store stays
    /// as it is, where the store does not hold the device or has not enough
    /// route identifiers left. Without a manifest the device is deleted
    /// from the store and left out of the result.
    pub open spec fn settle(
        self,
        db: StoreView,
        addresses: Seq<DeviceAddressView>,
        data: Option<DeviceDataView>,
    ) -> (PassView, StoreView)
        recommends
            self.current is Some,
    {
        let metadata = self.current->0.metadata;
        match data {
            Some(data) => {
                if !db.has_device(metadata.id) {
                    (self.abort(StoreError::UnknownDevice), db)
                } else if db.last_route_id + data.routes.len() > u16::MAX {
                    (self.abort(StoreError::IdsExhausted), db)
                } else {
                    let device = DeviceView {
                        metadata,
                        addresses,
                        data,
                        state_controls: StateControlsView::empty().with_routes(
                            db.last_route_id,
                            data.routes,
                        ),
                    };
                    PassView {
                        cursor: self.cursor + 1,
                        current: None,
                        devices: self.devices.push(device),
                        ..self
                    }.open(db.with_manifest(metadata.id, data))
                }
            },
            None => PassView { cursor: self.cursor + 1, current: None, ..self }.open(
                db.delete_device(metadata.id),
            ),
        }
    }

    /// The request to send next, while a device is being asked.
    pub open spec fn request(self) -> Option<Seq<char>> {
        match self.current {
            Some(probe) => probe.retrieval.request(),
            None => None,
        }
    }

    /// The pass and the store after the address asked last has answered.
    /// While the retrieval of the current device goes on, only the
    /// retrieval changes; once it has ended, the device is settled. An
    /// answer that comes while no device is being asked changes nothing.
    pub open spec fn respond(self, db: StoreView, response: Option<DeviceDataView>) -> (
        PassView,
        StoreView,
    ) {
        match self.current {
            Some(probe) => {
                let retrieval = probe.retrieval.respond(response);
                if retrieval.done() {
                    self.settle(db, retrieval.addresses, retrieval.data)
                } else {
                    (PassView { current: Some(ProbeView { retrieval, ..probe }), ..self }, db)
                }
            },
            None => (self, db),
        }
    }
}

/// A discovery pass.
#[derive(Debug)]
pub struct Pass {
    state: PassState,
    batch: Vec<DiscoveredDevice>,
    cursor: usize,
    current: Option<Probe>,
    devices: Vec<Device>,
    error: Option<StoreError>,
}

impl View for Pass {
    type V = PassView;

    closed spec fn view(&self) -> PassView {
        PassView {
            state: self.state,
            batch: self.batch.deep_view(),
            cursor: self.cursor as nat,
            current: match self.current {
                Some(probe) => Some(probe@),
                None => None,
            },
            devices: self.devices.deep_view(),
            error: self.error,
        }
    }
}

impl Pass {
    /// The invariant of the pass: that of its value.
    pub open spec fn wf(&self) -> bool {
        self@.wf()
    }

    /// Turns to the record at the cursor.
    fn open(&mut self, db: &mut Store)
        requires
            old(db).wf(),
            old(self).current is None,
            old(self).error is None,
            old(self).cursor <= old(self).batch.len(),
            forall|i: int|
                0 <= i < old(self)@.batch.len() ==> (#[trigger] old(self)@.batch[i]).addresses.len()
                    > 0,
        ensures
            final(db).wf(),
            final(self).wf(),
            (final(self)@, final(db)@) == old(self)@.open(old(db)@),
    {
        assert(self.batch.deep_view().len() == self.batch.len());
        if self.cursor >= self.batch.len() {
            self.state = PassState::Completed;
            return ;
        }
        let ghost record = self@.batch[self.cursor as int];
        assert(record == self.batch[self.cursor as int].deep_view());
        assert(record.addresses.len() > 0);
        match save_device(db, &self.batch[self.cursor]) {
            Ok(metadata) => {
                let addresses = addresses_of_record(&self.batch[self.cursor]);
                let device_addresses = DeviceAddress::addresses(&metadata, addresses);
                let retrieval = Retrieval::new(device_addresses);
                proof {
                    lemma_candidates_of_ip_addresses(metadata.deep_view(), record.addresses);
                    assert(retrieval@.addresses.len() == record.addresses.len());
                }
                self.current = Some(Probe { metadata, retrieval });
                self.state = PassState::PerDevice;
            },
            Err(error) => {
                self.state = PassState::Aborted;
                self.error = Some(error);
            },
        }
    }

    /// Starts a pass over the records found. The records without an address
    /// are dropped. Where no record is left, the pass is complete and the
    /// store is as it was. Otherwise the store is cleared and the pass turns
    /// to the first record.
    pub fn start(db: &mut Store, found: Vec<DiscoveredDevice>) -> (pass: Self)
        requires
            old(db).wf(),
        ensures
            final(db).wf(),
            pass.wf(),
            (pass@, final(db)@) == PassView::start(old(db)@, found.deep_view()),
    {
        let batch = search_devices(found);
        let ghost all = found.deep_view();
        proof {
            assert forall|i: int| 0 <= i < batch.deep_view().len() implies (
            #[trigger] batch.deep_view()[i]).addresses.len() > 0 by {
                all.lemma_filter_pred(has_address(), i);
            }
            assert(batch.deep_view().len() == batch.len());
        }
        let mut pass = Pass {
            state: PassState::Completed,
            batch,
            cursor: 0,
            current: None,
            devices: Vec::new(),
            error: None,
        };
        proof {
            assert(pass@.devices =~= Seq::empty());
        }
        if pass.batch.len() > 0 {
            db.clear_all();
            pass.open(db);
        }
        pass
    }

    /// Whether the pass has cleared the store: a record with an address was
    /// found.
    pub fn cleared_store(&self) -> (cleared: bool)
        ensures
            cleared == (self@.batch.len() > 0),
    {
        assert(self.batch.deep_view().len() == self.batch.len());
        self.batch.len() > 0
    }

    /// Where the pass stands.
    pub fn state(&self) -> (state: PassState)
        ensures
            state == self@.state,
    {
        self.state
    }

    /// The request to send next, or nothing when no device is being asked:
    /// the pass is then complete or aborted.
    pub fn request(&self) -> (request: Option<&str>)
        ensures
            match request {
                Some(uri) => self@.request() == Some(uri@),
                None => self@.request() is None,
            },
    {
        match &self.current {
            Some(probe) => probe.retrieval.request(),
            None => None,
        }
    }

    /// Ends the retrieval of the current device and turns to the next
    /// record.
    fn settle(&mut self, db: &mut Store, probe: Probe)
        requires
            old(db).wf(),
            old(self).current is None,
            old(self).error is None,
            old(self).cursor < old(self).batch.len(),
            forall|i: int|
                0 <= i < old(self)@.batch.len() ==> (#[trigger] old(self)@.batch[i]).addresses.len()
                    > 0,
        ensures
            final(db).wf(),
            final(self).wf(),
            (final(self)@, final(db)@) == (PassView { current: Some(probe@), ..old(self)@ }).settle(
                old(db)@,
                probe@.retrieval.addresses,
                probe@.retrieval.data,
            ),
    {
        let Probe { metadata, retrieval } = probe;
        let device_id = metadata.id;
        let (addresses, data) = retrieval.finish();
        match Device::new(metadata, addresses, data) {
            Some(device) => {
                let mut device = device;
                match device.insert_routes(db) {
                    Ok(_) => {
                        let ghost before = self.devices;
                        self.devices.push(device);
                        proof {
                            lemma_deep_view_push(before, self.devices, device);
                        }
                        self.cursor = self.cursor + 1;
                        self.open(db);
                    },
                    Err(error) => {
                        self.state = PassState::Aborted;
                        self.error = Some(error);
                    },
                }
            },
            None => {
                db.delete_device(device_id);
                self.cursor = self.cursor + 1;
                self.open(db);
            },
        }
    }

    /// Takes the answer of the address that was asked last: a manifest, or
    /// nothing where the request failed or what came back was no manifest.
    pub fn respond(&mut self, db: &mut Store, response: Option<DeviceData>)
        requires
            old(self).wf(),
            old(db).wf(),
        ensures
            final(self).wf(),
            final(db).wf(),
            (final(self)@, final(db)@) == old(self)@.respond(old(db)@, response.deep_view()),
    {
        match self.current.take() {
            Some(probe) => {
                let mut probe = probe;
                probe.retrieval.respond(response);
                if probe.retrieval.is_done() {
                    self.settle(db, probe);
                } else {
                    self.current = Some(probe);
                }
            },
            None => {},
        }
    }

    /// Ends the pass: the devices that have answered, with their controls,
    /// in the order of their records; or why there is no result.
    pub fn finish(self) -> (result: Result<Vec<Device>, PassError>)
        requires
            self.wf(),
        ensures
            match result {
                Ok(devices) => {
                    &&& self@.state == PassState::Completed
                    &&& devices.deep_view() == self@.devices
                },
                Err(PassError::Store(error)) => {
                    &&& self@.state == PassState::Aborted
                    &&& self@.error == Some(error)
                },
                Err(PassError::Unfinished) => self@.state == PassState::PerDevice,
            },
    {
        match self.state {
            PassState::Completed => Ok(self.devices),
            PassState::PerDevice => Err(PassError::Unfinished),
            PassState::Aborted => match self.error {
                Some(error) => Err(PassError::Store(error)),
                None => Err(PassError::Unfinished),
            },
        }
    }
}

} // verus!
