//! The manifest client: which address of a device to ask next, and what the
//! answers so far amount to.
//!
//! The addresses of a device are asked in order. The first address that
//! answers with a valid manifest ends the retrieval; every address asked
//! before it is marked as unreachable; the addresses after it are never
//! asked. The caller sends the requests: it takes the next request from
//! [`Retrieval::request`] and hands what came back to
//! [`Retrieval::respond`], a manifest or nothing.

use vstd::prelude::*;

use crate::capability::{DeviceData, DeviceDataView};
use crate::database::device::{DeviceAddress, DeviceAddressView};

verus! {

/// Whether an answer is a manifest that can be used: one came back, and it
/// is valid.
pub open spec fn usable(response: Option<DeviceDataView>) -> bool {
    response matches Some(data) && data.valid()
}

/// The address `address` after a request to it has failed.
pub open spec fn marked_unreachable(address: DeviceAddressView) -> DeviceAddressView {
    DeviceAddressView { recheable: false, ..address }
}

/// The mathematical value of a [`Retrieval`].
pub struct RetrievalView {
    /// The addresses of the device, in the order in which they are asked.
    pub addresses: Seq<DeviceAddressView>,
    /// How many addresses have been asked.
    pub tried: nat,
    /// The manifest, once an address has answered with one.
    pub data: Option<DeviceDataView>,
}

impl RetrievalView {
    /// No more addresses have been asked than there are.
    pub open spec fn wf(self) -> bool {
        self.tried <= self.addresses.len()
    }

    /// The retrieval before any address has been asked.
    pub open spec fn start(addresses: Seq<DeviceAddressView>) -> RetrievalView {
        RetrievalView { addresses, tried: 0, data: None }
    }

    /// Whether the retrieval has ended: a manifest is there, or every
    /// address has been asked.
    pub open spec fn done(self) -> bool {
        self.data is Some || self.tried >= self.addresses.len()
    }

    /// The request to send next, if the retrieval has not ended: that of
    /// the first address that has not been asked.
    pub open spec fn request(self) -> Option<Seq<char>> {
        if self.done() {
            None
        } else {
            Some(self.addresses[self.tried as int].request)
        }
    }

    /// The retrieval after the address asked last has answered. A usable
    /// manifest is kept and the address stays as it was; otherwise the
    /// address is marked as unreachable. An answer that comes after the
    /// retrieval has ended changes nothing.
    pub open spec fn respond(self, response: Option<DeviceDataView>) -> RetrievalView {
        if self.done() {
            self
        } else if usable(response) {
            RetrievalView { tried: self.tried + 1, data: response, ..self }
        } else {
            RetrievalView {
                addresses: self.addresses.update(
                    self.tried as int,
                    marked_unreachable(self.addresses[self.tried as int]),
                ),
                tried: self.tried + 1,
                ..self
            }
        }
    }

    /// The retrieval after it has run to its end, where `answers[i]` is
    /// what the `i`-th address answers when it is asked.
    pub open spec fn run(self, answers: Seq<Option<DeviceDataView>>) -> RetrievalView
        recommends
            self.wf(),
            answers.len() == self.addresses.len(),
        decreases self.addresses.len() - self.tried,
    {
        if self.done() {
            self
        } else {
            self.respond(answers[self.tried as int]).run(answers)
        }
    }
}

/// A retrieval that has found nothing yet, with addresses before `first`
/// already asked, runs to the first usable answer, if there is one, and to
/// the last address otherwise.
proof fn lemma_run_to_first_usable(
    retrieval: RetrievalView,
    answers: Seq<Option<DeviceDataView>>,
    first: int,
)
    requires
        answers.len() == retrieval.addresses.len(),
        retrieval.data is None,
        retrieval.tried <= first <= answers.len(),
        forall|i: int| retrieval.tried <= i < first ==> !usable(#[trigger] answers[i]),
        first < answers.len() ==> usable(answers[first]),
    ensures
        ({
            let end = retrieval.run(answers);
            &&& end.done()
            &&& end.wf()
            &&& end.addresses.len() == retrieval.addresses.len()
            &&& end.data == if first < answers.len() {
                answers[first]
            } else {
                None
            }
            &&& end.tried == if first < answers.len() {
                first + 1
            } else {
                first
            }
            &&& forall|i: int|
                0 <= i < retrieval.tried ==> #[trigger] end.addresses[i] == retrieval.addresses[i]
            &&& forall|i: int|
                retrieval.tried <= i < first ==> #[trigger] end.addresses[i] == marked_unreachable(
                    retrieval.addresses[i],
                )
            &&& forall|i: int|
                first <= i < answers.len() ==> #[trigger] end.addresses[i]
                    == retrieval.addresses[i]
        }),
    decreases retrieval.addresses.len() - retrieval.tried,
{
    if !retrieval.done() {
        let next = retrieval.respond(answers[retrieval.tried as int]);
        if retrieval.tried < first {
            lemma_run_to_first_usable(next, answers, first);
        } else {
            assert(next.done());
        }
    }
}

/// Probing respects the order of the addresses.
///
/// Let the addresses before `first` answer with nothing usable and the
/// address at `first` with a usable manifest. Then the retrieval ends with
/// that manifest after it has asked the addresses up to `first` and no
/// other; the addresses before `first` are marked as unreachable; the
/// address at `first` and those after it are as they were. Where no address
/// answers with a usable manifest (`first` is the number of addresses),
/// every address has been asked and is marked as unreachable, and there is
/// no manifest.
pub proof fn lemma_probing_respects_order(
    addresses: Seq<DeviceAddressView>,
    answers: Seq<Option<DeviceDataView>>,
    first: int,
)
    requires
        answers.len() == addresses.len(),
        0 <= first <= answers.len(),
        forall|i: int| 0 <= i < first ==> !usable(#[trigger] answers[i]),
        first < answers.len() ==> usable(answers[first]),
    ensures
        ({
            let end = RetrievalView::start(addresses).run(answers);
            &&& end.done()
            &&& end.addresses.len() == addresses.len()
            &&& end.data == if first < answers.len() {
                answers[first]
            } else {
                None
            }
            &&& end.tried == if first < answers.len() {
                first + 1
            } else {
                first
            }
            &&& forall|i: int|
                0 <= i < first ==> #[trigger] end.addresses[i] == marked_unreachable(addresses[i])
            &&& forall|i: int|
                first <= i < answers.len() ==> #[trigger] end.addresses[i] == addresses[i]
        }),
{
    lemma_run_to_first_usable(RetrievalView::start(addresses), answers, first);
}

/// The retrieval of the manifest of one device.
#[derive(Debug)]
pub struct Retrieval {
    addresses: Vec<DeviceAddress>,
    tried: usize,
    data: Option<DeviceData>,
}

impl View for Retrieval {
    type V = RetrievalView;

    closed spec fn view(&self) -> RetrievalView {
        RetrievalView {
            addresses: self.addresses.deep_view(),
            tried: self.tried as nat,
            data: self.data.deep_view(),
        }
    }
}

impl Retrieval {
    /// The invariant of the retrieval: that of its value.
    pub open spec fn wf(&self) -> bool {
        self@.wf()
    }

    /// A retrieval over the addresses of a device, none of which has been
    /// asked.
    pub fn new(addresses: Vec<DeviceAddress>) -> (retrieval: Self)
        ensures
            retrieval@ == RetrievalView::start(addresses.deep_view()),
            retrieval.wf(),
    {
        Retrieval { addresses, tried: 0, data: None }
    }

    /// Whether the retrieval has ended.
    pub fn is_done(&self) -> (done: bool)
        ensures
            done == self@.done(),
    {
        self.data.is_some() || self.tried >= self.addresses.len()
    }

    /// How many addresses have been asked.
    pub fn tried(&self) -> (tried: usize)
        ensures
            tried == self@.tried,
    {
        self.tried
    }

    /// The request to send next, or nothing when the retrieval has ended.
    pub fn request(&self) -> (request: Option<&str>)
        ensures
            match request {
                Some(uri) => self@.request() == Some(uri@),
                None => self@.request() is None,
            },
    {
        if self.is_done() {
            None
        } else {
            Some(self.addresses[self.tried].request.as_str())
        }
    }

    /// Takes the answer of the address that was asked last: a manifest, or
    /// nothing where the request failed or what came back was no manifest.
    pub fn respond(&mut self, response: Option<DeviceData>)
        requires
            old(self).wf(),
        ensures
            final(self).wf(),
            final(self)@ == old(self)@.respond(response.deep_view()),
    {
        if self.is_done() {
            return ;
        }
        let found = match &response {
            Some(data) => data.is_valid(),
            None => false,
        };
        assert(self.addresses.deep_view().len() == self.addresses.len());
        let asked = self.tried + 1;
        if found {
            self.data = response;
        } else {
            let ghost before = self.addresses.deep_view();
            self.addresses[self.tried].recheable = false;
            proof {
                assert(self.addresses.deep_view() =~= before.update(
                    self.tried as int,
                    marked_unreachable(before[self.tried as int]),
                ));
            }
        }
        self.tried = asked;
    }

    /// Ends the retrieval: the addresses as the retrieval left them, and the
    /// manifest if one was found.
    pub fn finish(self) -> (end: (Vec<DeviceAddress>, Option<DeviceData>))
        ensures
            end.0.deep_view() == self@.addresses,
            end.1.deep_view() == self@.data,
    {
        (self.addresses, self.data)
    }
}

} // verus!
