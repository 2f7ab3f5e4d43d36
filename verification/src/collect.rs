//! Merging the listings of several namespaces into one inventory.
//!
//! Each namespace is listed on its own and its listing, or the failure of its
//! query, is absorbed into the inventory as one contiguous batch. A failed query
//! and a pod that cannot be recorded leave an [`Incident`] behind and touch
//! nothing else.

use vstd::prelude::*;
use crate::laws::{
    comes_from_running_pod,
    lemma_collected_bounded,
    lemma_collected_only_running,
    running_total,
};
use crate::normalize::{outcome_of, process, ErrorClass, PodError, PodOutcome, PodOutcomeView};
use crate::raw::{pods_view, RawPod, RawPodView};
use crate::record::{records_view, PodComputeInfo, PodComputeInfoView};

verus! {

/// Why the query for a namespace gave no listing.
#[derive(Debug)]
pub struct QueryError {
    pub message: String,
}

/// The answer to the query for one namespace.
#[derive(Debug)]
pub struct NamespaceListing {
    /// The namespace that was asked for.
    pub namespace: String,
    /// The pods of the namespace, or the failure of the query.
    pub result: Result<Vec<RawPod>, QueryError>,
}

/// What a [`NamespaceListing`] holds, as mathematical values.
pub struct NamespaceListingView {
    pub namespace: Seq<char>,
    pub result: Result<Seq<RawPodView>, Seq<char>>,
}

impl View for NamespaceListing {
    type V = NamespaceListingView;

    open spec fn view(&self) -> NamespaceListingView {
        NamespaceListingView {
            namespace: self.namespace@,
            result: match self.result {
                Ok(pods) => Ok(pods_view(pods@)),
                Err(error) => Err(error.message@),
            },
        }
    }
}

/// The views of a list of listings, position by position.
pub open spec fn listings_view(listings: Seq<NamespaceListing>) -> Seq<NamespaceListingView> {
    listings.map_values(|l: NamespaceListing| l@)
}

/// Something that kept pods out of the inventory, to be logged.
#[derive(Debug)]
pub enum Incident {
    /// The query for `namespace` failed: none of its pods are in the inventory.
    QueryFailed { namespace: String, message: String },
    /// The pod at `position` of the listing of `namespace` was left out.
    PodSkipped { namespace: String, position: usize, reason: PodError },
}

/// What an [`Incident`] holds, as mathematical values.
pub enum IncidentView {
    QueryFailed { namespace: Seq<char>, message: Seq<char> },
    PodSkipped { namespace: Seq<char>, position: int, reason: PodError },
}

impl View for Incident {
    type V = IncidentView;

    open spec fn view(&self) -> IncidentView {
        match self {
            Incident::QueryFailed { namespace, message } => IncidentView::QueryFailed {
                namespace: namespace@,
                message: message@,
            },
            Incident::PodSkipped { namespace, position, reason } => IncidentView::PodSkipped {
                namespace: namespace@,
                position: *position as int,
                reason: *reason,
            },
        }
    }
}

/// The incident reports a pod that lacks a field which the cluster
/// guarantees: the listing itself is not to be trusted.
pub open spec fn breaks_invariant(incident: IncidentView) -> bool {
    match incident {
        IncidentView::PodSkipped { reason, .. } => reason.class_of() == ErrorClass::Invariant,
        IncidentView::QueryFailed { .. } => false,
    }
}

impl Incident {
    /// Whether this incident reports a broken invariant of the cluster.
    pub fn is_invariant_break(&self) -> (broken: bool)
        ensures
            broken == breaks_invariant(self@),
    {
        match self {
            Incident::PodSkipped { reason, .. } => reason.class() == ErrorClass::Invariant,
            Incident::QueryFailed { .. } => false,
        }
    }
}

/// The views of a list of incidents, position by position.
pub open spec fn incidents_view(incidents: Seq<Incident>) -> Seq<IncidentView> {
    incidents.map_values(|i: Incident| i@)
}

/// The record of a pod, where it has one.
pub open spec fn recorded(pod: RawPodView) -> Option<PodComputeInfoView> {
    match outcome_of(pod) {
        PodOutcomeView::Recorded(record) => Some(record),
        _ => None,
    }
}

/// The records of the pods of one listing, in the order of the listing.
pub open spec fn records_of(pods: Seq<RawPodView>) -> Seq<PodComputeInfoView> {
    pods.filter_map(|pod: RawPodView| recorded(pod))
}

/// The incidents of the first `count` pods of a listing: one for each pod that
/// was skipped, with its position, in the order of the listing.
pub open spec fn skips_before(namespace: Seq<char>, pods: Seq<RawPodView>, count: nat) -> Seq<
    IncidentView,
>
    decreases count,
{
    if count == 0 {
        Seq::empty()
    } else {
        let earlier = skips_before(namespace, pods, (count - 1) as nat);
        match outcome_of(pods[count - 1]) {
            PodOutcomeView::Skipped(reason) => earlier.push(
                IncidentView::PodSkipped { namespace, position: count - 1, reason },
            ),
            _ => earlier,
        }
    }
}

/// What one listing adds to the records: the records of its pods, or nothing
/// where the query failed.
pub open spec fn contribution(listing: NamespaceListingView) -> Seq<PodComputeInfoView> {
    match listing.result {
        Ok(pods) => records_of(pods),
        Err(_) => Seq::empty(),
    }
}

/// What one listing adds to the incidents: one for each skipped pod, or the
/// failure of the query.
pub open spec fn incidents_of(listing: NamespaceListingView) -> Seq<IncidentView> {
    match listing.result {
        Ok(pods) => skips_before(listing.namespace, pods, pods.len()),
        Err(message) => seq![IncidentView::QueryFailed { namespace: listing.namespace, message }],
    }
}

/// The records of several listings: the contribution of each, one after the
/// other in the order of the listings.
pub open spec fn collected(listings: Seq<NamespaceListingView>) -> Seq<PodComputeInfoView> {
    listings.map_values(|l: NamespaceListingView| contribution(l)).flatten()
}

/// The incidents of several listings, in the order of the listings.
pub open spec fn reported(listings: Seq<NamespaceListingView>) -> Seq<IncidentView> {
    listings.map_values(|l: NamespaceListingView| incidents_of(l)).flatten()
}

/// The records gathered so far, with the incidents to log.
#[derive(Debug)]
pub struct Inventory {
    /// One record for each running pod that could be recorded.
    pub records: Vec<PodComputeInfo>,
    /// What kept other pods out.
    pub incidents: Vec<Incident>,
}

/// What an [`Inventory`] holds, as mathematical values.
pub struct InventoryView {
    pub records: Seq<PodComputeInfoView>,
    pub incidents: Seq<IncidentView>,
}

impl View for Inventory {
    type V = InventoryView;

    open spec fn view(&self) -> InventoryView {
        InventoryView {
            records: records_view(self.records@),
            incidents: incidents_view(self.incidents@),
        }
    }
}

impl Inventory {
    /// The inventory of no namespace at all.
    pub fn new() -> (inventory: Inventory)
        ensures
            inventory@.records == Seq::<PodComputeInfoView>::empty(),
            inventory@.incidents == Seq::<IncidentView>::empty(),
    {
        Inventory { records: Vec::new(), incidents: Vec::new() }
    }

    /// The position of the first incident that reports a broken invariant of
    /// the cluster, if there is one.
    pub fn first_invariant_break(&self) -> (found: Option<usize>)
        ensures
            match found {
                Some(at) => {
                    &&& at < self@.incidents.len()
                    &&& breaks_invariant(self@.incidents[at as int])
                    &&& forall|i: int| 0 <= i < at ==> !breaks_invariant(#[trigger] self@.incidents[i])
                },
                None => forall|i: int|
                    0 <= i < self@.incidents.len() ==> !breaks_invariant(
                        #[trigger] self@.incidents[i],
                    ),
            },
    {
        let mut at: usize = 0;
        while at < self.incidents.len()
            invariant
                at <= self.incidents@.len(),
                forall|i: int| 0 <= i < at ==> !breaks_invariant(#[trigger] self@.incidents[i]),
            decreases self.incidents@.len() - at,
        {
            if self.incidents[at].is_invariant_break() {
                return Some(at);
            }
            at += 1;
        }
        None
    }

    /// Takes in the answer for one namespace. The records and incidents held
    /// before stay as they are; those of the listing follow them.
    pub fn absorb(&mut self, listing: &NamespaceListing)
        ensures
            final(self)@.records == old(self)@.records + contribution(listing@),
            final(self)@.incidents == old(self)@.incidents + incidents_of(listing@),
    {
        let ghost held = self@;
        match &listing.result {
            Err(error) => {
                self.incidents.push(
                    Incident::QueryFailed {
                        namespace: listing.namespace.clone(),
                        message: error.message.clone(),
                    },
                );
            },
            Ok(pods) => {
                let ghost raw = pods_view(pods@);
                let ghost namespace = listing.namespace@;
                let mut position: usize = 0;
                while position < pods.len()
                    invariant
                        raw == pods_view(pods@),
                        namespace == listing.namespace@,
                        position <= pods@.len(),
                        self@.records == held.records + records_of(raw.take(position as int)),
                        self@.incidents == held.incidents + skips_before(
                            namespace,
                            raw,
                            position as nat,
                        ),
                    decreases pods@.len() - position,
                {
                    let ghost records = self@.records;
                    let ghost incidents = self@.incidents;
                    proof {
                        raw.lemma_filter_map_take_succ(
                            |pod: RawPodView| recorded(pod),
                            position as int,
                        );
                    }
                    match process(&pods[position]) {
                        PodOutcome::NotRunning => {},
                        PodOutcome::Skipped(reason) => {
                            self.incidents.push(
                                Incident::PodSkipped {
                                    namespace: listing.namespace.clone(),
                                    position,
                                    reason,
                                },
                            );
                            assert(self@.incidents == incidents.push(
                                IncidentView::PodSkipped {
                                    namespace,
                                    position: position as int,
                                    reason,
                                },
                            ));
                        },
                        PodOutcome::Recorded(record) => {
                            let ghost added = record@;
                            self.records.push(record);
                            assert(self@.records == records.push(added));
                        },
                    }
                    position += 1;
                }
                assert(raw.take(pods@.len() as int) == raw);
            },
        }
    }
}

/// Merges the answers for several namespaces into one inventory: the records
/// of each listing in the order of the listings, and the incidents likewise.
///
/// There are never more records than the listings show running pods, and
/// every record is that of a running pod of a listing whose query succeeded.
pub fn collect(listings: &Vec<NamespaceListing>) -> (inventory: Inventory)
    ensures
        inventory@.records == collected(listings_view(listings@)),
        inventory@.incidents == reported(listings_view(listings@)),
        inventory@.records.len() <= running_total(listings_view(listings@)),
        forall|at: int|
            0 <= at < inventory@.records.len() ==> comes_from_running_pod(
                listings_view(listings@),
                #[trigger] inventory@.records[at],
            ),
{
    let ghost all = listings_view(listings@);
    let mut inventory = Inventory::new();
    let mut index: usize = 0;
    while index < listings.len()
        invariant
            all == listings_view(listings@),
            index <= listings@.len(),
            inventory@.records == collected(all.take(index as int)),
            inventory@.incidents == reported(all.take(index as int)),
        decreases listings@.len() - index,
    {
        proof {
            lemma_collected_push(all.take(index as int), all[index as int]);
            assert(all.take(index as int).push(all[index as int]) == all.take(index + 1));
        }
        inventory.absorb(&listings[index]);
        index += 1;
    }
    assert(all.take(listings@.len() as int) == all);
    proof {
        lemma_collected_bounded(all);
        assert forall|at: int| 0 <= at < inventory@.records.len() implies comes_from_running_pod(
            all,
            #[trigger] inventory@.records[at],
        ) by {
            lemma_collected_only_running(all, at);
        }
    }
    inventory
}

/// One more listing adds its contribution behind what was collected before.
pub proof fn lemma_collected_push(listings: Seq<NamespaceListingView>, last: NamespaceListingView)
    ensures
        collected(listings.push(last)) == collected(listings) + contribution(last),
        reported(listings.push(last)) == reported(listings) + incidents_of(last),
{
    let records = |l: NamespaceListingView| contribution(l);
    let incidents = |l: NamespaceListingView| incidents_of(l);
    assert(listings.push(last).map_values(records) == listings.map_values(records).push(
        contribution(last),
    ));
    assert(listings.push(last).map_values(incidents) == listings.map_values(incidents).push(
        incidents_of(last),
    ));
    listings.map_values(records).lemma_flatten_push(contribution(last));
    listings.map_values(incidents).lemma_flatten_push(incidents_of(last));
}

} // verus!
