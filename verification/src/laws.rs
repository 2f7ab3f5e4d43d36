//! What holds of every inventory, proved from the definitions of
//! [`crate::normalize`] and [`crate::collect`].

use vstd::prelude::*;
use vstd::seq_lib::{lemma_flatten_concat, lemma_multiset_commutative};
use crate::collect::{
    collected,
    contribution,
    incidents_of,
    lemma_collected_push,
    recorded,
    records_of,
    reported,
    skips_before,
    IncidentView,
    NamespaceListingView,
};
use crate::normalize::{
    all_sound,
    container_defect,
    cpu_key,
    first_defect_at,
    first_defective,
    memory_key,
    normalized,
    outcome_of,
    phase_check,
    recordable,
    running_phase,
    sound_before,
    PodError,
    PodOutcomeView,
};
use crate::raw::{RawContainerView, RawPodView};
use crate::record::{MetadataView, PodComputeInfoView};

verus! {

/// The pod reports the running phase.
pub open spec fn is_running_pod(pod: RawPodView) -> bool {
    phase_check(pod) == Ok::<bool, PodError>(true)
}

/// How many pods of a listing report the running phase.
pub open spec fn running_count(pods: Seq<RawPodView>) -> nat
    decreases pods.len(),
{
    if pods.len() == 0 {
        0
    } else {
        running_count(pods.drop_last()) + if is_running_pod(pods.last()) {
            1nat
        } else {
            0nat
        }
    }
}

/// How many running pods the answer for one namespace shows: those of its
/// listing, and none where the query failed.
pub open spec fn running_in(listing: NamespaceListingView) -> nat {
    match listing.result {
        Ok(pods) => running_count(pods),
        Err(_) => 0,
    }
}

/// How many running pods the answers for several namespaces show together.
pub open spec fn running_total(listings: Seq<NamespaceListingView>) -> nat
    decreases listings.len(),
{
    if listings.len() == 0 {
        0
    } else {
        running_total(listings.drop_last()) + running_in(listings.last())
    }
}

/// How many pods of a listing report a phase other than the running phase.
pub open spec fn passed_over_count(pods: Seq<RawPodView>) -> nat
    decreases pods.len(),
{
    if pods.len() == 0 {
        0
    } else {
        passed_over_count(pods.drop_last()) + if outcome_of(pods.last()) is NotRunning {
            1nat
        } else {
            0nat
        }
    }
}

/// Every running pod among `pods` can be recorded.
pub open spec fn running_are_recordable(pods: Seq<RawPodView>) -> bool {
    forall|k: int| 0 <= k < pods.len() && is_running_pod(#[trigger] pods[k]) ==> recordable(pods[k])
}

/// Every running pod of every listing can be recorded.
pub open spec fn all_running_recordable(listings: Seq<NamespaceListingView>) -> bool {
    forall|j: int|
        0 <= j < listings.len() && (#[trigger] listings[j]).result is Ok ==> running_are_recordable(
            listings[j].result->Ok_0,
        )
}

/// `record` is the record of a running pod among `pods`.
pub open spec fn is_record_of_running_pod(pods: Seq<RawPodView>, record: PodComputeInfoView) -> bool {
    exists|k: int|
        0 <= k < pods.len() && is_running_pod(#[trigger] pods[k]) && normalized(pods[k]) == Ok::<
            PodComputeInfoView,
            PodError,
        >(record)
}

/// `record` is the record of a running pod of a listing whose query
/// succeeded.
pub open spec fn comes_from_running_pod(
    listings: Seq<NamespaceListingView>,
    record: PodComputeInfoView,
) -> bool {
    exists|j: int|
        0 <= j < listings.len() && (#[trigger] listings[j]).result is Ok && is_record_of_running_pod(
            listings[j].result->Ok_0,
            record,
        )
}

/// The container declares neither a CPU nor a memory request.
pub open spec fn lacks_both_requests(container: RawContainerView) -> bool {
    container.resources is Some && container.resources->0.requests is Some ==> !container.resources->0.requests->0.contains_key(
        cpu_key(),
    ) && !container.resources->0.requests->0.contains_key(memory_key())
}

/// A pod is running exactly where it has a status whose phase is the running
/// phase.
pub proof fn lemma_running_means_running_phase(pod: RawPodView)
    ensures
        is_running_pod(pod) <==> pod.status is Some && pod.status->0.phase == Some(running_phase()),
{
}

/// Normalizing succeeds exactly on the pods that can be recorded.
pub proof fn lemma_normalized_iff_recordable(pod: RawPodView)
    ensures
        normalized(pod) is Ok <==> recordable(pod),
{
}

/// A pod has a record only if it is running, and then its record is what
/// normalizing it gives.
pub proof fn lemma_recorded_pod_is_running(pod: RawPodView)
    ensures
        recorded(pod) is Some ==> is_running_pod(pod) && normalized(pod) == Ok::<
            PodComputeInfoView,
            PodError,
        >(recorded(pod)->0),
        !is_running_pod(pod) ==> recorded(pod) is None,
{
}

/// The records of two listings put end to end are the records of the first
/// followed by those of the second.
pub proof fn lemma_records_of_concat(first: Seq<RawPodView>, second: Seq<RawPodView>)
    ensures
        records_of(first + second) == records_of(first) + records_of(second),
    decreases second.len(),
{
    if second.len() == 0 {
        assert(first + second == first);
    } else {
        assert((first + second).drop_last() == first + second.drop_last());
        lemma_records_of_concat(first, second.drop_last());
    }
}

/// A listing has no more records than running pods, and as many where each of
/// its running pods can be recorded.
pub proof fn lemma_records_bounded(pods: Seq<RawPodView>)
    ensures
        records_of(pods).len() <= running_count(pods),
        running_are_recordable(pods) ==> records_of(pods).len() == running_count(pods),
    decreases pods.len(),
{
    if pods.len() > 0 {
        lemma_records_bounded(pods.drop_last());
        if running_are_recordable(pods) {
            assert forall|k: int|
                0 <= k < pods.drop_last().len() && is_running_pod(
                    #[trigger] pods.drop_last()[k],
                ) implies recordable(pods.drop_last()[k]) by {
                assert(pods.drop_last()[k] == pods[k]);
            }
            assert(pods.last() == pods[pods.len() - 1]);
        }
    }
}

/// For every set of answers, the empty one included, there are no more records
/// than the answers show running pods.
pub proof fn lemma_collected_bounded(listings: Seq<NamespaceListingView>)
    ensures
        collected(listings).len() <= running_total(listings),
        listings.len() == 0 ==> collected(listings) == Seq::<PodComputeInfoView>::empty(),
    decreases listings.len(),
{
    if listings.len() > 0 {
        let earlier = listings.drop_last();
        let last = listings.last();
        assert(listings == earlier.push(last));
        lemma_collected_bounded(earlier);
        lemma_collected_push(earlier, last);
        if last.result is Ok {
            lemma_records_bounded(last.result->Ok_0);
        }
    }
}

/// Where every running pod can be recorded, there are exactly as many records
/// as the successful queries show running pods.
pub proof fn lemma_collected_exact(listings: Seq<NamespaceListingView>)
    requires
        all_running_recordable(listings),
    ensures
        collected(listings).len() == running_total(listings),
    decreases listings.len(),
{
    if listings.len() > 0 {
        let earlier = listings.drop_last();
        let last = listings.last();
        assert(listings == earlier.push(last));
        assert forall|j: int|
            0 <= j < earlier.len() && (#[trigger] earlier[j]).result is Ok implies running_are_recordable(
            earlier[j].result->Ok_0,
        ) by {
            assert(earlier[j] == listings[j]);
        }
        lemma_collected_exact(earlier);
        lemma_collected_push(earlier, last);
        if last.result is Ok {
            assert(listings[listings.len() - 1] == last);
            lemma_records_bounded(last.result->Ok_0);
        }
    }
}

/// Every record of a listing is the record of one of its pods, and that pod
/// is running.
pub proof fn lemma_record_has_running_pod(pods: Seq<RawPodView>, at: int)
    requires
        0 <= at < records_of(pods).len(),
    ensures
        is_record_of_running_pod(pods, records_of(pods)[at]),
{
    let record = records_of(pods)[at];
    assert(records_of(pods).contains(record));
    pods.lemma_filter_map_contains(|pod: RawPodView| recorded(pod), record);
    let pod = choose|pod: RawPodView| #[trigger] pods.contains(pod) && recorded(pod) == Some(record);
    let k = choose|k: int| 0 <= k < pods.len() && pods[k] == pod;
    lemma_recorded_pod_is_running(pods[k]);
}

/// A pod that is not running never appears: every record that was collected
/// is the record of a running pod of a listing whose query succeeded.
pub proof fn lemma_collected_only_running(listings: Seq<NamespaceListingView>, at: int)
    requires
        0 <= at < collected(listings).len(),
    ensures
        comes_from_running_pod(listings, collected(listings)[at]),
    decreases listings.len(),
{
    assert(listings.len() > 0) by {
        lemma_collected_bounded(listings);
    }
    let earlier = listings.drop_last();
    let last = listings.last();
    assert(listings == earlier.push(last));
    lemma_collected_push(earlier, last);
    if at < collected(earlier).len() {
        lemma_collected_only_running(earlier, at);
        let j = choose|j: int|
            0 <= j < earlier.len() && (#[trigger] earlier[j]).result is Ok
                && is_record_of_running_pod(earlier[j].result->Ok_0, collected(earlier)[at]);
        assert(earlier[j] == listings[j]);
    } else {
        assert(last.result is Ok);
        lemma_record_has_running_pod(last.result->Ok_0, at - collected(earlier).len());
        assert(listings[listings.len() - 1] == last);
    }
}

/// Every pod of a listing is accounted for exactly once: it has a record, or
/// an incident says why it was skipped, or it is not running and is passed over.
pub proof fn lemma_every_pod_accounted(namespace: Seq<char>, pods: Seq<RawPodView>, count: nat)
    requires
        count <= pods.len(),
    ensures
        records_of(pods.take(count as int)).len() + skips_before(namespace, pods, count).len()
            + passed_over_count(pods.take(count as int)) == count,
    decreases count,
{
    if count > 0 {
        let shorter = (count - 1) as nat;
        lemma_every_pod_accounted(namespace, pods, shorter);
        pods.lemma_filter_map_take_succ(|pod: RawPodView| recorded(pod), shorter as int);
        assert(pods.take(count as int).drop_last() == pods.take(shorter as int));
        assert(pods.take(count as int).last() == pods[count - 1]);
    }
}

/// Every incident of a listing names the namespace of the listing and the
/// position of a pod in it, and that pod is skipped for the reason given.
pub proof fn lemma_skip_points_at_pod(
    namespace: Seq<char>,
    pods: Seq<RawPodView>,
    count: nat,
    at: int,
)
    requires
        count <= pods.len(),
        0 <= at < skips_before(namespace, pods, count).len(),
    ensures
        skips_before(namespace, pods, count)[at] is PodSkipped,
        skips_before(namespace, pods, count)[at]->PodSkipped_namespace == namespace,
        0 <= skips_before(namespace, pods, count)[at]->position < count,
        outcome_of(pods[skips_before(namespace, pods, count)[at]->position])
            == PodOutcomeView::Skipped(skips_before(namespace, pods, count)[at]->reason),
    decreases count,
{
    let shorter = (count - 1) as nat;
    if at < skips_before(namespace, pods, shorter).len() {
        lemma_skip_points_at_pod(namespace, pods, shorter, at);
    }
}

/// A namespace whose query failed adds no record, only the incident that
/// tells of the failure.
pub proof fn lemma_failed_query_adds_nothing(listing: NamespaceListingView)
    requires
        listing.result is Err,
    ensures
        contribution(listing) == Seq::<PodComputeInfoView>::empty(),
        incidents_of(listing) == seq![
            (IncidentView::QueryFailed {
                namespace: listing.namespace,
                message: listing.result->Err_0,
            }),
        ],
{
}

/// The records of several answers put end to end are the records of the
/// first part followed by those of the second.
pub proof fn lemma_collected_concat(
    first: Seq<NamespaceListingView>,
    second: Seq<NamespaceListingView>,
)
    ensures
        collected(first + second) == collected(first) + collected(second),
{
    let each = |l: NamespaceListingView| contribution(l);
    assert((first + second).map_values(each) == first.map_values(each) + second.map_values(each));
    lemma_flatten_concat(first.map_values(each), second.map_values(each));
}

/// The incidents of several answers put end to end are the incidents of the
/// first part followed by those of the second.
pub proof fn lemma_reported_concat(
    first: Seq<NamespaceListingView>,
    second: Seq<NamespaceListingView>,
)
    ensures
        reported(first + second) == reported(first) + reported(second),
{
    let each = |l: NamespaceListingView| incidents_of(l);
    assert((first + second).map_values(each) == first.map_values(each) + second.map_values(each));
    lemma_flatten_concat(first.map_values(each), second.map_values(each));
}

/// Namespaces do not touch each other: whatever one namespace answers, the
/// records of the namespaces around it are the same and stand where they
/// stood; and a namespace whose query failed might as well not have been asked.
pub proof fn lemma_namespaces_are_isolated(
    before: Seq<NamespaceListingView>,
    listing: NamespaceListingView,
    after: Seq<NamespaceListingView>,
)
    ensures
        collected(before.push(listing) + after) == collected(before) + contribution(listing)
            + collected(after),
        listing.result is Err ==> collected(before.push(listing) + after) == collected(
            before + after,
        ),
{
    lemma_collected_concat(before.push(listing), after);
    lemma_collected_push(before, listing);
    lemma_collected_concat(before, after);
    if listing.result is Err {
        assert(collected(before) + contribution(listing) == collected(before));
    }
}

/// The order in which the namespaces answer decides where the records stand,
/// not which records there are: answers taken in another order give the same
/// records, each as often.
pub proof fn lemma_order_of_answers_is_immaterial(
    before: Seq<NamespaceListingView>,
    first: Seq<NamespaceListingView>,
    second: Seq<NamespaceListingView>,
    after: Seq<NamespaceListingView>,
)
    ensures
        collected(before + first + second + after).to_multiset() == collected(
            before + second + first + after,
        ).to_multiset(),
{
    lemma_collected_concat(before + first + second, after);
    lemma_collected_concat(before + first, second);
    lemma_collected_concat(before, first);
    lemma_collected_concat(before + second + first, after);
    lemma_collected_concat(before + second, first);
    lemma_collected_concat(before, second);
    let b = collected(before);
    let f = collected(first);
    let s = collected(second);
    let a = collected(after);
    lemma_multiset_commutative(b + f + s, a);
    lemma_multiset_commutative(b + f, s);
    lemma_multiset_commutative(b, f);
    lemma_multiset_commutative(b + s + f, a);
    lemma_multiset_commutative(b + s, f);
    lemma_multiset_commutative(b, s);
    assert(b.to_multiset().add(f.to_multiset()).add(s.to_multiset()).add(a.to_multiset())
        =~= b.to_multiset().add(s.to_multiset()).add(f.to_multiset()).add(a.to_multiset()));
}

/// A pod without labels is recorded with an empty maintainer and with a
/// label map that is present and empty.
pub proof fn lemma_unlabelled_pod_defaults(pod: RawPodView)
    requires
        pod.labels is None,
        recordable(pod),
    ensures
        normalized(pod) is Ok,
        normalized(pod)->Ok_0.maintainer == Seq::<char>::empty(),
        normalized(pod)->Ok_0.metadata == Some(
            MetadataView { labels: Some(Map::<Seq<char>, Seq<char>>::empty()) },
        ),
{
}

/// A pod that is bound to no node is recorded with an empty node name.
pub proof fn lemma_unscheduled_pod_defaults(pod: RawPodView)
    requires
        recordable(pod),
        pod.spec->0.node_name is None,
    ensures
        normalized(pod) is Ok,
        normalized(pod)->Ok_0.node_name == Seq::<char>::empty(),
{
}

/// A record has one container for each container of the pod, in the same
/// order, and each carries the CPU and memory requests exactly as the pod
/// declares them.
pub proof fn lemma_requests_carried_verbatim(pod: RawPodView, index: int)
    requires
        recordable(pod),
        0 <= index < pod.spec->0.containers.len(),
    ensures
        normalized(pod) is Ok,
        normalized(pod)->Ok_0.containers.len() == pod.spec->0.containers.len(),
        normalized(pod)->Ok_0.containers[index].name == pod.spec->0.containers[index].name,
        normalized(pod)->Ok_0.containers[index].image == pod.spec->0.containers[index].image,
        pod.spec->0.containers[index].resources is Some,
        pod.spec->0.containers[index].resources->0.requests is Some,
        normalized(pod)->Ok_0.containers[index].compute_resources.requested_cpu
            == pod.spec->0.containers[index].resources->0.requests->0[cpu_key()],
        normalized(pod)->Ok_0.containers[index].compute_resources.requested_memory
            == pod.spec->0.containers[index].resources->0.requests->0[memory_key()],
{
    assert(container_defect(pod.spec->0.containers[index]) is None);
}

/// Where some container has a defect, there is a first one: the position that
/// the error of [`normalized`] names lies within the containers, holds a
/// defect, and has only sound containers before it.
pub proof fn lemma_first_defective_exists(containers: Seq<RawContainerView>)
    requires
        !all_sound(containers),
    ensures
        first_defect_at(containers, first_defective(containers)),
{
    lemma_defect_within(containers, containers.len() as int);
}

/// Where the first `count` containers are not all sound, one of them is the
/// first with a defect.
proof fn lemma_defect_within(containers: Seq<RawContainerView>, count: int)
    requires
        0 <= count <= containers.len(),
        !sound_before(containers, count),
    ensures
        exists|index: int| first_defect_at(containers, index),
    decreases count,
{
    if count > 0 {
        if sound_before(containers, count - 1) {
            assert(container_defect(containers[count - 1]) is Some);
            assert(first_defect_at(containers, count - 1));
        } else {
            lemma_defect_within(containers, count - 1);
        }
    }
}

/// A container that declares neither a CPU nor a memory request has a defect.
pub proof fn lemma_missing_requests_is_defect(container: RawContainerView)
    requires
        lacks_both_requests(container),
    ensures
        container_defect(container) is Some,
{
}

/// A pod with a container that has a defect is left out, and the pods before
/// and after it in the listing are recorded as if it had not been there.
pub proof fn lemma_defective_pod_left_out(
    before: Seq<RawPodView>,
    pod: RawPodView,
    after: Seq<RawPodView>,
    index: int,
)
    requires
        pod.spec is Some,
        0 <= index < pod.spec->0.containers.len(),
        container_defect(pod.spec->0.containers[index]) is Some,
    ensures
        normalized(pod) is Err,
        !(outcome_of(pod) is Recorded),
        records_of(before.push(pod) + after) == records_of(before) + records_of(after),
        records_of(before.push(pod) + after) == records_of(before + after),
{
    assert(!all_sound(pod.spec->0.containers));
    assert(recorded(pod) is None);
    lemma_records_of_concat(before.push(pod), after);
    lemma_records_of_concat(before, after);
    assert(before.push(pod).drop_last() == before);
}

} // verus!
