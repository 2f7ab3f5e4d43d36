//! From one pod of a listing to its record, or to the reason why it has none.
//!
//! A field that the cluster may leave out is never taken for granted: a
//! missing node, label map or maintainer label has a default; any other
//! missing field ends the pod with a [`PodError`] and touches no other pod.

use vstd::prelude::*;
use crate::raw::{RawContainer, RawContainerView, RawPod, RawPodView};
use crate::record::{
    ComputeResources,
    ComputeResourcesView,
    Container,
    ContainerView,
    Metadata,
    MetadataView,
    PodComputeInfo,
    PodComputeInfoView,
    Quantity,
};
use crate::string_map::StringMap;
use crate::text::clone_text;

verus! {

/// What keeps a container from being recorded.
#[derive(Clone, Copy, Debug, PartialEq, Eq, Structural)]
pub enum ContainerDefect {
    /// The container declares no resources at all.
    MissingResources,
    /// The container declares resources, but no requests among them.
    MissingRequests,
    /// The requests name no amount of CPU.
    MissingCpuRequest,
    /// The requests name no amount of memory.
    MissingMemoryRequest,
}

/// Why a pod of a listing has no record.
#[derive(Clone, Copy, Debug, PartialEq, Eq, Structural)]
pub enum PodError {
    /// The pod carries no status.
    MissingStatus,
    /// The status names no phase.
    MissingPhase,
    /// The pod carries no pod spec.
    MissingSpec,
    /// The container at `index` is the first that cannot be recorded.
    Container { index: usize, defect: ContainerDefect },
    /// The pod carries no name.
    MissingName,
    /// The pod carries no namespace.
    MissingNamespace,
}

/// How a missing field is to be taken.
#[derive(Clone, Copy, Debug, PartialEq, Eq, Structural)]
pub enum ErrorClass {
    /// The cluster guarantees the field on every object it returns: its
    /// absence is a broken invariant, not an event of normal operation.
    Invariant,
    /// The field may be missing in normal operation: the pod is left out and
    /// the work goes on.
    Recoverable,
}

impl PodError {
    /// The class of this error: a missing name or namespace breaks an
    /// invariant of the cluster, every other error is recoverable.
    pub open spec fn class_of(self) -> ErrorClass {
        match self {
            PodError::MissingName | PodError::MissingNamespace => ErrorClass::Invariant,
            _ => ErrorClass::Recoverable,
        }
    }

    /// The class of this error.
    pub fn class(&self) -> (class: ErrorClass)
        ensures
            class == self.class_of(),
    {
        match self {
            PodError::MissingName => ErrorClass::Invariant,
            PodError::MissingNamespace => ErrorClass::Invariant,
            _ => ErrorClass::Recoverable,
        }
    }
}

/// The phase that a pod must report to be part of the inventory.
pub open spec fn running_phase() -> Seq<char> {
    "Running"@
}

/// The label that names who maintains a pod.
pub open spec fn maintainer_key() -> Seq<char> {
    "maintainer"@
}

/// The name of the CPU resource among a container's requests.
pub open spec fn cpu_key() -> Seq<char> {
    "cpu"@
}

/// The name of the memory resource among a container's requests.
pub open spec fn memory_key() -> Seq<char> {
    "memory"@
}

/// Whether the pod is running: `Ok(true)` exactly where its status names the
/// running phase, `Ok(false)` where it names another, and an error where the
/// status or the phase is missing.
pub open spec fn phase_check(pod: RawPodView) -> Result<bool, PodError> {
    match pod.status {
        None => Err(PodError::MissingStatus),
        Some(status) => match status.phase {
            None => Err(PodError::MissingPhase),
            Some(phase) => Ok(phase == running_phase()),
        },
    }
}

/// The first thing that a container lacks, if it lacks anything: resources,
/// then requests among them, then the CPU request, then the memory request.
pub open spec fn container_defect(container: RawContainerView) -> Option<ContainerDefect> {
    match container.resources {
        None => Some(ContainerDefect::MissingResources),
        Some(resources) => match resources.requests {
            None => Some(ContainerDefect::MissingRequests),
            Some(requests) => if !requests.contains_key(cpu_key()) {
                Some(ContainerDefect::MissingCpuRequest)
            } else if !requests.contains_key(memory_key()) {
                Some(ContainerDefect::MissingMemoryRequest)
            } else {
                None
            },
        },
    }
}

/// The record of a container without defect: its name and image, and its CPU
/// and memory requests as they were declared.
pub open spec fn container_record(container: RawContainerView) -> ContainerView
    recommends
        container_defect(container) is None,
{
    ContainerView {
        name: container.name,
        image: container.image,
        compute_resources: ComputeResourcesView {
            requested_cpu: container.resources->0.requests->0[cpu_key()],
            requested_memory: container.resources->0.requests->0[memory_key()],
        },
    }
}

/// The first `count` containers are without defect.
pub open spec fn sound_before(containers: Seq<RawContainerView>, count: int) -> bool {
    forall|j: int| 0 <= j < count ==> container_defect(#[trigger] containers[j]) is None
}

/// All containers are without defect.
pub open spec fn all_sound(containers: Seq<RawContainerView>) -> bool {
    sound_before(containers, containers.len() as int)
}

/// The container at `index` has a defect and none before it has one.
pub open spec fn first_defect_at(containers: Seq<RawContainerView>, index: int) -> bool {
    &&& 0 <= index < containers.len()
    &&& container_defect(containers[index]) is Some
    &&& sound_before(containers, index)
}

/// The position of the first container with a defect.
pub open spec fn first_defective(containers: Seq<RawContainerView>) -> int
    recommends
        !all_sound(containers),
{
    choose|index: int| first_defect_at(containers, index)
}

/// The labels of a pod; the empty map where it carries none.
pub open spec fn labels_of(pod: RawPodView) -> Map<Seq<char>, Seq<char>> {
    match pod.labels {
        Some(labels) => labels,
        None => Map::empty(),
    }
}

/// The value of the maintainer label; empty where the label is absent.
pub open spec fn maintainer_of(labels: Map<Seq<char>, Seq<char>>) -> Seq<char> {
    if labels.contains_key(maintainer_key()) {
        labels[maintainer_key()]
    } else {
        Seq::empty()
    }
}

/// The node of a pod; empty where the pod is bound to none.
pub open spec fn node_of(node_name: Option<Seq<char>>) -> Seq<char> {
    match node_name {
        Some(node) => node,
        None => Seq::empty(),
    }
}

/// The pod can be recorded: it has a name, a namespace and a pod spec, and each
/// of its containers declares a CPU and a memory request.
pub open spec fn recordable(pod: RawPodView) -> bool {
    &&& pod.name is Some
    &&& pod.namespace is Some
    &&& pod.spec is Some
    &&& all_sound(pod.spec->0.containers)
}

/// The record of a pod that can be recorded.
pub open spec fn record_of(pod: RawPodView) -> PodComputeInfoView
    recommends
        recordable(pod),
{
    PodComputeInfoView {
        name: pod.name->0,
        namespace: pod.namespace->0,
        node_name: node_of(pod.spec->0.node_name),
        maintainer: maintainer_of(labels_of(pod)),
        containers: pod.spec->0.containers.map_values(|c: RawContainerView| container_record(c)),
        metadata: Some(MetadataView { labels: Some(labels_of(pod)) }),
    }
}

/// What normalizing a pod gives: its record, or the first field found
/// missing, looked for in this order: the pod spec, the requests of each
/// container in turn, the name, the namespace.
pub open spec fn normalized(pod: RawPodView) -> Result<PodComputeInfoView, PodError> {
    match pod.spec {
        None => Err(PodError::MissingSpec),
        Some(spec) => if !all_sound(spec.containers) {
            let index = first_defective(spec.containers);
            Err(
                PodError::Container {
                    index: index as usize,
                    defect: container_defect(spec.containers[index])->0,
                },
            )
        } else if pod.name is None {
            Err(PodError::MissingName)
        } else if pod.namespace is None {
            Err(PodError::MissingNamespace)
        } else {
            Ok(record_of(pod))
        },
    }
}

/// What becomes of one pod of a listing.
#[derive(Debug)]
pub enum PodOutcome {
    /// The pod reports a phase other than the running phase: it is passed over.
    NotRunning,
    /// The pod is left out for the reason given.
    Skipped(PodError),
    /// The pod is running and has this record.
    Recorded(PodComputeInfo),
}

/// What a [`PodOutcome`] holds, as mathematical values.
pub enum PodOutcomeView {
    NotRunning,
    Skipped(PodError),
    Recorded(PodComputeInfoView),
}

impl View for PodOutcome {
    type V = PodOutcomeView;

    open spec fn view(&self) -> PodOutcomeView {
        match self {
            PodOutcome::NotRunning => PodOutcomeView::NotRunning,
            PodOutcome::Skipped(error) => PodOutcomeView::Skipped(*error),
            PodOutcome::Recorded(record) => PodOutcomeView::Recorded(record@),
        }
    }
}

/// What becomes of a pod: one whose phase cannot be read is skipped, one that
/// is not running is passed over, and a running one is recorded or skipped as
/// [`normalized`] says.
pub open spec fn outcome_of(pod: RawPodView) -> PodOutcomeView {
    match phase_check(pod) {
        Err(error) => PodOutcomeView::Skipped(error),
        Ok(false) => PodOutcomeView::NotRunning,
        Ok(true) => match normalized(pod) {
            Ok(record) => PodOutcomeView::Recorded(record),
            Err(error) => PodOutcomeView::Skipped(error),
        },
    }
}

/// A defect found behind a sound prefix is the first defect, and no other
/// position is.
pub proof fn lemma_first_defect_is_unique(containers: Seq<RawContainerView>, index: int)
    requires
        first_defect_at(containers, index),
    ensures
        !all_sound(containers),
        first_defective(containers) == index,
{
    let chosen = first_defective(containers);
    assert(first_defect_at(containers, chosen));
    if chosen < index {
        assert(container_defect(containers[chosen]) is None);
    }
    if index < chosen {
        assert(container_defect(containers[index]) is None);
    }
}

/// Reads the phase of a pod.
pub fn is_running(pod: &RawPod) -> (result: Result<bool, PodError>)
    ensures
        result == phase_check(pod@),
{
    match &pod.status {
        None => Err(PodError::MissingStatus),
        Some(status) => match &status.phase {
            None => Err(PodError::MissingPhase),
            Some(phase) => {
                let running = "Running".to_string();
                Ok(*phase == running)
            },
        },
    }
}

/// Records one container, with its requests as they were declared.
pub fn normalize_container(container: &RawContainer) -> (result: Result<
    Container,
    ContainerDefect,
>)
    ensures
        match result {
            Ok(record) => container_defect(container@) is None && record@ == container_record(
                container@,
            ),
            Err(defect) => container_defect(container@) == Some(defect),
        },
{
    let resources = match &container.resources {
        Some(resources) => resources,
        None => {
            return Err(ContainerDefect::MissingResources);
        },
    };
    let requests = match &resources.requests {
        Some(requests) => requests,
        None => {
            return Err(ContainerDefect::MissingRequests);
        },
    };
    let cpu_key = "cpu".to_string();
    let requested_cpu = match requests.get(&cpu_key) {
        Some(amount) => Quantity(amount.clone()),
        None => {
            return Err(ContainerDefect::MissingCpuRequest);
        },
    };
    let memory_key = "memory".to_string();
    let requested_memory = match requests.get(&memory_key) {
        Some(amount) => Quantity(amount.clone()),
        None => {
            return Err(ContainerDefect::MissingMemoryRequest);
        },
    };
    Ok(
        Container {
            name: container.name.clone(),
            image: clone_text(&container.image),
            compute_resources: ComputeResources { requested_cpu, requested_memory },
        },
    )
}

/// Normalizes a pod that the phase filter has let through: gives its record,
/// or the first field found missing.
///
/// A pod without labels is recorded with an empty maintainer and with a label
/// map that is present and empty.
pub fn normalize(pod: &RawPod) -> (result: Result<PodComputeInfo, PodError>)
    ensures
        match result {
            Ok(record) => normalized(pod@) == Ok::<PodComputeInfoView, PodError>(record@),
            Err(error) => normalized(pod@) == Err::<PodComputeInfoView, PodError>(error),
        },
        result is Ok <==> recordable(pod@),
        result is Ok && pod@.labels is None ==> result->Ok_0@.maintainer == Seq::<char>::empty()
            && result->Ok_0@.metadata == Some(
            MetadataView { labels: Some(Map::<Seq<char>, Seq<char>>::empty()) },
        ),
{
    let labels = match &pod.labels {
        Some(labels) => labels.clone(),
        None => StringMap::new(),
    };
    let maintainer_key = "maintainer".to_string();
    let maintainer = match labels.get(&maintainer_key) {
        Some(maintainer) => maintainer.clone(),
        None => String::new(),
    };
    let spec = match &pod.spec {
        Some(spec) => spec,
        None => {
            return Err(PodError::MissingSpec);
        },
    };
    let node_name = match &spec.node_name {
        Some(node) => node.clone(),
        None => String::new(),
    };
    let ghost raw = pod@.spec->0.containers;
    let mut containers: Vec<Container> = Vec::new();
    let mut index: usize = 0;
    while index < spec.containers.len()
        invariant
            pod@.spec is Some,
            raw == pod@.spec->0.containers,
            raw == crate::raw::containers_view(spec.containers@),
            index <= spec.containers@.len(),
            sound_before(raw, index as int),
            containers@.len() == index,
            forall|j: int|
                0 <= j < index ==> (#[trigger] containers@[j])@ == container_record(raw[j]),
        decreases spec.containers@.len() - index,
    {
        match normalize_container(&spec.containers[index]) {
            Ok(container) => {
                containers.push(container);
            },
            Err(defect) => {
                proof {
                    lemma_first_defect_is_unique(raw, index as int);
                }
                return Err(PodError::Container { index, defect });
            },
        }
        index += 1;
    }
    let name = match &pod.name {
        Some(name) => name.clone(),
        None => {
            return Err(PodError::MissingName);
        },
    };
    let namespace = match &pod.namespace {
        Some(namespace) => namespace.clone(),
        None => {
            return Err(PodError::MissingNamespace);
        },
    };
    let record = PodComputeInfo {
        name,
        namespace,
        node_name,
        maintainer,
        containers,
        metadata: Some(Metadata { labels: Some(labels) }),
    };
    proof {
        assert(record@.containers =~= record_of(pod@).containers);
    }
    Ok(record)
}

/// Decides what becomes of one pod of a listing.
pub fn process(pod: &RawPod) -> (outcome: PodOutcome)
    ensures
        outcome@ == outcome_of(pod@),
{
    match is_running(pod) {
        Err(error) => PodOutcome::Skipped(error),
        Ok(false) => PodOutcome::NotRunning,
        Ok(true) => match normalize(pod) {
            Ok(record) => PodOutcome::Recorded(record),
            Err(error) => PodOutcome::Skipped(error),
        },
    }
}

} // verus!
