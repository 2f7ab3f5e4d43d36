//! The records of the inventory: one per running pod, with the requests of
//! each of its containers.

use vstd::prelude::*;
use crate::string_map::StringMap;
use crate::text::{clone_map, clone_text, map_view, text_view};

verus! {

/// An amount of a resource as the cluster writes it: a magnitude with a unit,
/// such as `500m` or `256Mi`. The text is carried as it is.
#[derive(Debug)]
pub struct Quantity(pub String);

impl View for Quantity {
    type V = Seq<char>;

    open spec fn view(&self) -> Seq<char> {
        self.0@
    }
}

/// What a container asks the scheduler to reserve.
#[derive(Debug)]
pub struct ComputeResources {
    pub requested_cpu: Quantity,
    pub requested_memory: Quantity,
}

/// One container of a recorded pod.
#[derive(Debug)]
pub struct Container {
    pub name: String,
    pub image: Option<String>,
    pub compute_resources: ComputeResources,
}

/// The labels of a recorded pod.
#[derive(Debug)]
pub struct Metadata {
    pub labels: Option<StringMap>,
}

/// The record of one running pod.
#[derive(Debug)]
pub struct PodComputeInfo {
    pub name: String,
    pub namespace: String,
    /// The node that the pod runs on; empty while it is unscheduled.
    pub node_name: String,
    /// The value of the `maintainer` label; empty where the pod has none.
    pub maintainer: String,
    /// The containers in the order in which the pod declares them.
    pub containers: Vec<Container>,
    pub metadata: Option<Metadata>,
}

/// What a [`ComputeResources`] holds, as mathematical values.
pub struct ComputeResourcesView {
    pub requested_cpu: Seq<char>,
    pub requested_memory: Seq<char>,
}

/// What a [`Container`] holds, as mathematical values.
pub struct ContainerView {
    pub name: Seq<char>,
    pub image: Option<Seq<char>>,
    pub compute_resources: ComputeResourcesView,
}

/// What a [`Metadata`] holds, as mathematical values.
pub struct MetadataView {
    pub labels: Option<Map<Seq<char>, Seq<char>>>,
}

/// What a [`PodComputeInfo`] holds, as mathematical values.
pub struct PodComputeInfoView {
    pub name: Seq<char>,
    pub namespace: Seq<char>,
    pub node_name: Seq<char>,
    pub maintainer: Seq<char>,
    pub containers: Seq<ContainerView>,
    pub metadata: Option<MetadataView>,
}

impl View for ComputeResources {
    type V = ComputeResourcesView;

    open spec fn view(&self) -> ComputeResourcesView {
        ComputeResourcesView {
            requested_cpu: self.requested_cpu@,
            requested_memory: self.requested_memory@,
        }
    }
}

impl View for Container {
    type V = ContainerView;

    open spec fn view(&self) -> ContainerView {
        ContainerView {
            name: self.name@,
            image: text_view(self.image),
            compute_resources: self.compute_resources@,
        }
    }
}

impl View for Metadata {
    type V = MetadataView;

    open spec fn view(&self) -> MetadataView {
        MetadataView { labels: map_view(self.labels) }
    }
}

/// The views of a list of recorded containers, position by position.
pub open spec fn containers_view(containers: Seq<Container>) -> Seq<ContainerView> {
    containers.map_values(|c: Container| c@)
}

impl View for PodComputeInfo {
    type V = PodComputeInfoView;

    open spec fn view(&self) -> PodComputeInfoView {
        PodComputeInfoView {
            name: self.name@,
            namespace: self.namespace@,
            node_name: self.node_name@,
            maintainer: self.maintainer@,
            containers: containers_view(self.containers@),
            metadata: match self.metadata {
                Some(m) => Some(m@),
                None => None,
            },
        }
    }
}

/// The views of a list of records, position by position.
pub open spec fn records_view(records: Seq<PodComputeInfo>) -> Seq<PodComputeInfoView> {
    records.map_values(|r: PodComputeInfo| r@)
}

impl Clone for Quantity {
    fn clone(&self) -> (copy: Quantity)
        ensures
            copy@ == self@,
    {
        Quantity(self.0.clone())
    }
}

impl Clone for ComputeResources {
    fn clone(&self) -> (copy: ComputeResources)
        ensures
            copy@ == self@,
    {
        ComputeResources {
            requested_cpu: self.requested_cpu.clone(),
            requested_memory: self.requested_memory.clone(),
        }
    }
}

impl Clone for Container {
    fn clone(&self) -> (copy: Container)
        ensures
            copy@ == self@,
    {
        Container {
            name: self.name.clone(),
            image: clone_text(&self.image),
            compute_resources: self.compute_resources.clone(),
        }
    }
}

impl Clone for Metadata {
    fn clone(&self) -> (copy: Metadata)
        ensures
            copy@ == self@,
    {
        Metadata { labels: clone_map(&self.labels) }
    }
}

impl Clone for PodComputeInfo {
    fn clone(&self) -> (copy: PodComputeInfo)
        ensures
            copy@ == self@,
    {
        let mut containers: Vec<Container> = Vec::new();
        let mut at: usize = 0;
        while at < self.containers.len()
            invariant
                at <= self.containers@.len(),
                containers@.len() == at,
                forall|i: int| 0 <= i < at ==> (#[trigger] containers@[i])@ == self.containers@[i]@,
            decreases self.containers@.len() - at,
        {
            containers.push(self.containers[at].clone());
            at += 1;
        }
        assert(containers_view(containers@) == containers_view(self.containers@));
        PodComputeInfo {
            name: self.name.clone(),
            namespace: self.namespace.clone(),
            node_name: self.node_name.clone(),
            maintainer: self.maintainer.clone(),
            containers,
            metadata: match &self.metadata {
                Some(metadata) => Some(metadata.clone()),
                None => None,
            },
        }
    }
}

} // verus!
