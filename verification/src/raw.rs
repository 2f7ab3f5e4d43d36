//! Pods as the cluster reports them, reduced to the fields that the inventory
//! reads. Every field that the cluster may leave out is an `Option`.

use vstd::prelude::*;
use crate::string_map::StringMap;
use crate::text::{clone_map, clone_text, map_view, text_view};

verus! {

/// The resource requirements that a container declares.
#[derive(Debug)]
pub struct RawResources {
    /// The requested amount of each resource, by resource name.
    pub requests: Option<StringMap>,
}

/// One container that a pod declares.
#[derive(Debug)]
pub struct RawContainer {
    pub name: String,
    pub image: Option<String>,
    pub resources: Option<RawResources>,
}

/// The pod spec: where the pod is scheduled and what it runs.
#[derive(Debug)]
pub struct RawPodSpec {
    /// The node that the pod is bound to; `None` while it is unscheduled.
    pub node_name: Option<String>,
    /// The declared containers, in the order in which the pod declares them.
    pub containers: Vec<RawContainer>,
}

/// The last reported status of a pod.
#[derive(Debug)]
pub struct RawPodStatus {
    /// The lifecycle phase, such as `Pending` or `Running`.
    pub phase: Option<String>,
}

/// One pod of a namespace listing.
#[derive(Debug)]
pub struct RawPod {
    pub name: Option<String>,
    pub namespace: Option<String>,
    pub labels: Option<StringMap>,
    pub spec: Option<RawPodSpec>,
    pub status: Option<RawPodStatus>,
}

/// What a [`RawResources`] holds, as mathematical values.
pub struct RawResourcesView {
    pub requests: Option<Map<Seq<char>, Seq<char>>>,
}

/// What a [`RawContainer`] holds, as mathematical values.
pub struct RawContainerView {
    pub name: Seq<char>,
    pub image: Option<Seq<char>>,
    pub resources: Option<RawResourcesView>,
}

/// What a [`RawPodSpec`] holds, as mathematical values.
pub struct RawPodSpecView {
    pub node_name: Option<Seq<char>>,
    pub containers: Seq<RawContainerView>,
}

/// What a [`RawPodStatus`] holds, as mathematical values.
pub struct RawPodStatusView {
    pub phase: Option<Seq<char>>,
}

/// What a [`RawPod`] holds, as mathematical values.
pub struct RawPodView {
    pub name: Option<Seq<char>>,
    pub namespace: Option<Seq<char>>,
    pub labels: Option<Map<Seq<char>, Seq<char>>>,
    pub spec: Option<RawPodSpecView>,
    pub status: Option<RawPodStatusView>,
}

impl View for RawResources {
    type V = RawResourcesView;

    open spec fn view(&self) -> RawResourcesView {
        RawResourcesView { requests: map_view(self.requests) }
    }
}

impl View for RawContainer {
    type V = RawContainerView;

    open spec fn view(&self) -> RawContainerView {
        RawContainerView {
            name: self.name@,
            image: text_view(self.image),
            resources: match self.resources {
                Some(r) => Some(r@),
                None => None,
            },
        }
    }
}

/// The views of a list of containers, position by position.
pub open spec fn containers_view(containers: Seq<RawContainer>) -> Seq<RawContainerView> {
    containers.map_values(|c: RawContainer| c@)
}

impl View for RawPodSpec {
    type V = RawPodSpecView;

    open spec fn view(&self) -> RawPodSpecView {
        RawPodSpecView {
            node_name: text_view(self.node_name),
            containers: containers_view(self.containers@),
        }
    }
}

impl View for RawPodStatus {
    type V = RawPodStatusView;

    open spec fn view(&self) -> RawPodStatusView {
        RawPodStatusView { phase: text_view(self.phase) }
    }
}

impl View for RawPod {
    type V = RawPodView;

    open spec fn view(&self) -> RawPodView {
        RawPodView {
            name: text_view(self.name),
            namespace: text_view(self.namespace),
            labels: map_view(self.labels),
            spec: match self.spec {
                Some(s) => Some(s@),
                None => None,
            },
            status: match self.status {
                Some(s) => Some(s@),
                None => None,
            },
        }
    }
}

/// The views of a list of pods, position by position.
pub open spec fn pods_view(pods: Seq<RawPod>) -> Seq<RawPodView> {
    pods.map_values(|p: RawPod| p@)
}

impl Clone for RawResources {
    fn clone(&self) -> (copy: RawResources)
        ensures
            copy@ == self@,
    {
        RawResources { requests: clone_map(&self.requests) }
    }
}

impl Clone for RawContainer {
    fn clone(&self) -> (copy: RawContainer)
        ensures
            copy@ == self@,
    {
        RawContainer {
            name: self.name.clone(),
            image: clone_text(&self.image),
            resources: match &self.resources {
                Some(resources) => Some(resources.clone()),
                None => None,
            },
        }
    }
}

impl Clone for RawPodSpec {
    fn clone(&self) -> (copy: RawPodSpec)
        ensures
            copy@ == self@,
    {
        let mut containers: Vec<RawContainer> = Vec::new();
        let mut at: usize = 0;
        while at < self.containers.len()
            invariant
                at <= self.containers@.len(),
                containers@.len() == at,
                forall|i: int| 0 <= i < at ==> (#[trigger] containers@[i])@ == self.containers@[i]@,
            decreases self.containers@.len() - at,
        {
            containers.push(self.containers[at].clone());
            at += 1;
        }
        assert(containers_view(containers@) == containers_view(self.containers@));
        RawPodSpec { node_name: clone_text(&self.node_name), containers }
    }
}

impl Clone for RawPodStatus {
    fn clone(&self) -> (copy: RawPodStatus)
        ensures
            copy@ == self@,
    {
        RawPodStatus { phase: clone_text(&self.phase) }
    }
}

impl Clone for RawPod {
    fn clone(&self) -> (copy: RawPod)
        ensures
            copy@ == self@,
    {
        RawPod {
            name: clone_text(&self.name),
            namespace: clone_text(&self.namespace),
            labels: clone_map(&self.labels),
            spec: match &self.spec {
                Some(spec) => Some(spec.clone()),
                None => None,
            },
            status: match &self.status {
                Some(status) => Some(status.clone()),
                None => None,
            },
        }
    }
}

} // verus!
