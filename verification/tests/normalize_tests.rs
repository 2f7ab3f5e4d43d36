use pod_inventory::normalize::{
    is_running, normalize, normalize_container, process, ContainerDefect, ErrorClass, PodError,
    PodOutcome,
};
use pod_inventory::raw::{RawContainer, RawPod, RawPodSpec, RawPodStatus, RawResources};
use pod_inventory::string_map::StringMap;

fn owned(s: &str) -> String {
    s.to_string()
}

fn map_from(pairs: &[(&str, &str)]) -> StringMap {
    let mut map = StringMap::new();
    for (key, value) in pairs {
        map.insert(owned(key), owned(value));
    }
    map
}

fn container_with(name: &str, image: Option<&str>, requests: &[(&str, &str)]) -> RawContainer {
    RawContainer {
        name: owned(name),
        image: image.map(owned),
        resources: Some(RawResources { requests: Some(map_from(requests)) }),
    }
}

fn pod_with(containers: Vec<RawContainer>) -> RawPod {
    RawPod {
        name: Some(owned("web-0")),
        namespace: Some(owned("prod")),
        labels: Some(map_from(&[("maintainer", "team-a"), ("app", "web")])),
        spec: Some(RawPodSpec { node_name: Some(owned("node-1")), containers }),
        status: Some(RawPodStatus { phase: Some(owned("Running")) }),
    }
}

fn sound_container(name: &str) -> RawContainer {
    container_with(name, Some("nginx:1.25"), &[("cpu", "500m"), ("memory", "256Mi")])
}

#[test]
fn requests_are_carried_verbatim() {
    let pod = pod_with(vec![sound_container("main")]);
    let record = normalize(&pod).unwrap();
    assert_eq!(record.containers.len(), 1);
    assert_eq!(record.containers[0].compute_resources.requested_cpu.0, "500m");
    assert_eq!(record.containers[0].compute_resources.requested_memory.0, "256Mi");
}

#[test]
fn requests_are_not_mixed_up_or_rewritten() {
    let pod = pod_with(vec![container_with(
        "main",
        None,
        &[("memory", "1Gi"), ("ephemeral-storage", "2Gi"), ("cpu", "0.5")],
    )]);
    let record = normalize(&pod).unwrap();
    assert_eq!(record.containers[0].compute_resources.requested_cpu.0, "0.5");
    assert_eq!(record.containers[0].compute_resources.requested_memory.0, "1Gi");
}

#[test]
fn record_carries_identity_node_and_maintainer() {
    let pod = pod_with(vec![sound_container("main")]);
    let record = normalize(&pod).unwrap();
    assert_eq!(record.name, "web-0");
    assert_eq!(record.namespace, "prod");
    assert_eq!(record.node_name, "node-1");
    assert_eq!(record.maintainer, "team-a");
    let labels = record.metadata.unwrap().labels.unwrap();
    assert_eq!(labels.len(), 2);
    assert_eq!(labels.get(&owned("maintainer")), Some(&owned("team-a")));
    assert_eq!(labels.get(&owned("app")), Some(&owned("web")));
}

#[test]
fn pod_without_labels_has_empty_maintainer_and_empty_label_map() {
    let mut pod = pod_with(vec![sound_container("main")]);
    pod.labels = None;
    let record = normalize(&pod).unwrap();
    assert_eq!(record.maintainer, "");
    let metadata = record.metadata.expect("metadata is present");
    let labels = metadata.labels.expect("the label map is present");
    assert_eq!(labels.len(), 0);
    assert!(labels.is_empty());
}

#[test]
fn pod_without_maintainer_label_has_empty_maintainer() {
    let mut pod = pod_with(vec![sound_container("main")]);
    pod.labels = Some(map_from(&[("app", "web")]));
    let record = normalize(&pod).unwrap();
    assert_eq!(record.maintainer, "");
    let labels = record.metadata.unwrap().labels.unwrap();
    assert_eq!(labels.len(), 1);
    assert_eq!(labels.get(&owned("app")), Some(&owned("web")));
}

#[test]
fn unscheduled_pod_has_empty_node_name() {
    let mut pod = pod_with(vec![sound_container("main")]);
    pod.spec.as_mut().unwrap().node_name = None;
    let record = normalize(&pod).unwrap();
    assert_eq!(record.node_name, "");
}

#[test]
fn containers_keep_their_order_names_and_images() {
    let pod = pod_with(vec![
        container_with("first", Some("a:1"), &[("cpu", "1"), ("memory", "1Mi")]),
        container_with("second", None, &[("cpu", "2"), ("memory", "2Mi")]),
        container_with("third", Some("c:3"), &[("cpu", "3"), ("memory", "3Mi")]),
    ]);
    let record = normalize(&pod).unwrap();
    let names: Vec<&str> = record.containers.iter().map(|c| c.name.as_str()).collect();
    assert_eq!(names, vec!["first", "second", "third"]);
    assert_eq!(record.containers[0].image, Some(owned("a:1")));
    assert_eq!(record.containers[1].image, None);
    assert_eq!(record.containers[2].image, Some(owned("c:3")));
    assert_eq!(record.containers[1].compute_resources.requested_cpu.0, "2");
    assert_eq!(record.containers[2].compute_resources.requested_memory.0, "3Mi");
}

#[test]
fn pod_without_containers_is_recorded_with_none() {
    let pod = pod_with(vec![]);
    let record = normalize(&pod).unwrap();
    assert!(record.containers.is_empty());
}

#[test]
fn normalize_does_not_look_at_the_phase() {
    let mut pod = pod_with(vec![sound_container("main")]);
    pod.status = None;
    assert!(normalize(&pod).is_ok());
}

#[test]
fn missing_spec_is_an_error() {
    let mut pod = pod_with(vec![]);
    pod.spec = None;
    assert_eq!(normalize(&pod).unwrap_err(), PodError::MissingSpec);
}

#[test]
fn missing_name_is_an_error() {
    let mut pod = pod_with(vec![sound_container("main")]);
    pod.name = None;
    assert_eq!(normalize(&pod).unwrap_err(), PodError::MissingName);
}

#[test]
fn missing_namespace_is_an_error() {
    let mut pod = pod_with(vec![sound_container("main")]);
    pod.namespace = None;
    assert_eq!(normalize(&pod).unwrap_err(), PodError::MissingNamespace);
}

#[test]
fn missing_name_comes_before_missing_namespace() {
    let mut pod = pod_with(vec![sound_container("main")]);
    pod.name = None;
    pod.namespace = None;
    assert_eq!(normalize(&pod).unwrap_err(), PodError::MissingName);
}

#[test]
fn container_without_resources_is_a_defect() {
    let mut container = sound_container("main");
    container.resources = None;
    assert_eq!(normalize_container(&container).unwrap_err(), ContainerDefect::MissingResources);
    let pod = pod_with(vec![container]);
    assert_eq!(
        normalize(&pod).unwrap_err(),
        PodError::Container { index: 0, defect: ContainerDefect::MissingResources }
    );
}

#[test]
fn container_without_requests_is_a_defect() {
    let mut container = sound_container("main");
    container.resources = Some(RawResources { requests: None });
    assert_eq!(normalize_container(&container).unwrap_err(), ContainerDefect::MissingRequests);
}

#[test]
fn container_missing_both_requests_reports_cpu_first() {
    let container = container_with("main", None, &[]);
    assert_eq!(normalize_container(&container).unwrap_err(), ContainerDefect::MissingCpuRequest);
    let other = container_with("main", None, &[("ephemeral-storage", "1Gi")]);
    assert_eq!(normalize_container(&other).unwrap_err(), ContainerDefect::MissingCpuRequest);
}

#[test]
fn container_without_cpu_request_is_a_defect() {
    let container = container_with("main", None, &[("memory", "256Mi")]);
    assert_eq!(normalize_container(&container).unwrap_err(), ContainerDefect::MissingCpuRequest);
}

#[test]
fn container_without_memory_request_is_a_defect() {
    let container = container_with("main", None, &[("cpu", "500m")]);
    assert_eq!(
        normalize_container(&container).unwrap_err(),
        ContainerDefect::MissingMemoryRequest
    );
}

#[test]
fn limits_do_not_stand_in_for_requests() {
    let container = container_with("main", None, &[("Cpu", "1"), ("MEMORY", "1Gi")]);
    assert_eq!(normalize_container(&container).unwrap_err(), ContainerDefect::MissingCpuRequest);
}

#[test]
fn sound_container_is_recorded() {
    let record = normalize_container(&sound_container("main")).unwrap();
    assert_eq!(record.name, "main");
    assert_eq!(record.image, Some(owned("nginx:1.25")));
    assert_eq!(record.compute_resources.requested_cpu.0, "500m");
    assert_eq!(record.compute_resources.requested_memory.0, "256Mi");
}

#[test]
fn error_names_the_first_defective_container() {
    let pod = pod_with(vec![
        sound_container("a"),
        container_with("b", None, &[("cpu", "1")]),
        container_with("c", None, &[]),
    ]);
    assert_eq!(
        normalize(&pod).unwrap_err(),
        PodError::Container { index: 1, defect: ContainerDefect::MissingMemoryRequest }
    );
}

#[test]
fn container_defect_comes_before_missing_name() {
    let mut pod = pod_with(vec![sound_container("a"), container_with("b", None, &[])]);
    pod.name = None;
    pod.namespace = None;
    assert_eq!(
        normalize(&pod).unwrap_err(),
        PodError::Container { index: 1, defect: ContainerDefect::MissingCpuRequest }
    );
}

#[test]
fn missing_spec_comes_before_missing_name() {
    let mut pod = pod_with(vec![]);
    pod.spec = None;
    pod.name = None;
    assert_eq!(normalize(&pod).unwrap_err(), PodError::MissingSpec);
}

#[test]
fn phase_running_is_running() {
    let pod = pod_with(vec![]);
    assert_eq!(is_running(&pod), Ok(true));
}

#[test]
fn other_phases_are_not_running() {
    for phase in ["Pending", "Succeeded", "Failed", "Unknown", "running", "Running ", ""] {
        let mut pod = pod_with(vec![]);
        pod.status = Some(RawPodStatus { phase: Some(owned(phase)) });
        assert_eq!(is_running(&pod), Ok(false), "phase {:?}", phase);
    }
}

#[test]
fn missing_status_is_an_error() {
    let mut pod = pod_with(vec![]);
    pod.status = None;
    assert_eq!(is_running(&pod), Err(PodError::MissingStatus));
}

#[test]
fn missing_phase_is_an_error() {
    let mut pod = pod_with(vec![]);
    pod.status = Some(RawPodStatus { phase: None });
    assert_eq!(is_running(&pod), Err(PodError::MissingPhase));
}

#[test]
fn process_records_a_running_pod() {
    let pod = pod_with(vec![sound_container("main")]);
    match process(&pod) {
        PodOutcome::Recorded(record) => {
            assert_eq!(record.name, "web-0");
            assert_eq!(record.containers.len(), 1);
        }
        other => panic!("expected a record, got {:?}", other),
    }
}

#[test]
fn process_passes_over_a_pending_pod() {
    let mut pod = pod_with(vec![container_with("main", None, &[])]);
    pod.status = Some(RawPodStatus { phase: Some(owned("Pending")) });
    pod.name = None;
    assert!(matches!(process(&pod), PodOutcome::NotRunning));
}

#[test]
fn process_skips_a_pod_without_phase() {
    let mut pod = pod_with(vec![sound_container("main")]);
    pod.status = Some(RawPodStatus { phase: None });
    assert!(matches!(process(&pod), PodOutcome::Skipped(PodError::MissingPhase)));
    pod.status = None;
    assert!(matches!(process(&pod), PodOutcome::Skipped(PodError::MissingStatus)));
}

#[test]
fn process_skips_a_running_pod_with_a_defective_container() {
    let pod = pod_with(vec![container_with("main", None, &[])]);
    assert!(matches!(
        process(&pod),
        PodOutcome::Skipped(PodError::Container {
            index: 0,
            defect: ContainerDefect::MissingCpuRequest
        })
    ));
}

#[test]
fn only_missing_identity_breaks_an_invariant() {
    assert_eq!(PodError::MissingName.class(), ErrorClass::Invariant);
    assert_eq!(PodError::MissingNamespace.class(), ErrorClass::Invariant);
    assert_eq!(PodError::MissingStatus.class(), ErrorClass::Recoverable);
    assert_eq!(PodError::MissingPhase.class(), ErrorClass::Recoverable);
    assert_eq!(PodError::MissingSpec.class(), ErrorClass::Recoverable);
    for defect in [
        ContainerDefect::MissingResources,
        ContainerDefect::MissingRequests,
        ContainerDefect::MissingCpuRequest,
        ContainerDefect::MissingMemoryRequest,
    ] {
        assert_eq!(PodError::Container { index: 3, defect }.class(), ErrorClass::Recoverable);
    }
}

#[test]
fn cloned_pod_normalizes_to_the_same_record() {
    let pod = pod_with(vec![sound_container("a"), sound_container("b")]);
    let mut copy = pod.clone();
    let first = normalize(&pod).unwrap();
    let second = normalize(&copy).unwrap();
    assert_eq!(first.name, second.name);
    assert_eq!(first.namespace, second.namespace);
    assert_eq!(first.node_name, second.node_name);
    assert_eq!(first.maintainer, second.maintainer);
    assert_eq!(second.containers.len(), 2);
    assert_eq!(second.containers[1].name, "b");
    assert_eq!(second.containers[1].compute_resources.requested_cpu.0, "500m");
    copy.name = None;
    copy.spec.as_mut().unwrap().containers.clear();
    assert_eq!(normalize(&pod).unwrap().containers.len(), 2);
    assert_eq!(normalize(&copy).unwrap_err(), PodError::MissingName);
}

#[test]
fn cloned_record_holds_the_same_values() {
    let pod = pod_with(vec![sound_container("a"), container_with("b", None, &[("cpu", "2"), ("memory", "64Mi")])]);
    let record = normalize(&pod).unwrap();
    let mut copy = record.clone();
    assert_eq!(copy.name, "web-0");
    assert_eq!(copy.namespace, "prod");
    assert_eq!(copy.node_name, "node-1");
    assert_eq!(copy.maintainer, "team-a");
    assert_eq!(copy.containers.len(), 2);
    assert_eq!(copy.containers[0].image, Some(owned("nginx:1.25")));
    assert_eq!(copy.containers[1].image, None);
    assert_eq!(copy.containers[1].compute_resources.requested_cpu.0, "2");
    assert_eq!(copy.containers[1].compute_resources.requested_memory.0, "64Mi");
    let labels = copy.metadata.as_ref().unwrap().labels.as_ref().unwrap();
    assert_eq!(labels.len(), 2);
    assert_eq!(labels.get(&owned("app")), Some(&owned("web")));
    copy.containers.clear();
    copy.maintainer = owned("other");
    assert_eq!(record.containers.len(), 2);
    assert_eq!(record.maintainer, "team-a");
}
