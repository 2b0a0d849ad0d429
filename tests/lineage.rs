use kube_lineage::lineage::{
    is_candidate_generation, pods_controlled_by, resolve_live_pods, select_live_replicaset,
};
use kube_lineage::order::precedes;
use kube_lineage::ownership::{controller_owner_of_kind, is_controlled_by, OwnerLookup};
use kube_lineage::resolver::{Action, Event, Resolution};
use kube_lineage::template::{normalize, optional_templates_match, templates_equivalent};
use kube_lineage::{Deployment, ObjectMeta, OwnerReference, Pod, PodTemplate, ReplicaSet};

fn owner(kind: &str, name: &str, controller: bool) -> OwnerReference {
    OwnerReference {
        kind: kind.to_string(),
        name: name.to_string(),
        uid: format!("uid-{name}"),
        controller,
    }
}

fn meta(name: &str, ts: Option<i64>, owners: Vec<OwnerReference>) -> ObjectMeta {
    ObjectMeta {
        name: name.to_string(),
        namespace: Some("default".to_string()),
        creation_timestamp: ts,
        owner_references: owners,
    }
}

fn template(labels: &[(&str, &str)], spec: &str) -> PodTemplate {
    PodTemplate {
        labels: labels
            .iter()
            .map(|(k, v)| (k.to_string(), v.to_string()))
            .collect(),
        spec: spec.to_string(),
    }
}

fn web_deployment() -> Deployment {
    Deployment {
        metadata: meta("web", Some(100), vec![]),
        template: Some(template(&[("app", "web")], "{\"containers\":[\"nginx\"]}")),
    }
}

fn replicaset(name: &str, ts: Option<i64>, owner_name: &str, hash: &str, spec: &str) -> ReplicaSet {
    ReplicaSet {
        metadata: meta(name, ts, vec![owner("Deployment", owner_name, true)]),
        template: Some(template(&[("app", "web"), ("pod-template-hash", hash)], spec)),
    }
}

fn pod(name: &str, rs_name: &str) -> Pod {
    Pod {
        metadata: meta(name, Some(300), vec![owner("ReplicaSet", rs_name, true)]),
    }
}

const SPEC: &str = "{\"containers\":[\"nginx\"]}";

#[test]
fn hash_label_value_is_ignored() {
    let a = template(&[("app", "web"), ("pod-template-hash", "abc")], SPEC);
    let b = template(&[("pod-template-hash", "xyz"), ("app", "web")], SPEC);
    assert!(templates_equivalent(&a, &b));
    let c = template(&[("app", "web")], SPEC);
    assert!(templates_equivalent(&a, &c));
}

#[test]
fn other_label_difference_breaks_equivalence() {
    let a = template(&[("app", "web"), ("pod-template-hash", "abc")], SPEC);
    let b = template(&[("app", "api"), ("pod-template-hash", "abc")], SPEC);
    assert!(!templates_equivalent(&a, &b));
    let c = template(&[("app", "web"), ("tier", "front"), ("pod-template-hash", "abc")], SPEC);
    assert!(!templates_equivalent(&a, &c));
}

#[test]
fn payload_difference_breaks_equivalence() {
    let a = template(&[("app", "web")], SPEC);
    let b = template(&[("app", "web")], "{\"containers\":[\"httpd\"]}");
    assert!(!templates_equivalent(&a, &b));
}

#[test]
fn label_order_does_not_matter() {
    let a = template(&[("a", "1"), ("b", "2")], SPEC);
    let b = template(&[("b", "2"), ("a", "1")], SPEC);
    assert!(templates_equivalent(&a, &b));
}

#[test]
fn normalize_drops_only_the_hash_label() {
    let t = template(&[("app", "web"), ("pod-template-hash", "abc"), ("tier", "front")], SPEC);
    let n = normalize(&t);
    assert_eq!(n, template(&[("app", "web"), ("tier", "front")], SPEC));
}

#[test]
fn optional_templates() {
    let t = template(&[("app", "web")], SPEC);
    assert!(optional_templates_match(&None, &None));
    assert!(!optional_templates_match(&Some(t.clone()), &None));
    assert!(!optional_templates_match(&None, &Some(t.clone())));
    assert!(optional_templates_match(&Some(t.clone()), &Some(t)));
}

#[test]
fn non_controller_owner_does_not_control() {
    let parent = meta("web", None, vec![]);
    let child = meta("web-1", None, vec![owner("Deployment", "web", false)]);
    assert!(!is_controlled_by(&child, &"Deployment".to_string(), &parent));
    let child = meta("web-1", None, vec![owner("Deployment", "web", true)]);
    assert!(is_controlled_by(&child, &"Deployment".to_string(), &parent));
}

#[test]
fn control_needs_matching_kind_and_name() {
    let parent = meta("web", None, vec![]);
    let other_kind = meta("web-1", None, vec![owner("StatefulSet", "web", true)]);
    assert!(!is_controlled_by(&other_kind, &"Deployment".to_string(), &parent));
    let other_name = meta("web-1", None, vec![owner("Deployment", "api", true)]);
    assert!(!is_controlled_by(&other_name, &"Deployment".to_string(), &parent));
    let none = meta("web-1", None, vec![]);
    assert!(!is_controlled_by(&none, &"Deployment".to_string(), &parent));
}

#[test]
fn replicaset_controlled_by_deployment_kind() {
    let d = web_deployment();
    let rs = replicaset("web-1", Some(1), "web", "h1", SPEC);
    assert!(rs.is_controlled_by(&d));
    let mut wrong_kind = rs.clone();
    wrong_kind.metadata.owner_references = vec![owner("ReplicaSet", "web", true)];
    assert!(!wrong_kind.is_controlled_by(&d));
}

#[test]
fn pod_controlled_by_replicaset_kind() {
    let rs = replicaset("web-1", Some(1), "web", "h1", SPEC);
    assert!(pod("p", "web-1").is_controlled_by(&rs));
    let mut wrong_kind = pod("p", "web-1");
    wrong_kind.metadata.owner_references = vec![owner("Deployment", "web-1", true)];
    assert!(!wrong_kind.is_controlled_by(&rs));
}

#[test]
fn owner_lookup_finds_controller_of_kind() {
    let child = meta(
        "p",
        None,
        vec![
            owner("ReplicaSet", "not-controller", false),
            owner("Job", "j", true),
            owner("ReplicaSet", "web-1", true),
        ],
    );
    assert_eq!(
        controller_owner_of_kind(&child, &"ReplicaSet".to_string()),
        Some(OwnerLookup {
            name: "web-1".to_string(),
            namespace: Some("default".to_string()),
        })
    );
    assert_eq!(controller_owner_of_kind(&child, &"Deployment".to_string()), None);
}

#[test]
fn no_replicasets_gives_nothing() {
    let d = web_deployment();
    assert_eq!(resolve_live_pods(&d, &vec![], vec![pod("p", "web-1")]), None);
}

#[test]
fn pods_of_live_generation_only() {
    let d = web_deployment();
    let r = replicaset("web-1", Some(10), "web", "h1", SPEC);
    let unrelated = replicaset("api-1", Some(5), "api", "h9", SPEC);
    let pods = vec![pod("a", "web-1"), pod("x", "api-1"), pod("b", "web-1")];
    let got = resolve_live_pods(&d, &vec![unrelated, r], pods).unwrap();
    assert_eq!(got, vec![pod("a", "web-1"), pod("b", "web-1")]);
}

#[test]
fn live_generation_with_no_pods_is_empty() {
    let d = web_deployment();
    let r = replicaset("web-1", Some(10), "web", "h1", SPEC);
    assert_eq!(resolve_live_pods(&d, &vec![r], vec![pod("x", "other")]), Some(vec![]));
}

#[test]
fn no_matching_template_gives_nothing() {
    let d = web_deployment();
    let r = replicaset("web-1", Some(10), "web", "h1", "{\"containers\":[\"old\"]}");
    assert_eq!(resolve_live_pods(&d, &vec![r], vec![pod("a", "web-1")]), None);
}

#[test]
fn oldest_matching_generation_is_selected() {
    let d = web_deployment();
    let older = replicaset("web-b", Some(10), "web", "h1", SPEC);
    let newer = replicaset("web-a", Some(20), "web", "h2", SPEC);
    assert_eq!(select_live_replicaset(&d, &vec![newer.clone(), older.clone()]), Some(1));
    assert_eq!(select_live_replicaset(&d, &vec![older.clone(), newer.clone()]), Some(0));
    let pods = vec![pod("a", "web-a"), pod("b", "web-b")];
    assert_eq!(
        resolve_live_pods(&d, &vec![newer, older], pods),
        Some(vec![pod("b", "web-b")])
    );
}

#[test]
fn equal_timestamps_fall_back_to_name() {
    let d = web_deployment();
    let b = replicaset("web-b", Some(10), "web", "h1", SPEC);
    let a = replicaset("web-a", Some(10), "web", "h2", SPEC);
    assert_eq!(select_live_replicaset(&d, &vec![b, a]), Some(1));
}

#[test]
fn missing_timestamp_sorts_first() {
    let d = web_deployment();
    let dated = replicaset("web-a", Some(10), "web", "h1", SPEC);
    let undated = replicaset("web-z", None, "web", "h2", SPEC);
    assert_eq!(select_live_replicaset(&d, &vec![dated, undated]), Some(1));
}

#[test]
fn uncontrolled_replicaset_is_not_a_candidate() {
    let d = web_deployment();
    let mut r = replicaset("web-1", Some(10), "web", "h1", SPEC);
    r.metadata.owner_references[0].controller = false;
    assert!(!is_candidate_generation(&d, &r));
    assert_eq!(select_live_replicaset(&d, &vec![r]), None);
}

#[test]
fn creation_order() {
    let early = meta("b", Some(1), vec![]);
    let late = meta("a", Some(2), vec![]);
    assert!(precedes(&early, &late));
    assert!(!precedes(&late, &early));
    let x = meta("ab", Some(2), vec![]);
    let y = meta("abc", Some(2), vec![]);
    assert!(precedes(&x, &y));
    assert!(!precedes(&y, &x));
    assert!(!precedes(&x, &x));
}

#[test]
fn filter_keeps_order() {
    let rs = replicaset("web-1", Some(1), "web", "h1", SPEC);
    let pods = vec![pod("c", "web-1"), pod("x", "z"), pod("a", "web-1")];
    assert_eq!(
        pods_controlled_by(&rs, pods),
        vec![pod("c", "web-1"), pod("a", "web-1")]
    );
}

#[test]
fn repeated_resolution_is_identical() {
    let d = web_deployment();
    let rss = vec![replicaset("web-1", Some(10), "web", "h1", SPEC)];
    let pods = vec![pod("a", "web-1"), pod("b", "web-1"), pod("x", "other")];
    let first = resolve_live_pods(&d, &rss, pods.clone());
    let second = resolve_live_pods(&d, &rss, pods);
    assert_eq!(first, second);
}

#[test]
fn missing_deployment_stops_before_listing() {
    let (state, action) =
        Resolution::for_deployment_name("missing".to_string(), Some("ns".to_string()));
    assert!(matches!(
        action,
        Action::FetchDeployment { ref name, ref namespace }
            if name == "missing" && namespace.as_deref() == Some("ns")
    ));
    let (state, action) = state.step(Event::DeploymentFetched(None));
    assert!(matches!(state, Resolution::Finished));
    assert!(matches!(action, Action::Done(None)));
}

#[test]
fn full_resolution_by_name() {
    let (state, _) = Resolution::for_deployment_name("web".to_string(), Some("default".to_string()));
    let (state, action) = state.step(Event::DeploymentFetched(Some(web_deployment())));
    assert!(matches!(action, Action::ListReplicaSets { namespace: Some(ref ns) } if ns == "default"));
    let rss = vec![
        replicaset("web-2", Some(20), "web", "h2", "{\"containers\":[\"old\"]}"),
        replicaset("web-1", Some(10), "web", "h1", SPEC),
    ];
    let event = Event::ReplicaSetsListed(rss);
    assert!(state.is_answered_by(&event));
    let (state, action) = state.step(event);
    assert!(matches!(action, Action::ListPods { namespace: Some(ref ns) } if ns == "default"));
    assert!(!state.is_answered_by(&Event::DeploymentFetched(None)));
    let (state, action) = state.step(Event::PodsListed(vec![pod("a", "web-1"), pod("b", "web-2")]));
    assert!(matches!(state, Resolution::Finished));
    match action {
        Action::Done(Some(pods)) => assert_eq!(pods, vec![pod("a", "web-1")]),
        other => panic!("unexpected action {other:?}"),
    }
}

#[test]
fn no_live_generation_ends_resolution() {
    let (state, _) = Resolution::for_deployment(web_deployment());
    let (state, action) = state.step(Event::ReplicaSetsListed(vec![]));
    assert!(matches!(state, Resolution::Finished));
    assert!(matches!(action, Action::Done(None)));
}

