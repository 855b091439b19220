use preempt_k8s::labels::Labels;
use preempt_k8s::rtresource::{
    is_progressing, mark_replicas_observed, mark_spec_changed, replicas_observed_status,
    spec_changed_status, Condition, RTResource, RTResourceSpec, RTResourceStatus, ResourceMeta,
    Selector, Template, TemplateMeta,
};
use preempt_k8s::scheduling::{
    assign_node, classify_fetch_error, create_pod, scale_plan, scheduler, FetchOutcome, ScalePlan,
};
use preempt_k8s::state_updater::{after_list_attempt, count_running, processing_order};

fn labels(pairs: &[(&str, &str)]) -> Labels {
    let mut l = Labels::new();
    for (k, v) in pairs {
        l.insert(k.to_string(), v.to_string());
    }
    l
}

fn resource(replicas: i32, criticality: u32) -> RTResource {
    RTResource {
        metadata: ResourceMeta {
            name: Some("svc".to_string()),
            namespace: Some("ns".to_string()),
            uid: Some("uid-1".to_string()),
            generation: Some(4),
        },
        spec: RTResourceSpec {
            namespace: "ns".to_string(),
            replicas,
            selector: Some(Selector {
                match_labels: Some(labels(&[("app", "svc"), ("tier", "rt")])),
                match_expressions: None,
            }),
            criticality,
            template: Template {
                metadata: Some(TemplateMeta {
                    labels: Some(labels(&[("app", "template"), ("team", "a")])),
                    annotations: Some(labels(&[("note", "x")])),
                }),
            },
        },
        status: None,
    }
}

fn find<'a>(conds: &'a [Condition], ty: &str) -> &'a Condition {
    conds.iter().find(|c| c.condition_type == ty).unwrap()
}

#[test]
fn not_found_is_recognised() {
    assert_eq!(
        classify_fetch_error("ApiError: \"rtresources not found\": NotFound (ErrorResponse { code: 404 })"),
        FetchOutcome::NotFound
    );
    assert_eq!(classify_fetch_error("connection refused"), FetchOutcome::Failed);
    assert_eq!(classify_fetch_error("40"), FetchOutcome::Failed);
    assert_eq!(classify_fetch_error("code 403"), FetchOutcome::Failed);
}

#[test]
fn scale_up_from_nothing() {
    assert_eq!(scale_plan(3, 0), ScalePlan { create: 3, delete: 0 });
}

#[test]
fn scale_up_by_two() {
    assert_eq!(scale_plan(5, 3), ScalePlan { create: 2, delete: 0 });
}

#[test]
fn scale_down_to_one() {
    assert_eq!(scale_plan(1, 5), ScalePlan { create: 0, delete: 4 });
}

#[test]
fn scale_steady() {
    assert_eq!(scale_plan(4, 4), ScalePlan { create: 0, delete: 0 });
}

#[test]
fn negative_replicas_delete_everything() {
    assert_eq!(scale_plan(-2, 3), ScalePlan { create: 0, delete: 3 });
}

#[test]
fn deleted_resource_loses_all_pods() {
    assert_eq!(scale_plan(0, 3), ScalePlan { create: 0, delete: 3 });
}

#[test]
fn second_plan_after_first_is_empty() {
    let p = scale_plan(5, 2);
    let after = 2 + p.create - p.delete;
    assert_eq!(scale_plan(5, after), ScalePlan { create: 0, delete: 0 });
}

#[test]
fn pod_for_resource() {
    let r = resource(3, 2);
    let pod = create_pod(&r, 1700000000123).unwrap();
    assert_eq!(pod.name, "svc-1700000000123");
    assert_eq!(pod.namespace, "ns");
    let get = |k: &str| pod.labels.get(&k.to_string());
    assert_eq!(get("app").as_deref(), Some("svc"));
    assert_eq!(get("team").as_deref(), Some("a"));
    assert_eq!(get("tier").as_deref(), Some("rt"));
    assert_eq!(get("rtresource_id").as_deref(), Some("uid-1"));
    assert_eq!(get("rtresource_uid").as_deref(), Some("uid-1"));
    assert_eq!(get("rtresource_name").as_deref(), Some("svc"));
    assert_eq!(get("rtresource_namespace").as_deref(), Some("ns"));
    assert_eq!(get("criticality").as_deref(), Some("2"));
    assert_eq!(pod.labels.len(), 8);
    let ann = pod.annotations.as_ref().unwrap();
    assert_eq!(ann.get(&"note".to_string()).as_deref(), Some("x"));
    assert!(pod.node_name.is_none());
}

#[test]
fn pod_without_template_metadata() {
    let mut r = resource(1, 17);
    r.spec.template = Template { metadata: None };
    r.spec.selector = None;
    r.metadata.uid = None;
    let pod = create_pod(&r, 5).unwrap();
    assert_eq!(pod.name, "svc-5");
    assert!(pod.annotations.is_none());
    assert_eq!(pod.labels.len(), 5);
    assert_eq!(pod.labels.get(&"rtresource_id".to_string()).as_deref(), Some(""));
    assert_eq!(pod.labels.get(&"criticality".to_string()).as_deref(), Some("17"));
}

#[test]
fn pod_needs_a_resource_name() {
    let mut r = resource(1, 0);
    r.metadata.name = None;
    assert!(create_pod(&r, 5).is_none());
}

#[test]
fn node_assignment() {
    let r = resource(1, 0);
    let pod = assign_node(create_pod(&r, 1).unwrap(), 3);
    assert_eq!(pod.node_name.as_deref(), Some("orionw3"));
    let pod = assign_node(pod, 9);
    assert_eq!(pod.node_name.as_deref(), Some("orionw1"));
}

#[test]
fn scheduler_picks_a_known_node() {
    let r = resource(1, 0);
    for _ in 0..20 {
        let pod = scheduler(create_pod(&r, 1).unwrap());
        let node = pod.node_name.clone().unwrap();
        assert!(["orionw1", "orionw2", "orionw3", "orionw4"].contains(&node.as_str()));
        assert_eq!(pod.name, "svc-1");
    }
}

#[test]
fn scheduler_spreads_over_nodes() {
    let r = resource(1, 0);
    let mut seen = std::collections::BTreeSet::new();
    for _ in 0..200 {
        let pod = scheduler(create_pod(&r, 1).unwrap());
        seen.insert(pod.node_name.unwrap());
    }
    assert!(seen.len() > 1);
}

#[test]
fn spec_change_sets_conditions() {
    let now = "2024-01-01T00:00:00+00:00".to_string();
    let s = spec_changed_status(&None, Some(4), 3, &now);
    assert_eq!(s.observed_generation, Some(4));
    assert_eq!(s.desired_replicas, Some(3));
    assert_eq!(s.replicas, None);
    let conds = s.conditions.clone().unwrap();
    assert_eq!(conds.len(), 2);
    assert_eq!(conds[0].condition_type, "Progressing");
    assert_eq!(conds[0].status, "True");
    assert_eq!(conds[0].last_transition_time.as_deref(), Some(now.as_str()));
    assert_eq!(conds[1].condition_type, "Ready");
    assert_eq!(conds[1].status, "False");
    assert!(is_progressing(&Some(s)));
}

#[test]
fn spec_change_updates_existing_conditions() {
    let old = RTResourceStatus {
        observed_generation: Some(1),
        desired_replicas: Some(1),
        replicas: Some(1),
        conditions: Some(vec![
            Condition {
                condition_type: "Ready".to_string(),
                status: "True".to_string(),
                last_transition_time: None,
                reason: None,
                message: None,
            },
            Condition {
                condition_type: "Other".to_string(),
                status: "True".to_string(),
                last_transition_time: None,
                reason: None,
                message: None,
            },
        ]),
    };
    let s = spec_changed_status(&Some(old), Some(2), 5, &"t".to_string());
    let conds = s.conditions.unwrap();
    assert_eq!(conds.len(), 3);
    assert_eq!(conds[0].condition_type, "Ready");
    assert_eq!(conds[0].status, "False");
    assert_eq!(conds[1].condition_type, "Other");
    assert_eq!(conds[1].status, "True");
    assert_eq!(conds[2].condition_type, "Progressing");
    assert_eq!(s.replicas, Some(1));
}

#[test]
fn spec_change_twice_is_once() {
    let now = "t0".to_string();
    let once = spec_changed_status(&None, Some(1), 2, &now);
    let twice = spec_changed_status(&Some(once.clone()), Some(1), 2, &now);
    assert_eq!(format!("{:?}", once), format!("{:?}", twice));
}

#[test]
fn create_scenario_settles_ready() {
    let started = spec_changed_status(&None, Some(1), 3, &"t1".to_string());
    let partial = replicas_observed_status(&Some(started), 2, &"t2".to_string());
    assert_eq!(partial.replicas, Some(2));
    assert!(is_progressing(&Some(partial.clone())));
    let done = replicas_observed_status(&Some(partial), 3, &"t3".to_string());
    assert_eq!(done.desired_replicas, Some(3));
    assert_eq!(done.replicas, Some(3));
    let conds = done.conditions.clone().unwrap();
    assert_eq!(find(&conds, "Progressing").status, "False");
    assert_eq!(find(&conds, "Ready").status, "True");
    assert_eq!(
        find(&conds, "Ready").message.as_deref(),
        Some("All desired replicas are running!")
    );
    assert!(!is_progressing(&Some(done)));
}

#[test]
fn not_progressing_without_conditions() {
    assert!(!is_progressing(&None));
    let s = RTResourceStatus {
        observed_generation: None,
        desired_replicas: None,
        replicas: None,
        conditions: None,
    };
    assert!(!is_progressing(&Some(s)));
}

#[test]
fn timestamps_come_from_the_clock() {
    let s = mark_spec_changed(&None, Some(1), 1);
    let t = s.conditions.unwrap()[0].last_transition_time.clone().unwrap();
    assert!(t.len() >= 20);
    assert!(t.starts_with("20"));
    let s = mark_replicas_observed(&Some(spec_changed_status(&None, None, 1, &"x".to_string())), 1);
    let conds = s.conditions.unwrap();
    assert_ne!(find(&conds, "Ready").last_transition_time.as_deref(), Some("x"));
}

#[test]
fn resources_visited_by_criticality() {
    assert_eq!(processing_order(&vec![3, 0, 2, 0, 1]), vec![1, 3, 4, 2, 0]);
    assert_eq!(processing_order(&vec![]), Vec::<usize>::new());
    assert_eq!(processing_order(&vec![5, 5, 5]), vec![0, 1, 2]);
}

#[test]
fn running_pods_counted() {
    let phases = vec![
        Some("Running".to_string()),
        Some("Pending".to_string()),
        None,
        Some("Running".to_string()),
        Some("running".to_string()),
    ];
    assert_eq!(count_running(&phases), 2);
    assert_eq!(count_running(&vec![]), 0);
}

#[test]
fn list_failures_stop_at_ten() {
    let mut f = 0usize;
    for _ in 0..9 {
        let (n, stop) = after_list_attempt(f, false);
        assert!(!stop);
        f = n;
    }
    assert_eq!(after_list_attempt(f, false), (10, true));
    assert_eq!(after_list_attempt(f, true), (0, false));
}
