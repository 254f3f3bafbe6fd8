use linkerd_failover::object::ObjectRef;
use linkerd_failover::patch::{
    event_reason, mk_patch, patch, EventType, PatchRequest, API_VERSION, CONTROLLER,
    FIELD_MANAGER, KIND, QUEUE_CAPACITY, WRITE_TIMEOUT_SECONDS,
};
use linkerd_failover::traffic_split::{Backend, FailoverUpdate};

fn backend(service: &str, weight: u32) -> Backend {
    Backend { service: service.to_owned(), weight }
}

#[test]
fn event_reason_names_the_traffic_split_and_the_direction() {
    assert_eq!(event_reason("ts0", true), "trafficsplit/ts0 switching traffic to primary");
    assert_eq!(event_reason("ts0", false), "trafficsplit/ts0 failing over to fallbacks");
    assert_eq!(event_reason("", true), "trafficsplit/ switching traffic to primary");
}

#[test]
fn identities_are_as_documented() {
    assert_eq!(API_VERSION, "split.smi-spec.io/v1alpha2");
    assert_eq!(KIND, "TrafficSplit");
    assert_eq!(FIELD_MANAGER, "failover.linkerd.io");
    assert_eq!(CONTROLLER, "linkerd-failover");
    assert_eq!(WRITE_TIMEOUT_SECONDS, 10);
    assert_eq!(QUEUE_CAPACITY, 1000);
}

#[test]
fn patch_body_mentions_only_identity_and_backends() {
    let body = mk_patch("ts0", &vec![backend("primary", 1), backend("secondary", 0)]);
    let expected: serde_json::Value = serde_json::from_str(
        r#"{
            "apiVersion": "split.smi-spec.io/v1alpha2",
            "kind": "TrafficSplit",
            "name": "ts0",
            "spec": {
                "backends": [
                    { "service": "primary", "weight": 1 },
                    { "service": "secondary", "weight": 0 }
                ]
            }
        }"#,
    )
    .unwrap();
    assert_eq!(body, expected);
    let top = body.as_object().unwrap();
    assert_eq!(top.len(), 4);
    assert_eq!(top["spec"].as_object().unwrap().len(), 1);
    let backends = top["spec"]["backends"].as_array().unwrap();
    assert_eq!(backends.len(), 2);
    assert_eq!(backends[0]["service"].as_str(), Some("primary"));
    assert_eq!(backends[0]["weight"].as_u64(), Some(1));
    assert_eq!(backends[1]["service"].as_str(), Some("secondary"));
    assert_eq!(backends[1]["weight"].as_u64(), Some(0));
}

#[test]
fn patch_body_of_no_backends_holds_an_empty_array() {
    let body = mk_patch("empty", &vec![]);
    assert_eq!(
        serde_json::to_string(&body).unwrap(),
        r#"{"apiVersion":"split.smi-spec.io/v1alpha2","kind":"TrafficSplit","name":"empty","spec":{"backends":[]}}"#
    );
}

#[test]
fn patch_body_keeps_large_weights() {
    let body = mk_patch("ts0", &vec![backend("a", u32::MAX)]);
    assert_eq!(body["spec"]["backends"][0]["weight"].as_u64(), Some(4294967295));
}

#[test]
fn patch_plans_event_and_body() {
    let update = FailoverUpdate {
        target: ObjectRef::new("ts0").within("default"),
        backends: vec![backend("primary", 0), backend("secondary", 1)],
        primary_active: false,
    };
    let request = patch(&update);
    assert_eq!(
        request,
        PatchRequest {
            namespace: "default".to_owned(),
            name: "ts0".to_owned(),
            controller: "linkerd-failover",
            event_type: EventType::Normal,
            reason: "trafficsplit/ts0 failing over to fallbacks".to_owned(),
            field_manager: "failover.linkerd.io",
            body: mk_patch("ts0", &update.backends),
        }
    );
    assert!(request.reason.contains("failing over to fallbacks"));

    let back = FailoverUpdate {
        target: ObjectRef::new("ts0").within("default"),
        backends: vec![backend("primary", 1), backend("secondary", 0)],
        primary_active: true,
    };
    assert!(patch(&back).reason.contains("switching traffic to primary"));
}
