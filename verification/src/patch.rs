//! The write that carries out a decision.
use crate::json::{array, insert, integer, json_of, members, members_of, object, text, Json};
use crate::traffic_split::{Backend, BackendView, FailoverUpdate};
use vstd::prelude::*;
use vstd::string::StringExecFns;

verus! {

/// The API version of traffic splits.
pub const API_VERSION: &'static str = "split.smi-spec.io/v1alpha2";

/// The kind of traffic splits.
pub const KIND: &'static str = "TrafficSplit";

/// The name under which this controller writes fields.
pub const FIELD_MANAGER: &'static str = "failover.linkerd.io";

/// The name under which this controller reports events.
pub const CONTROLLER: &'static str = "linkerd-failover";

/// The number of seconds after which a write is given up.
pub const WRITE_TIMEOUT_SECONDS: u64 = 10;

/// The number of updates that may wait to be written. It holds a restart of
/// a large cluster without letting slow writes use up memory.
pub const QUEUE_CAPACITY: usize = 1000;

/// The reason given with the event that announces a write to the traffic
/// split `name`.
pub open spec fn event_reason_text(name: Seq<char>, primary_active: bool) -> Seq<char> {
    if primary_active {
        "trafficsplit/"@ + name + " switching traffic to primary"@
    } else {
        "trafficsplit/"@ + name + " failing over to fallbacks"@
    }
}

/// The reason given with the event that announces a write to the traffic
/// split `name`.
pub fn event_reason(name: &str, primary_active: bool) -> (reason: String)
    ensures
        reason@ == event_reason_text(name@, primary_active),
{
    let subject = String::from_str("trafficsplit/").concat(name);
    if primary_active {
        subject.concat(" switching traffic to primary")
    } else {
        subject.concat(" failing over to fallbacks")
    }
}

/// One backend as it stands in a patch.
pub open spec fn backend_json(backend: BackendView) -> Json {
    Json::Object(
        map![
            "service"@ => Json::Text(backend.service),
            "weight"@ => Json::Integer(backend.weight as int),
        ],
    )
}

/// The body of the merge patch that sets the backends of the traffic split
/// `name`: besides what identifies the object it mentions `spec.backends`
/// alone, so a merge leaves every other field as it is.
pub open spec fn patch_json(name: Seq<char>, backends: Seq<BackendView>) -> Json {
    Json::Object(
        map![
            "apiVersion"@ => Json::Text(API_VERSION@),
            "kind"@ => Json::Text(KIND@),
            "name"@ => Json::Text(name),
            "spec"@ => Json::Object(
                map![
                    "backends"@ => Json::Array(
                        Seq::new(backends.len(), |i: int| backend_json(backends[i])),
                    ),
                ],
            ),
        ],
    )
}

/// Builds the body of the merge patch that sets the backends of the traffic
/// split `name`.
pub fn mk_patch(name: &str, backends: &Vec<Backend>) -> (body: serde_json::Value)
    ensures
        json_of(body) == patch_json(name@, backends.deep_view()),
{
    let mut items: Vec<serde_json::Value> = Vec::new();
    let mut i: usize = 0;
    while i < backends.len()
        invariant
            i <= backends.len(),
            items.len() == i,
            forall|j: int| 0 <= j < i ==> json_of(#[trigger] items[j]) == backend_json(backends[j]@),
        decreases backends.len() - i,
    {
        let mut fields = members();
        insert(&mut fields, String::from_str("service"), text(backends[i].service.clone()));
        insert(&mut fields, String::from_str("weight"), integer(backends[i].weight));
        let item = object(fields);
        assert(json_of(item) == backend_json(backends[i as int]@)) by {
            assert(members_of(fields) =~= map![
                "service"@ => Json::Text(backends[i as int]@.service),
                "weight"@ => Json::Integer(backends[i as int]@.weight as int),
            ]);
        }
        items.push(item);
        i += 1;
    }
    let listed = array(items);
    assert(json_of(listed) == Json::Array(
        Seq::new(backends.deep_view().len(), |i: int| backend_json(backends.deep_view()[i])),
    )) by {
        assert(Seq::new(items@.len(), |i: int| json_of(items@[i])) =~= Seq::new(
            backends.deep_view().len(),
            |i: int| backend_json(backends.deep_view()[i]),
        ));
    }
    let mut spec = members();
    insert(&mut spec, String::from_str("backends"), listed);
    let mut body = members();
    insert(&mut body, String::from_str("apiVersion"), text(String::from_str(API_VERSION)));
    insert(&mut body, String::from_str("kind"), text(String::from_str(KIND)));
    insert(&mut body, String::from_str("name"), text(String::from_str(name)));
    insert(&mut body, String::from_str("spec"), object(spec));
    let ghost inner = map!["backends"@ => json_of(listed)];
    assert(members_of(spec) =~= inner);
    assert(members_of(body) =~= map![
        "apiVersion"@ => Json::Text(API_VERSION@),
        "kind"@ => Json::Text(KIND@),
        "name"@ => Json::Text(name@),
        "spec"@ => Json::Object(inner),
    ]);
    object(body)
}

/// The severity of an event.
#[derive(Clone, Copy, Debug, PartialEq, Eq)]
pub enum EventType {
    /// Something that is expected to happen.
    Normal,
    /// Something that is not.
    Warning,
}

/// Everything that one write to a traffic split needs.
#[derive(Debug, PartialEq)]
pub struct PatchRequest {
    /// The namespace of the traffic split.
    pub namespace: String,
    /// The name of the traffic split.
    pub name: String,
    /// The controller that the event is reported for.
    pub controller: &'static str,
    /// The severity of the event that announces the write.
    pub event_type: EventType,
    /// The reason of the event that announces the write.
    pub reason: String,
    /// The name under which the fields are written.
    pub field_manager: &'static str,
    /// The body of the merge patch.
    pub body: serde_json::Value,
}

/// Plans the write that carries out `update`: a normal event of this
/// controller to report first, and the merge patch to apply to the traffic
/// split under the field manager of this controller.
pub fn patch(update: &FailoverUpdate) -> (request: PatchRequest)
    requires
        update@.target.namespace is Some,
    ensures
        Some(request.namespace@) == update@.target.namespace,
        request.name@ == update@.target.name,
        request.controller@ == CONTROLLER@,
        request.event_type == EventType::Normal,
        request.reason@ == event_reason_text(update@.target.name, update@.primary_active),
        request.field_manager@ == FIELD_MANAGER@,
        json_of(request.body) == patch_json(update@.target.name, update@.backends),
{
    let namespace: String = match &update.target.namespace {
        Some(ns) => ns.clone(),
        None => String::new(),
    };
    PatchRequest {
        namespace,
        name: update.target.name.clone(),
        controller: CONTROLLER,
        event_type: EventType::Normal,
        reason: event_reason(update.target.name.as_str(), update.primary_active),
        field_manager: FIELD_MANAGER,
        body: mk_patch(update.target.name.as_str(), &update.backends),
    }
}

} // verus!
