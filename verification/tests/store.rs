use linkerd_failover::endpoints::Endpoints;
use linkerd_failover::object::ObjectRef;
use linkerd_failover::store::{Event, Resource, Store, Watch, WatchEvent};

fn endpoints(namespace: Option<&str>, name: &str) -> Endpoints {
    Endpoints { name: name.to_owned(), namespace: namespace.map(str::to_owned), subsets: None }
}

fn with_subsets(namespace: &str, name: &str) -> Endpoints {
    Endpoints {
        name: name.to_owned(),
        namespace: Some(namespace.to_owned()),
        subsets: Some(vec![]),
    }
}

#[test]
fn object_ref_is_name_and_namespace() {
    let bare = ObjectRef::new("a");
    assert_eq!(bare, ObjectRef { name: "a".to_owned(), namespace: None });
    let placed = ObjectRef::new("a").within("ns");
    assert_eq!(placed, ObjectRef { name: "a".to_owned(), namespace: Some("ns".to_owned()) });
    assert!(placed.same(&ObjectRef::new("a").within("ns")));
    assert!(!placed.same(&bare));
    assert!(!placed.same(&ObjectRef::new("a").within("other")));
    assert!(!placed.same(&ObjectRef::new("b").within("ns")));
    assert!(bare.same(&ObjectRef::new("a")));
}

#[test]
fn resource_knows_its_reference() {
    let ep = endpoints(Some("ns"), "a");
    assert_eq!(ep.object_ref(), ObjectRef::new("a").within("ns"));
    assert!(ep.is_at(&ObjectRef::new("a").within("ns")));
    assert!(!ep.is_at(&ObjectRef::new("a")));
    assert_eq!(endpoints(None, "a").object_ref(), ObjectRef::new("a"));
    assert_eq!(ep.duplicate(), ep);
}

#[test]
fn new_store_is_empty() {
    let store: Store<Endpoints> = Store::new();
    assert!(store.state().is_empty());
    assert_eq!(store.get(&ObjectRef::new("a").within("ns")), None);
}

#[test]
fn applied_adds_then_replaces_in_place() {
    let mut store: Store<Endpoints> = Store::new();
    store.apply(&Event::Applied(endpoints(Some("ns"), "a")));
    store.apply(&Event::Applied(endpoints(Some("ns"), "b")));
    store.apply(&Event::Applied(endpoints(Some("other"), "a")));
    assert_eq!(
        store.state(),
        &vec![endpoints(Some("ns"), "a"), endpoints(Some("ns"), "b"), endpoints(Some("other"), "a")]
    );
    store.apply(&Event::Applied(with_subsets("ns", "a")));
    assert_eq!(
        store.state(),
        &vec![with_subsets("ns", "a"), endpoints(Some("ns"), "b"), endpoints(Some("other"), "a")]
    );
    assert_eq!(store.get(&ObjectRef::new("a").within("ns")), Some(&with_subsets("ns", "a")));
    assert_eq!(store.get(&ObjectRef::new("a").within("other")), Some(&endpoints(Some("other"), "a")));
    assert_eq!(store.get(&ObjectRef::new("a")), None);
}

#[test]
fn deleted_removes_the_entry() {
    let mut store: Store<Endpoints> = Store::new();
    store.apply(&Event::Applied(endpoints(Some("ns"), "a")));
    store.apply(&Event::Applied(endpoints(Some("ns"), "b")));
    store.apply(&Event::Applied(endpoints(Some("ns"), "c")));
    // The payload of the deleted object does not matter, only its reference.
    store.apply(&Event::Deleted(with_subsets("ns", "b")));
    assert_eq!(store.state(), &vec![endpoints(Some("ns"), "a"), endpoints(Some("ns"), "c")]);
    assert_eq!(store.get(&ObjectRef::new("b").within("ns")), None);
    store.apply(&Event::Deleted(endpoints(Some("ns"), "unknown")));
    assert_eq!(store.state().len(), 2);
}

#[test]
fn restarted_replaces_everything() {
    let mut store: Store<Endpoints> = Store::new();
    store.apply(&Event::Applied(endpoints(Some("ns"), "a")));
    store.apply(&Event::Applied(endpoints(Some("ns"), "b")));
    store.apply(&Event::Restarted(vec![endpoints(Some("ns"), "c"), endpoints(Some("ns"), "a")]));
    assert_eq!(store.state(), &vec![endpoints(Some("ns"), "c"), endpoints(Some("ns"), "a")]);
    assert_eq!(store.get(&ObjectRef::new("b").within("ns")), None);
    store.apply(&Event::Restarted(vec![]));
    assert!(store.state().is_empty());
}

#[test]
fn restarted_keeps_the_last_of_two_objects_with_one_reference() {
    let mut store: Store<Endpoints> = Store::new();
    store.apply(&Event::Restarted(vec![
        endpoints(Some("ns"), "a"),
        endpoints(Some("ns"), "b"),
        with_subsets("ns", "a"),
    ]));
    assert_eq!(store.state(), &vec![with_subsets("ns", "a"), endpoints(Some("ns"), "b")]);
}

#[test]
fn watch_hands_changes_on_at_once() {
    let mut watch: Watch<Endpoints> = Watch::new();
    assert_eq!(
        watch.observe(WatchEvent::Apply(endpoints(Some("ns"), "a"))),
        Some(Event::Applied(endpoints(Some("ns"), "a")))
    );
    assert_eq!(
        watch.observe(WatchEvent::Delete(endpoints(Some("ns"), "a"))),
        Some(Event::Deleted(endpoints(Some("ns"), "a")))
    );
}

#[test]
fn watch_gathers_a_list_into_one_restart() {
    let mut watch: Watch<Endpoints> = Watch::new();
    assert_eq!(watch.observe(WatchEvent::Init), None);
    assert_eq!(watch.observe(WatchEvent::InitApply(endpoints(Some("ns"), "a"))), None);
    // A change between two listed objects is handed on and does not join the list.
    assert_eq!(
        watch.observe(WatchEvent::Apply(endpoints(Some("ns"), "x"))),
        Some(Event::Applied(endpoints(Some("ns"), "x")))
    );
    assert_eq!(watch.observe(WatchEvent::InitApply(endpoints(Some("ns"), "b"))), None);
    assert_eq!(
        watch.observe(WatchEvent::InitDone),
        Some(Event::Restarted(vec![endpoints(Some("ns"), "a"), endpoints(Some("ns"), "b")]))
    );
    // The list is forgotten once handed on, and when the watch starts over.
    assert_eq!(watch.observe(WatchEvent::InitDone), Some(Event::Restarted(vec![])));
    assert_eq!(watch.observe(WatchEvent::InitApply(endpoints(Some("ns"), "c"))), None);
    assert_eq!(watch.observe(WatchEvent::Init), None);
    assert_eq!(watch.observe(WatchEvent::InitDone), Some(Event::Restarted(vec![])));
}
