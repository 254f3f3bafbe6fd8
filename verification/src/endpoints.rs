//! Endpoints objects and what makes a service ready.
use crate::object::{ObjectRef, ObjectRefView};
use crate::store::{applied, lookup, Event, EventView, Resource};
use crate::traffic_split::{
    patches, refs, update, update_all, FailoverUpdate, FailoverUpdateView, Outcome, TrafficSplit,
    TrafficSplitView,
};
use crate::Ctx;
use vstd::prelude::*;

verus! {

/// One network address behind a service.
#[derive(Debug, PartialEq, Eq)]
pub struct EndpointAddress {
    pub ip: String,
}

/// The mathematical value of an [`EndpointAddress`].
pub ghost struct EndpointAddressView {
    pub ip: Seq<char>,
}

impl DeepView for EndpointAddress {
    type V = EndpointAddressView;

    open spec fn deep_view(&self) -> EndpointAddressView {
        EndpointAddressView { ip: self.ip@ }
    }
}

impl View for EndpointAddress {
    type V = EndpointAddressView;

    open spec fn view(&self) -> EndpointAddressView {
        self.deep_view()
    }
}

impl Clone for EndpointAddress {
    fn clone(&self) -> (r: Self)
        ensures
            r@ == self@,
    {
        EndpointAddress { ip: self.ip.clone() }
    }
}

/// A group of addresses of one service: those that accept traffic and those
/// that do not yet.
#[derive(Debug, PartialEq, Eq)]
pub struct EndpointSubset {
    pub addresses: Option<Vec<EndpointAddress>>,
    pub not_ready_addresses: Option<Vec<EndpointAddress>>,
}

/// The mathematical value of an [`EndpointSubset`].
pub ghost struct EndpointSubsetView {
    pub addresses: Option<Seq<EndpointAddressView>>,
    pub not_ready_addresses: Option<Seq<EndpointAddressView>>,
}

impl DeepView for EndpointSubset {
    type V = EndpointSubsetView;

    open spec fn deep_view(&self) -> EndpointSubsetView {
        EndpointSubsetView {
            addresses: self.addresses.deep_view(),
            not_ready_addresses: self.not_ready_addresses.deep_view(),
        }
    }
}

impl View for EndpointSubset {
    type V = EndpointSubsetView;

    open spec fn view(&self) -> EndpointSubsetView {
        self.deep_view()
    }
}

/// Copies a list of addresses.
fn copy_addresses(list: &Option<Vec<EndpointAddress>>) -> (r: Option<Vec<EndpointAddress>>)
    ensures
        r.deep_view() == list.deep_view(),
{
    match list {
        None => None,
        Some(addresses) => {
            let mut out: Vec<EndpointAddress> = Vec::new();
            let mut i: usize = 0;
            while i < addresses.len()
                invariant
                    i <= addresses.len(),
                    out.len() == i,
                    forall|j: int| 0 <= j < i ==> out[j]@ == addresses[j]@,
                decreases addresses.len() - i,
            {
                out.push(addresses[i].clone());
                i += 1;
            }
            assert(out.deep_view() =~= addresses.deep_view());
            Some(out)
        },
    }
}

impl Clone for EndpointSubset {
    fn clone(&self) -> (r: Self)
        ensures
            r@ == self@,
    {
        EndpointSubset {
            addresses: copy_addresses(&self.addresses),
            not_ready_addresses: copy_addresses(&self.not_ready_addresses),
        }
    }
}

/// The addresses behind the service of the same name and namespace.
#[derive(Debug, PartialEq, Eq)]
pub struct Endpoints {
    pub name: String,
    pub namespace: Option<String>,
    pub subsets: Option<Vec<EndpointSubset>>,
}

/// The mathematical value of an [`Endpoints`] object.
pub ghost struct EndpointsView {
    pub name: Seq<char>,
    pub namespace: Option<Seq<char>>,
    pub subsets: Option<Seq<EndpointSubsetView>>,
}

impl DeepView for Endpoints {
    type V = EndpointsView;

    open spec fn deep_view(&self) -> EndpointsView {
        EndpointsView {
            name: self.name@,
            namespace: self.namespace.deep_view(),
            subsets: self.subsets.deep_view(),
        }
    }
}

impl View for Endpoints {
    type V = EndpointsView;

    open spec fn view(&self) -> EndpointsView {
        self.deep_view()
    }
}

impl Clone for Endpoints {
    fn clone(&self) -> (r: Self)
        ensures
            r@ == self@,
    {
        let subsets: Option<Vec<EndpointSubset>> = match &self.subsets {
            None => None,
            Some(list) => {
                let mut out: Vec<EndpointSubset> = Vec::new();
                let mut i: usize = 0;
                while i < list.len()
                    invariant
                        i <= list.len(),
                        out.len() == i,
                        forall|j: int| 0 <= j < i ==> out[j]@ == list[j]@,
                    decreases list.len() - i,
                {
                    out.push(list[i].clone());
                    i += 1;
                }
                assert(out.deep_view() =~= list.deep_view());
                Some(out)
            },
        };
        let namespace: Option<String> = match &self.namespace {
            None => None,
            Some(ns) => Some(ns.clone()),
        };
        Endpoints { name: self.name.clone(), namespace, subsets }
    }
}

impl Resource for Endpoints {
    open spec fn key(v: EndpointsView) -> ObjectRefView {
        ObjectRefView { name: v.name, namespace: v.namespace }
    }

    fn object_ref(&self) -> (r: ObjectRef) {
        let namespace: Option<String> = match &self.namespace {
            None => None,
            Some(ns) => Some(ns.clone()),
        };
        ObjectRef { name: self.name.clone(), namespace }
    }

    fn is_at(&self, r: &ObjectRef) -> (b: bool) {
        let names: bool = self.name == r.name;
        let spaces: bool = match (&self.namespace, &r.namespace) {
            (Some(a), Some(b)) => *a.as_str() == *b.as_str(),
            (None, None) => true,
            _ => false,
        };
        names && spaces
    }

    fn duplicate(&self) -> (r: Self) {
        self.clone()
    }
}

/// A subset is ready when it lists at least one address that accepts traffic.
pub open spec fn subset_ready(subset: EndpointSubsetView) -> bool {
    match subset.addresses {
        Some(addresses) => addresses.len() > 0,
        None => false,
    }
}

/// An endpoints object is ready when one of its subsets is. Addresses that
/// are not ready do not count, and neither does an object without subsets.
pub open spec fn has_ready_address(endpoints: EndpointsView) -> bool {
    match endpoints.subsets {
        Some(subsets) => exists|i: int| 0 <= i < subsets.len() && subset_ready(#[trigger] subsets[i]),
        None => false,
    }
}

/// The reference of the endpoints that stand behind `service` in `namespace`.
pub open spec fn service_ref(namespace: Seq<char>, service: Seq<char>) -> ObjectRefView {
    ObjectRefView { name: service, namespace: Some(namespace) }
}

/// The service `service` of `namespace` is ready when `endpoints` holds an
/// object for it, and that object is ready.
pub open spec fn ready(endpoints: Seq<EndpointsView>, namespace: Seq<char>, service: Seq<char>) -> bool {
    match lookup::<Endpoints>(endpoints, service_ref(namespace, service)) {
        Some(found) => has_ready_address(found),
        None => false,
    }
}

impl Endpoints {
    /// Whether one of the subsets lists an address that accepts traffic.
    pub fn has_ready_address(&self) -> (b: bool)
        ensures
            b == has_ready_address(self@),
    {
        match &self.subsets {
            None => false,
            Some(subsets) => {
                let mut i: usize = 0;
                while i < subsets.len()
                    invariant
                        i <= subsets.len(),
                        self.subsets == Some(*subsets),
                        forall|j: int| 0 <= j < i ==> !subset_ready(#[trigger] subsets.deep_view()[j]),
                    decreases subsets.len() - i,
                {
                    let here: bool = match &subsets[i].addresses {
                        Some(addresses) => addresses.len() > 0,
                        None => false,
                    };
                    assert(here == subset_ready(subsets.deep_view()[i as int]));
                    if here {
                        proof {
                            let listed = self@.subsets->0;
                            assert(listed =~= subsets.deep_view());
                            assert(subset_ready(listed[i as int]));
                        }
                        return true;
                    }
                    i += 1;
                }
                assert(self@.subsets == Some(subsets.deep_view()));
                false
            },
        }
    }
}

/// One of the backends of `split` is the service `service`.
pub open spec fn uses_service(split: TrafficSplitView, service: Seq<char>) -> bool {
    exists|i: int|
        0 <= i < split.spec.backends.len() && (#[trigger] split.spec.backends[i]).service
            == service
}

/// A change of `endpoints` concerns `split`: both are of one namespace, and
/// one of the backends of `split` is the service of `endpoints`.
pub open spec fn concerns(endpoints: EndpointsView, split: TrafficSplitView) -> bool {
    endpoints.namespace == Some(split.namespace) && uses_service(split, endpoints.name)
}

/// The references of the traffic splits of `splits` that a change of
/// `endpoints` concerns, in order.
pub open spec fn concerned(endpoints: EndpointsView, splits: Seq<TrafficSplitView>) -> Seq<
    ObjectRefView,
>
    decreases splits.len(),
{
    if splits.len() == 0 {
        Seq::empty()
    } else if concerns(endpoints, splits.last()) {
        concerned(endpoints, splits.drop_last()).push(TrafficSplit::key(splits.last()))
    } else {
        concerned(endpoints, splits.drop_last())
    }
}

/// The updates that an endpoints event asks for, once the store reflects it:
/// when endpoints were created, modified or deleted, every stored traffic
/// split that they concern is reconsidered; after a restart, every stored
/// traffic split is.
pub open spec fn handled(
    ev: EventView<EndpointsView>,
    splits: Seq<TrafficSplitView>,
    endpoints: Seq<EndpointsView>,
) -> Seq<FailoverUpdateView> {
    match ev {
        EventView::Applied(changed) => patches(concerned(changed, splits), splits, endpoints),
        EventView::Deleted(changed) => patches(concerned(changed, splits), splits, endpoints),
        EventView::Restarted(_) => patches(refs(splits), splits, endpoints),
    }
}

impl Endpoints {
    /// Whether a change of these endpoints concerns `split`.
    pub fn concerns(&self, split: &TrafficSplit) -> (b: bool)
        ensures
            b == concerns(self@, split@),
    {
        let same_namespace: bool = match &self.namespace {
            Some(ns) => *ns == split.namespace,
            None => false,
        };
        if !same_namespace {
            return false;
        }
        let ghost listed = split@.spec.backends;
        let mut i: usize = 0;
        while i < split.spec.backends.len()
            invariant
                i <= split.spec.backends.len(),
                listed == split@.spec.backends,
                listed == split.spec.backends.deep_view(),
                self@.namespace == Some(split@.namespace),
                forall|j: int| 0 <= j < i ==> (#[trigger] listed[j]).service != self@.name,
            decreases split.spec.backends.len() - i,
        {
            if split.spec.backends[i].service == self.name {
                assert(listed[i as int].service == self@.name);
                return true;
            }
            i += 1;
        }
        false
    }
}

/// Reconsiders the stored traffic splits that a change of `changed` concerns.
fn update_concerned(changed: &Endpoints, ctx: &Ctx) -> (r: Vec<FailoverUpdate>)
    ensures
        r.deep_view() == patches(
            concerned(changed@, ctx.traffic_splits@),
            ctx.traffic_splits@,
            ctx.endpoints@,
        ),
{
    let splits = ctx.traffic_splits.state();
    let ghost all = ctx.traffic_splits@;
    let mut out: Vec<FailoverUpdate> = Vec::new();
    let mut i: usize = 0;
    assert(all.take(0) =~= Seq::<TrafficSplitView>::empty());
    assert(out.deep_view() =~= Seq::<FailoverUpdateView>::empty());
    while i < splits.len()
        invariant
            i <= splits.len(),
            all == splits.deep_view(),
            all == ctx.traffic_splits@,
            out.deep_view() == patches(
                concerned(changed@, all.take(i as int)),
                all,
                ctx.endpoints@,
            ),
        decreases splits.len() - i,
    {
        let ghost before = out.deep_view();
        let ghost targets = concerned(changed@, all.take(i as int));
        proof {
            let next = all.take(i + 1);
            assert(next.drop_last() =~= all.take(i as int));
            assert(next.last() == splits[i as int]@);
        }
        if changed.concerns(&splits[i]) {
            let target = splits[i].object_ref();
            proof {
                let grown = targets.push(target@);
                assert(grown.drop_last() =~= targets);
                assert(grown.last() == target@);
            }
            match update(&target, ctx) {
                Outcome::Patch(found) => {
                    out.push(found);
                    assert(out.deep_view() =~= before + seq![found@]);
                },
                _ => {
                    assert(out.deep_view() =~= before + Seq::<FailoverUpdateView>::empty());
                },
            }
        }
        i += 1;
    }
    assert(all.take(splits.len() as int) =~= all);
    out
}

/// Handles an endpoints event that the store of `ctx` already reflects: the
/// result holds, in order, the updates to send.
pub fn handle(ev: &Event<Endpoints>, ctx: &Ctx) -> (r: Vec<FailoverUpdate>)
    ensures
        r.deep_view() == handled(ev.deep_view(), ctx.traffic_splits@, ctx.endpoints@),
{
    match ev {
        Event::Applied(changed) => update_concerned(changed, ctx),
        Event::Deleted(changed) => update_concerned(changed, ctx),
        Event::Restarted(_) => {
            // After a restart every known traffic split is reconsidered.
            update_all(ctx.traffic_splits.state(), ctx)
        },
    }
}

/// Takes one event off the endpoints watch: first the store is brought up to
/// date with it, then the event is handled against the state that results.
/// The traffic splits stay as they are.
pub fn process(ev: &Event<Endpoints>, ctx: &mut Ctx) -> (r: Vec<FailoverUpdate>)
    ensures
        final(ctx).endpoints@ == applied::<Endpoints>(old(ctx).endpoints@, ev.deep_view()),
        final(ctx).traffic_splits@ == old(ctx).traffic_splits@,
        r.deep_view() == handled(
            ev.deep_view(),
            final(ctx).traffic_splits@,
            final(ctx).endpoints@,
        ),
{
    ctx.endpoints.apply(ev);
    handle(ev, ctx)
}

} // verus!
