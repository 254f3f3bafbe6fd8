//! Traffic splits and the decision that moves their traffic.
use crate::endpoints::{ready, EndpointsView};
use crate::object::{ObjectRef, ObjectRefView};
use crate::store::{applied, lookup, Event, EventView, Resource};
use crate::Ctx;
use vstd::prelude::*;

verus! {

/// The annotation that names the primary backend of a traffic split.
pub const PRIMARY_SERVICE_ANNOTATION: &'static str = "failover.linkerd.io/primary-service";

/// One backend of a traffic split: a service and its share of the traffic.
#[derive(Debug, PartialEq, Eq)]
pub struct Backend {
    pub service: String,
    pub weight: u32,
}

/// The mathematical value of a [`Backend`].
pub ghost struct BackendView {
    pub service: Seq<char>,
    pub weight: u32,
}

impl DeepView for Backend {
    type V = BackendView;

    open spec fn deep_view(&self) -> BackendView {
        BackendView { service: self.service@, weight: self.weight }
    }
}

impl View for Backend {
    type V = BackendView;

    open spec fn view(&self) -> BackendView {
        self.deep_view()
    }
}

impl Clone for Backend {
    fn clone(&self) -> (r: Self)
        ensures
            r@ == self@,
    {
        Backend { service: self.service.clone(), weight: self.weight }
    }
}

/// Copies a list of backends.
pub fn copy_backends(backends: &Vec<Backend>) -> (r: Vec<Backend>)
    ensures
        r.deep_view() == backends.deep_view(),
{
    let mut out: Vec<Backend> = Vec::new();
    let mut i: usize = 0;
    while i < backends.len()
        invariant
            i <= backends.len(),
            out.len() == i,
            forall|j: int| 0 <= j < i ==> out[j]@ == backends[j]@,
        decreases backends.len() - i,
    {
        out.push(backends[i].clone());
        i += 1;
    }
    assert(out.deep_view() =~= backends.deep_view());
    out
}

/// What a traffic split asks for: its backends, in order.
#[derive(Debug, PartialEq, Eq)]
pub struct TrafficSplitSpec {
    pub backends: Vec<Backend>,
}

/// The mathematical value of a [`TrafficSplitSpec`].
pub ghost struct TrafficSplitSpecView {
    pub backends: Seq<BackendView>,
}

impl DeepView for TrafficSplitSpec {
    type V = TrafficSplitSpecView;

    open spec fn deep_view(&self) -> TrafficSplitSpecView {
        TrafficSplitSpecView { backends: self.backends.deep_view() }
    }
}

impl View for TrafficSplitSpec {
    type V = TrafficSplitSpecView;

    open spec fn view(&self) -> TrafficSplitSpecView {
        self.deep_view()
    }
}

impl Clone for TrafficSplitSpec {
    fn clone(&self) -> (r: Self)
        ensures
            r@ == self@,
    {
        TrafficSplitSpec { backends: copy_backends(&self.backends) }
    }
}

/// One annotation of an object.
#[derive(Debug, PartialEq, Eq)]
pub struct Annotation {
    pub key: String,
    pub value: String,
}

/// The mathematical value of an [`Annotation`].
pub ghost struct AnnotationView {
    pub key: Seq<char>,
    pub value: Seq<char>,
}

impl DeepView for Annotation {
    type V = AnnotationView;

    open spec fn deep_view(&self) -> AnnotationView {
        AnnotationView { key: self.key@, value: self.value@ }
    }
}

impl View for Annotation {
    type V = AnnotationView;

    open spec fn view(&self) -> AnnotationView {
        self.deep_view()
    }
}

impl Clone for Annotation {
    fn clone(&self) -> (r: Self)
        ensures
            r@ == self@,
    {
        Annotation { key: self.key.clone(), value: self.value.clone() }
    }
}

/// A traffic split as observed in the cluster. Traffic splits always live in
/// a namespace.
#[derive(Debug, PartialEq, Eq)]
pub struct TrafficSplit {
    pub name: String,
    pub namespace: String,
    pub annotations: Vec<Annotation>,
    pub spec: TrafficSplitSpec,
}

/// The mathematical value of a [`TrafficSplit`].
pub ghost struct TrafficSplitView {
    pub name: Seq<char>,
    pub namespace: Seq<char>,
    pub annotations: Seq<AnnotationView>,
    pub spec: TrafficSplitSpecView,
}

impl DeepView for TrafficSplit {
    type V = TrafficSplitView;

    open spec fn deep_view(&self) -> TrafficSplitView {
        TrafficSplitView {
            name: self.name@,
            namespace: self.namespace@,
            annotations: self.annotations.deep_view(),
            spec: self.spec@,
        }
    }
}

impl View for TrafficSplit {
    type V = TrafficSplitView;

    open spec fn view(&self) -> TrafficSplitView {
        self.deep_view()
    }
}

impl Clone for TrafficSplit {
    fn clone(&self) -> (r: Self)
        ensures
            r@ == self@,
    {
        let mut annotations: Vec<Annotation> = Vec::new();
        let mut i: usize = 0;
        while i < self.annotations.len()
            invariant
                i <= self.annotations.len(),
                annotations.len() == i,
                forall|j: int| 0 <= j < i ==> annotations[j]@ == self.annotations[j]@,
            decreases self.annotations.len() - i,
        {
            annotations.push(self.annotations[i].clone());
            i += 1;
        }
        assert(annotations.deep_view() =~= self.annotations.deep_view());
        TrafficSplit {
            name: self.name.clone(),
            namespace: self.namespace.clone(),
            annotations,
            spec: self.spec.clone(),
        }
    }
}

impl Resource for TrafficSplit {
    open spec fn key(v: TrafficSplitView) -> ObjectRefView {
        ObjectRefView { name: v.name, namespace: Some(v.namespace) }
    }

    fn object_ref(&self) -> (r: ObjectRef) {
        ObjectRef { name: self.name.clone(), namespace: Some(self.namespace.clone()) }
    }

    fn is_at(&self, r: &ObjectRef) -> (b: bool) {
        let names: bool = self.name == r.name;
        let spaces: bool = match &r.namespace {
            Some(ns) => self.namespace == *ns,
            None => false,
        };
        names && spaces
    }

    fn duplicate(&self) -> (r: Self) {
        self.clone()
    }
}

/// A request to write the given backends to a traffic split.
#[derive(Debug, PartialEq, Eq)]
pub struct FailoverUpdate {
    /// The traffic split to write to.
    pub target: ObjectRef,
    /// All of its backends as they should be, in the order observed.
    pub backends: Vec<Backend>,
    /// Whether the traffic goes to the primary backend.
    pub primary_active: bool,
}

/// The mathematical value of a [`FailoverUpdate`].
pub ghost struct FailoverUpdateView {
    pub target: ObjectRefView,
    pub backends: Seq<BackendView>,
    pub primary_active: bool,
}

impl DeepView for FailoverUpdate {
    type V = FailoverUpdateView;

    open spec fn deep_view(&self) -> FailoverUpdateView {
        FailoverUpdateView {
            target: self.target@,
            backends: self.backends.deep_view(),
            primary_active: self.primary_active,
        }
    }
}

impl View for FailoverUpdate {
    type V = FailoverUpdateView;

    open spec fn view(&self) -> FailoverUpdateView {
        self.deep_view()
    }
}

/// What came of reconsidering one traffic split.
#[derive(Debug, PartialEq, Eq)]
pub enum Outcome {
    /// The store holds no such traffic split (it was deleted meanwhile).
    NotFound,
    /// The traffic split names no primary backend and is left alone.
    MissingAnnotation,
    /// The weights are already as they should be.
    Unchanged,
    /// The traffic split has to be written.
    Patch(FailoverUpdate),
}

/// The mathematical value of an [`Outcome`].
pub ghost enum OutcomeView {
    NotFound,
    MissingAnnotation,
    Unchanged,
    Patch(FailoverUpdateView),
}

impl DeepView for Outcome {
    type V = OutcomeView;

    open spec fn deep_view(&self) -> OutcomeView {
        match self {
            Outcome::NotFound => OutcomeView::NotFound,
            Outcome::MissingAnnotation => OutcomeView::MissingAnnotation,
            Outcome::Unchanged => OutcomeView::Unchanged,
            Outcome::Patch(update) => OutcomeView::Patch(update@),
        }
    }
}

impl View for Outcome {
    type V = OutcomeView;

    open spec fn view(&self) -> OutcomeView {
        self.deep_view()
    }
}

/// The value of the first annotation with the given key, if there is one.
pub open spec fn annotation_value(annotations: Seq<AnnotationView>, key: Seq<char>) -> Option<
    Seq<char>,
>
    decreases annotations.len(),
{
    if annotations.len() == 0 {
        None
    } else if annotations[0].key == key {
        Some(annotations[0].value)
    } else {
        annotation_value(annotations.drop_first(), key)
    }
}

/// The primary backend that a traffic split names, if it names one.
pub open spec fn primary_service(split: TrafficSplitView) -> Option<Seq<char>> {
    annotation_value(split.annotations, PRIMARY_SERVICE_ANNOTATION@)
}

/// The weight that `service` should have: while the primary is active, 1 for
/// the primary and 0 for every other backend; otherwise 1 for every backend
/// that is ready and 0 for the others.
pub open spec fn desired_weight(
    primary_active: bool,
    primary: Seq<char>,
    endpoints: Seq<EndpointsView>,
    namespace: Seq<char>,
    service: Seq<char>,
) -> u32 {
    if primary_active {
        if service == primary {
            1
        } else {
            0
        }
    } else if ready(endpoints, namespace, service) {
        1
    } else {
        0
    }
}

/// The backends of `split` as they should be while `primary` is its primary
/// backend: the same services in the same order, each with its desired weight.
pub open spec fn desired_backends(
    split: TrafficSplitView,
    primary: Seq<char>,
    endpoints: Seq<EndpointsView>,
) -> Seq<BackendView> {
    let primary_active = ready(endpoints, split.namespace, primary);
    Seq::new(
        split.spec.backends.len(),
        |i: int|
            BackendView {
                service: split.spec.backends[i].service,
                weight: desired_weight(
                    primary_active,
                    primary,
                    endpoints,
                    split.namespace,
                    split.spec.backends[i].service,
                ),
            },
    )
}

/// Some backend's desired weight differs from the one observed.
pub open spec fn changed(observed: Seq<BackendView>, desired: Seq<BackendView>) -> bool {
    exists|i: int| 0 <= i < observed.len() && #[trigger] desired[i].weight != observed[i].weight
}

/// The decision for one traffic split against the endpoints observed: leave
/// it alone if it names no primary; otherwise write its desired backends if
/// any weight has to change.
pub open spec fn decide(split: TrafficSplitView, endpoints: Seq<EndpointsView>) -> OutcomeView {
    match primary_service(split) {
        None => OutcomeView::MissingAnnotation,
        Some(primary) => {
            let desired = desired_backends(split, primary, endpoints);
            if changed(split.spec.backends, desired) {
                OutcomeView::Patch(
                    FailoverUpdateView {
                        target: TrafficSplit::key(split),
                        backends: desired,
                        primary_active: ready(endpoints, split.namespace, primary),
                    },
                )
            } else {
                OutcomeView::Unchanged
            }
        },
    }
}

/// The decision for the traffic split stored under `target`.
pub open spec fn reconcile(
    target: ObjectRefView,
    splits: Seq<TrafficSplitView>,
    endpoints: Seq<EndpointsView>,
) -> OutcomeView {
    match lookup::<TrafficSplit>(splits, target) {
        None => OutcomeView::NotFound,
        Some(split) => decide(split, endpoints),
    }
}

impl TrafficSplit {
    /// The value of the first annotation with the given key, if there is one.
    pub fn annotation(&self, key: &str) -> (r: Option<&String>)
        ensures
            r.deep_view() == annotation_value(self@.annotations, key@),
    {
        let ghost all = self@.annotations;
        let mut i: usize = 0;
        assert(all.skip(0) =~= all);
        while i < self.annotations.len()
            invariant
                i <= self.annotations.len(),
                all == self.annotations.deep_view(),
                annotation_value(all, key@) == annotation_value(all.skip(i as int), key@),
            decreases self.annotations.len() - i,
        {
            assert(all.skip(i as int)[0] == all[i as int]);
            if *self.annotations[i].key.as_str() == *key {
                return Some(&self.annotations[i].value);
            }
            assert(all.skip(i as int).drop_first() =~= all.skip(i + 1));
            i += 1;
        }
        None
    }

    /// The primary backend that this traffic split names, if it names one.
    pub fn primary_service(&self) -> (r: Option<&String>)
        ensures
            r.deep_view() == primary_service(self@),
    {
        self.annotation(PRIMARY_SERVICE_ANNOTATION)
    }
}

/// Decides what to do with `split`, given the endpoints that `ctx` holds.
pub fn decide_split(split: &TrafficSplit, ctx: &Ctx) -> (r: Outcome)
    ensures
        r@ == decide(split@, ctx.endpoints@),
{
    let primary = match split.primary_service() {
        Some(name) => name,
        None => {
            return Outcome::MissingAnnotation;
        },
    };
    let primary_active: bool = ctx.endpoint_is_ready(split.namespace.as_str(), primary.as_str());
    let ghost observed = split@.spec.backends;
    let ghost desired = desired_backends(split@, primary@, ctx.endpoints@);

    let mut backends: Vec<Backend> = Vec::new();
    let mut is_changed: bool = false;
    let mut i: usize = 0;
    while i < split.spec.backends.len()
        invariant
            i <= split.spec.backends.len(),
            observed == split.spec.backends.deep_view(),
            desired == desired_backends(split@, primary@, ctx.endpoints@),
            primary_active == ready(ctx.endpoints@, split@.namespace, primary@),
            backends.len() == i,
            forall|j: int| 0 <= j < i ==> backends[j]@ == desired[j],
            is_changed <==> exists|j: int|
                0 <= j < i && #[trigger] desired[j].weight != observed[j].weight,
        decreases split.spec.backends.len() - i,
    {
        let backend = &split.spec.backends[i];
        // While the primary is active, it alone is active; otherwise every
        // backend with ready endpoints is.
        let active: bool = if primary_active {
            backend.service == *primary
        } else {
            ctx.endpoint_is_ready(split.namespace.as_str(), backend.service.as_str())
        };
        let weight: u32 = if active {
            1
        } else {
            0
        };
        assert(weight == desired[i as int].weight);
        assert(backend.weight == observed[i as int].weight);
        if weight != backend.weight {
            is_changed = true;
        }
        backends.push(Backend { service: backend.service.clone(), weight });
        i += 1;
    }
    assert(backends.deep_view() =~= desired);
    if !is_changed {
        return Outcome::Unchanged;
    }
    Outcome::Patch(
        FailoverUpdate { target: split.object_ref(), backends, primary_active },
    )
}

/// Reconsiders the traffic split stored under `target`: the outcome says
/// whether it has to be written, and with which backends.
pub fn update(target: &ObjectRef, ctx: &Ctx) -> (r: Outcome)
    requires
        target@.namespace is Some,
    ensures
        r@ == reconcile(target@, ctx.traffic_splits@, ctx.endpoints@),
{
    match ctx.traffic_splits.get(target) {
        Some(split) => decide_split(split, ctx),
        None => Outcome::NotFound,
    }
}

/// The update that an outcome asks for, if it asks for one.
pub open spec fn patch_of(outcome: OutcomeView) -> Seq<FailoverUpdateView> {
    match outcome {
        OutcomeView::Patch(update) => seq![update],
        _ => Seq::empty(),
    }
}

/// The updates that come of reconsidering the traffic splits stored under
/// `targets`, one after the other.
pub open spec fn patches(
    targets: Seq<ObjectRefView>,
    splits: Seq<TrafficSplitView>,
    endpoints: Seq<EndpointsView>,
) -> Seq<FailoverUpdateView>
    decreases targets.len(),
{
    if targets.len() == 0 {
        Seq::empty()
    } else {
        patches(targets.drop_last(), splits, endpoints) + patch_of(
            reconcile(targets.last(), splits, endpoints),
        )
    }
}

/// The references of the given traffic splits, in order.
pub open spec fn refs(splits: Seq<TrafficSplitView>) -> Seq<ObjectRefView> {
    Seq::new(splits.len(), |i: int| TrafficSplit::key(splits[i]))
}

/// The updates that a traffic split event asks for, once the store reflects
/// it: a created or modified traffic split is reconsidered, a deleted one is
/// not, and after a restart every traffic split of the event is.
pub open spec fn handled(
    ev: EventView<TrafficSplitView>,
    splits: Seq<TrafficSplitView>,
    endpoints: Seq<EndpointsView>,
) -> Seq<FailoverUpdateView> {
    match ev {
        EventView::Applied(split) => patches(seq![TrafficSplit::key(split)], splits, endpoints),
        EventView::Deleted(_) => Seq::empty(),
        EventView::Restarted(all) => patches(refs(all), splits, endpoints),
    }
}

/// Reconsiders every traffic split of `list` and collects the updates.
pub fn update_all(list: &Vec<TrafficSplit>, ctx: &Ctx) -> (r: Vec<FailoverUpdate>)
    ensures
        r.deep_view() == patches(refs(list.deep_view()), ctx.traffic_splits@, ctx.endpoints@),
{
    let ghost targets = refs(list.deep_view());
    let mut out: Vec<FailoverUpdate> = Vec::new();
    let mut i: usize = 0;
    assert(out.deep_view() =~= patches(targets.take(0), ctx.traffic_splits@, ctx.endpoints@));
    while i < list.len()
        invariant
            i <= list.len(),
            targets == refs(list.deep_view()),
            out.deep_view() == patches(
                targets.take(i as int),
                ctx.traffic_splits@,
                ctx.endpoints@,
            ),
        decreases list.len() - i,
    {
        let ghost before = out.deep_view();
        let target = list[i].object_ref();
        proof {
            let next = targets.take(i + 1);
            assert(next.drop_last() =~= targets.take(i as int));
            assert(next.last() == target@);
        }
        match update(&target, ctx) {
            Outcome::Patch(found) => {
                out.push(found);
                assert(out.deep_view() =~= before + seq![found@]);
            },
            _ => {
                assert(out.deep_view() =~= before + Seq::<FailoverUpdateView>::empty());
            },
        }
        i += 1;
    }
    assert(targets.take(list.len() as int) =~= targets);
    out
}

/// Handles a traffic split event that the store of `ctx` already reflects:
/// the result holds, in order, the updates to send.
pub fn handle(ev: &Event<TrafficSplit>, ctx: &Ctx) -> (r: Vec<FailoverUpdate>)
    ensures
        r.deep_view() == handled(ev.deep_view(), ctx.traffic_splits@, ctx.endpoints@),
{
    match ev {
        Event::Restarted(all) => update_all(all, ctx),
        Event::Applied(split) => {
            let mut out: Vec<FailoverUpdate> = Vec::new();
            let target = split.object_ref();
            proof {
                let targets = seq![target@];
                assert(targets.drop_last() =~= Seq::<ObjectRefView>::empty());
                assert(targets.last() == target@);
                assert(patches(targets.drop_last(), ctx.traffic_splits@, ctx.endpoints@)
                    =~= Seq::<FailoverUpdateView>::empty());
            }
            match update(&target, ctx) {
                Outcome::Patch(found) => {
                    out.push(found);
                    assert(out.deep_view() =~= Seq::<FailoverUpdateView>::empty() + seq![found@]);
                },
                _ => {
                    assert(out.deep_view() =~= Seq::<FailoverUpdateView>::empty() + Seq::<
                        FailoverUpdateView,
                    >::empty());
                },
            }
            out
        },
        Event::Deleted(_) => {
            // Nothing is left to reconsider once a traffic split is gone.
            let out: Vec<FailoverUpdate> = Vec::new();
            assert(out.deep_view() =~= Seq::<FailoverUpdateView>::empty());
            out
        },
    }
}

/// Takes one event off the traffic split watch: first the store is brought
/// up to date with it, then the event is handled against the state that
/// results. The endpoints stay as they are.
pub fn process(ev: &Event<TrafficSplit>, ctx: &mut Ctx) -> (r: Vec<FailoverUpdate>)
    ensures
        final(ctx).traffic_splits@ == applied::<TrafficSplit>(
            old(ctx).traffic_splits@,
            ev.deep_view(),
        ),
        final(ctx).endpoints@ == old(ctx).endpoints@,
        r.deep_view() == handled(
            ev.deep_view(),
            final(ctx).traffic_splits@,
            final(ctx).endpoints@,
        ),
{
    ctx.traffic_splits.apply(ev);
    handle(ev, ctx)
}

} // verus!
