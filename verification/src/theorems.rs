//! What holds of every decision, whatever the traffic split and whatever the
//! endpoints.
use crate::endpoints::{ready, EndpointsView};
use crate::object::ObjectRefView;
use crate::store::{
    distinct, first_at, lemma_position_unique, lemma_upserted_distinct, lookup, position, upserted,
    Resource,
};
use crate::traffic_split::{
    changed, decide, desired_backends, patches, primary_service, reconcile, BackendView,
    FailoverUpdateView, OutcomeView, TrafficSplit, TrafficSplitSpecView, TrafficSplitView,
};
use vstd::prelude::*;

verus! {

/// `split` once `update` has been written to it: only its backends differ.
pub open spec fn patched(split: TrafficSplitView, update: FailoverUpdateView) -> TrafficSplitView {
    TrafficSplitView { spec: TrafficSplitSpecView { backends: update.backends }, ..split }
}

/// The backends of `split` once the decision has been carried out: those of
/// the update if there is one, else those observed.
pub open spec fn settled(split: TrafficSplitView, endpoints: Seq<EndpointsView>) -> Seq<BackendView> {
    match decide(split, endpoints) {
        OutcomeView::Patch(update) => update.backends,
        _ => split.spec.backends,
    }
}

/// A decision is never taken twice: once its update has been written, the
/// same traffic split against the same endpoints needs no further update.
pub proof fn lemma_decide_idempotent(split: TrafficSplitView, endpoints: Seq<EndpointsView>)
    ensures
        decide(split, endpoints) matches OutcomeView::Patch(update) ==> decide(
            patched(split, update),
            endpoints,
        ) == OutcomeView::Unchanged,
{
    if let OutcomeView::Patch(update) = decide(split, endpoints) {
        let primary = primary_service(split)->0;
        let after = patched(split, update);
        assert(primary_service(after) == Some(primary));
        let desired = desired_backends(split, primary, endpoints);
        assert(desired_backends(after, primary, endpoints) =~= desired);
        assert(!changed(desired, desired));
    }
}

/// The store with the update of a decision written back to it yields no
/// further update for the same traffic split.
pub proof fn lemma_reconcile_idempotent(
    target: ObjectRefView,
    splits: Seq<TrafficSplitView>,
    endpoints: Seq<EndpointsView>,
)
    requires
        distinct::<TrafficSplit>(splits),
    ensures
        reconcile(target, splits, endpoints) matches OutcomeView::Patch(update) ==> reconcile(
            target,
            upserted::<TrafficSplit>(splits, patched(lookup::<TrafficSplit>(splits, target)->0, update)),
            endpoints,
        ) == OutcomeView::Unchanged,
{
    if let OutcomeView::Patch(update) = reconcile(target, splits, endpoints) {
        let p = position::<TrafficSplit>(splits, target);
        assert(first_at::<TrafficSplit>(splits, target, p));
        let split = splits[p];
        let after = patched(split, update);
        assert(TrafficSplit::key(after) == target);
        let written = upserted::<TrafficSplit>(splits, after);
        assert(written == splits.update(p, after));
        lemma_upserted_distinct::<TrafficSplit>(splits, after);
        lemma_position_unique::<TrafficSplit>(written, target, p);
        lemma_decide_idempotent(split, endpoints);
    }
}

/// While the primary backend is ready, it ends at weight 1 and every other
/// backend at weight 0.
pub proof fn lemma_primary_preferred(
    split: TrafficSplitView,
    primary: Seq<char>,
    endpoints: Seq<EndpointsView>,
)
    requires
        primary_service(split) == Some(primary),
        ready(endpoints, split.namespace, primary),
    ensures
        settled(split, endpoints).len() == split.spec.backends.len(),
        forall|i: int|
            0 <= i < split.spec.backends.len() ==> (#[trigger] settled(split, endpoints)[i]).weight
                == (if split.spec.backends[i].service == primary {
                1u32
            } else {
                0u32
            }),
{
    let observed = split.spec.backends;
    let desired = desired_backends(split, primary, endpoints);
    let after = settled(split, endpoints);
    assert forall|i: int| 0 <= i < observed.len() implies (#[trigger] after[i]).weight
        == desired[i].weight by {
        if !changed(observed, desired) {
            assert(after == observed);
            if desired[i].weight != observed[i].weight {
                assert(changed(observed, desired));
            }
        }
    }
}

/// While the primary backend is not ready, every backend whose service is
/// ready ends at weight 1 and every other backend at weight 0.
pub proof fn lemma_fallback_spread(
    split: TrafficSplitView,
    primary: Seq<char>,
    endpoints: Seq<EndpointsView>,
)
    requires
        primary_service(split) == Some(primary),
        !ready(endpoints, split.namespace, primary),
    ensures
        settled(split, endpoints).len() == split.spec.backends.len(),
        forall|i: int|
            0 <= i < split.spec.backends.len() ==> (#[trigger] settled(split, endpoints)[i]).weight
                == (if ready(endpoints, split.namespace, split.spec.backends[i].service) {
                1u32
            } else {
                0u32
            }),
{
    let observed = split.spec.backends;
    let desired = desired_backends(split, primary, endpoints);
    let after = settled(split, endpoints);
    assert forall|i: int| 0 <= i < observed.len() implies (#[trigger] after[i]).weight
        == desired[i].weight by {
        if !changed(observed, desired) {
            assert(after == observed);
            if desired[i].weight != observed[i].weight {
                assert(changed(observed, desired));
            }
        }
    }
}

/// An update lists the services of the observed backends, all of them and
/// in the observed order.
pub proof fn lemma_order_preserved(split: TrafficSplitView, endpoints: Seq<EndpointsView>)
    ensures
        decide(split, endpoints) matches OutcomeView::Patch(update) ==> {
            &&& update.backends.len() == split.spec.backends.len()
            &&& forall|i: int|
                0 <= i < split.spec.backends.len() ==> (#[trigger] update.backends[i]).service
                    == split.spec.backends[i].service
        },
{
}

/// A traffic split that names no primary backend is never written, whatever
/// the endpoints.
pub proof fn lemma_missing_annotation_skips(
    split: TrafficSplitView,
    endpoints: Seq<EndpointsView>,
)
    requires
        primary_service(split) is None,
    ensures
        decide(split, endpoints) == OutcomeView::MissingAnnotation,
{
}

/// Every update that comes of reconsidering traffic splits is the decision
/// for a traffic split that the store holds and that names a primary
/// backend: nothing else is ever written.
pub proof fn lemma_patches_only_stored(
    targets: Seq<ObjectRefView>,
    splits: Seq<TrafficSplitView>,
    endpoints: Seq<EndpointsView>,
)
    ensures
        forall|i: int|
            0 <= i < patches(targets, splits, endpoints).len() ==> {
                let update = #[trigger] patches(targets, splits, endpoints)[i];
                &&& lookup::<TrafficSplit>(splits, update.target) matches Some(split)
                &&& primary_service(split) is Some
                &&& decide(split, endpoints) == OutcomeView::Patch(update)
            },
    decreases targets.len(),
{
    if targets.len() > 0 {
        lemma_patches_only_stored(targets.drop_last(), splits, endpoints);
        let target = targets.last();
        if let OutcomeView::Patch(update) = reconcile(target, splits, endpoints) {
            let p = position::<TrafficSplit>(splits, target);
            assert(first_at::<TrafficSplit>(splits, target, p));
            assert(update.target == target);
        }
    }
}

} // verus!
