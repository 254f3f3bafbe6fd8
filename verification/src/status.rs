//! Which backends of each traffic split receive traffic.
use crate::table::{table_text, Cell, Column, Table};
use crate::traffic_split::{primary_service, BackendView, TrafficSplit, TrafficSplitView};
use vstd::prelude::*;
use vstd::string::StringExecFns;

verus! {

/// Where the traffic of a traffic split goes.
#[derive(Clone, Copy, Debug, PartialEq, Eq)]
pub enum FailoverStatus {
    /// To the primary backend.
    Primary,
    /// To the fallbacks.
    Fallback,
}

/// The word that stands for a status.
pub open spec fn status_label(status: FailoverStatus) -> Seq<char> {
    match status {
        FailoverStatus::Primary => "Primary"@,
        FailoverStatus::Fallback => "Fallback"@,
    }
}

impl FailoverStatus {
    /// The word that stands for this status.
    pub fn label(&self) -> (s: String)
        ensures
            s@ == status_label(*self),
    {
        match self {
            FailoverStatus::Primary => String::from_str("Primary"),
            FailoverStatus::Fallback => String::from_str("Fallback"),
        }
    }
}

/// The state of one traffic split under failover.
#[derive(Debug, PartialEq, Eq)]
pub struct TrafficSplitStatus {
    pub namespace: String,
    pub name: String,
    pub status: FailoverStatus,
    /// The services that receive traffic, in the order of the backends.
    pub services: Vec<String>,
}

/// The mathematical value of a [`TrafficSplitStatus`].
pub ghost struct TrafficSplitStatusView {
    pub namespace: Seq<char>,
    pub name: Seq<char>,
    pub status: FailoverStatus,
    pub services: Seq<Seq<char>>,
}

impl DeepView for TrafficSplitStatus {
    type V = TrafficSplitStatusView;

    open spec fn deep_view(&self) -> TrafficSplitStatusView {
        TrafficSplitStatusView {
            namespace: self.namespace@,
            name: self.name@,
            status: self.status,
            services: self.services.deep_view(),
        }
    }
}

impl View for TrafficSplitStatus {
    type V = TrafficSplitStatusView;

    open spec fn view(&self) -> TrafficSplitStatusView {
        self.deep_view()
    }
}

/// The services of the backends with a weight above 0, in order.
pub open spec fn active_services(backends: Seq<BackendView>) -> Seq<Seq<char>>
    decreases backends.len(),
{
    if backends.len() == 0 {
        Seq::empty()
    } else if backends.last().weight > 0 {
        active_services(backends.drop_last()).push(backends.last().service)
    } else {
        active_services(backends.drop_last())
    }
}

/// The state of `split`, if it is under failover, that is, if it names a
/// primary backend: the traffic goes to the primary exactly when the primary
/// is among the services that receive traffic.
pub open spec fn status_of(split: TrafficSplitView) -> Option<TrafficSplitStatusView> {
    match primary_service(split) {
        None => None,
        Some(primary) => {
            let services = active_services(split.spec.backends);
            Some(
                TrafficSplitStatusView {
                    namespace: split.namespace,
                    name: split.name,
                    status: if services.contains(primary) {
                        FailoverStatus::Primary
                    } else {
                        FailoverStatus::Fallback
                    },
                    services,
                },
            )
        },
    }
}

/// The states of those of `splits` that are under failover, in order.
pub open spec fn statuses(splits: Seq<TrafficSplitView>) -> Seq<TrafficSplitStatusView>
    decreases splits.len(),
{
    if splits.len() == 0 {
        Seq::empty()
    } else {
        match status_of(splits.last()) {
            Some(found) => statuses(splits.drop_last()).push(found),
            None => statuses(splits.drop_last()),
        }
    }
}

/// The services of the backends of `ts` that receive traffic.
pub fn active_backends(ts: &TrafficSplit) -> (r: Vec<String>)
    ensures
        r.deep_view() == active_services(ts@.spec.backends),
{
    let ghost backends = ts@.spec.backends;
    let mut out: Vec<String> = Vec::new();
    let mut i: usize = 0;
    assert(backends.take(0) =~= Seq::<BackendView>::empty());
    assert(out.deep_view() =~= Seq::<Seq<char>>::empty());
    while i < ts.spec.backends.len()
        invariant
            i <= ts.spec.backends.len(),
            backends == ts.spec.backends.deep_view(),
            out.deep_view() == active_services(backends.take(i as int)),
        decreases ts.spec.backends.len() - i,
    {
        let ghost before = out.deep_view();
        proof {
            let next = backends.take(i + 1);
            assert(next.drop_last() =~= backends.take(i as int));
            assert(next.last() == ts.spec.backends[i as int]@);
        }
        if ts.spec.backends[i].weight > 0 {
            out.push(ts.spec.backends[i].service.clone());
            assert(out.deep_view() =~= before.push(ts.spec.backends[i as int]@.service));
        }
        i += 1;
    }
    assert(backends.take(ts.spec.backends.len() as int) =~= backends);
    out
}

/// Whether `name` is among `services`.
fn lists(services: &Vec<String>, name: &String) -> (b: bool)
    ensures
        b == services.deep_view().contains(name@),
{
    let mut i: usize = 0;
    while i < services.len()
        invariant
            i <= services.len(),
            forall|j: int| 0 <= j < i ==> services.deep_view()[j] != name@,
        decreases services.len() - i,
    {
        if services[i] == *name {
            assert(services.deep_view()[i as int] == name@);
            return true;
        }
        i += 1;
    }
    false
}

/// The states of the given traffic splits, in order. Traffic splits that
/// name no primary backend are not under failover and are left out.
pub fn status(traffic_splits: &Vec<TrafficSplit>) -> (r: Vec<TrafficSplitStatus>)
    ensures
        r.deep_view() == statuses(traffic_splits.deep_view()),
{
    let ghost splits = traffic_splits.deep_view();
    let mut out: Vec<TrafficSplitStatus> = Vec::new();
    let mut i: usize = 0;
    assert(splits.take(0) =~= Seq::<TrafficSplitView>::empty());
    assert(out.deep_view() =~= Seq::<TrafficSplitStatusView>::empty());
    while i < traffic_splits.len()
        invariant
            i <= traffic_splits.len(),
            splits == traffic_splits.deep_view(),
            out.deep_view() == statuses(splits.take(i as int)),
        decreases traffic_splits.len() - i,
    {
        let ghost before = out.deep_view();
        let ts = &traffic_splits[i];
        proof {
            let next = splits.take(i + 1);
            assert(next.drop_last() =~= splits.take(i as int));
            assert(next.last() == ts@);
        }
        match ts.primary_service() {
            Some(primary) => {
                let services = active_backends(ts);
                let status = if lists(&services, primary) {
                    FailoverStatus::Primary
                } else {
                    FailoverStatus::Fallback
                };
                let found = TrafficSplitStatus {
                    namespace: ts.namespace.clone(),
                    name: ts.name.clone(),
                    status,
                    services,
                };
                assert(Some(found@) == status_of(ts@));
                out.push(found);
                assert(out.deep_view() =~= before.push(found@));
            },
            None => {},
        }
        i += 1;
    }
    assert(splits.take(traffic_splits.len() as int) =~= splits);
    out
}

/// The given texts one after the other, with `separator` between each two.
pub open spec fn joined(parts: Seq<Seq<char>>, separator: Seq<char>) -> Seq<char>
    decreases parts.len(),
{
    if parts.len() == 0 {
        Seq::empty()
    } else if parts.len() == 1 {
        parts[0]
    } else {
        joined(parts.drop_last(), separator) + separator + parts.last()
    }
}

/// Joins the given texts, with `separator` between each two.
pub fn join(parts: &Vec<String>, separator: &str) -> (r: String)
    ensures
        r@ == joined(parts.deep_view(), separator@),
{
    let ghost all = parts.deep_view();
    let mut out = String::new();
    let mut i: usize = 0;
    assert(all.take(0) =~= Seq::<Seq<char>>::empty());
    while i < parts.len()
        invariant
            i <= parts.len(),
            all == parts.deep_view(),
            out@ == joined(all.take(i as int), separator@),
        decreases parts.len() - i,
    {
        proof {
            let next = all.take(i + 1);
            assert(next.drop_last() =~= all.take(i as int));
            assert(next.last() == parts[i as int]@);
            if i == 0 {
                assert(next[0] == parts[i as int]@);
                assert(out@ + parts[i as int]@ =~= parts[i as int]@);
            }
        }
        if i > 0 {
            out.append(separator);
        }
        out.append(parts[i].as_str());
        i += 1;
    }
    assert(all.take(parts.len() as int) =~= all);
    out
}

/// The columns of the table of states.
#[derive(Clone, Copy, Debug, PartialEq, Eq)]
pub enum StatusField {
    Namespace,
    TrafficSplit,
    Status,
    ActiveBackends,
}

/// What stands in the given column of the table of states for `row`.
pub open spec fn field_text(field: StatusField, row: TrafficSplitStatusView) -> Seq<char> {
    match field {
        StatusField::Namespace => row.namespace,
        StatusField::TrafficSplit => row.name,
        StatusField::Status => status_label(row.status),
        StatusField::ActiveBackends => joined(row.services, ", "@),
    }
}

impl Cell for StatusField {
    type Row = TrafficSplitStatus;

    open spec fn text(&self, row: &TrafficSplitStatus) -> Seq<char> {
        field_text(*self, row@)
    }

    fn cell(&self, row: &TrafficSplitStatus) -> (s: String) {
        match self {
            StatusField::Namespace => row.namespace.clone(),
            StatusField::TrafficSplit => row.name.clone(),
            StatusField::Status => row.status.label(),
            StatusField::ActiveBackends => join(&row.services, ", "),
        }
    }
}

/// The titles of the table of states.
pub open spec fn status_titles() -> Seq<Seq<char>> {
    seq!["NAMESPACE"@, "TRAFFIC_SPLIT"@, "STATUS"@, "ACTIVE_BACKENDS"@]
}

/// The cells of the line of the table of states that shows `row`.
pub open spec fn status_cells(row: TrafficSplitStatusView) -> Seq<Seq<char>> {
    seq![
        field_text(StatusField::Namespace, row),
        field_text(StatusField::TrafficSplit, row),
        field_text(StatusField::Status, row),
        field_text(StatusField::ActiveBackends, row),
    ]
}

/// The table of states as text.
pub open spec fn status_table(results: Seq<TrafficSplitStatusView>) -> Seq<char> {
    table_text(status_titles(), Seq::new(results.len(), |r: int| status_cells(results[r])))
}

/// Lays the given states out as a table: one line of titles, then one line
/// for each state.
pub fn print_status(results: &[TrafficSplitStatus]) -> (out: String)
    ensures
        out@ == status_table(results.deep_view()),
{
    let mut columns: Vec<Column<StatusField>> = Vec::new();
    columns.push(Column::new("NAMESPACE", StatusField::Namespace));
    columns.push(Column::new("TRAFFIC_SPLIT", StatusField::TrafficSplit));
    columns.push(Column::new("STATUS", StatusField::Status));
    columns.push(Column::new("ACTIVE_BACKENDS", StatusField::ActiveBackends));
    let table = Table { cols: columns, data: results };
    proof {
        assert(table.titles() =~= status_titles());
        let rows = Seq::new(
            results.deep_view().len(),
            |r: int| status_cells(results.deep_view()[r]),
        );
        assert(table.cells().len() == rows.len());
        assert forall|r: int| 0 <= r < rows.len() implies #[trigger] table.cells()[r]
            == rows[r] by {
            assert(table.cells()[r] =~= rows[r]);
        }
        assert(table.cells() =~= rows);
    }
    table.render()
}

} // verus!
