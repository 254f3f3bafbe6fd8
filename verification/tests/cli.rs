use linkerd_failover::check::{
    deploy_check, json_print_checks, namespace_check, print_checks, run_checks,
    traffic_split_check, CheckResult, CheckRun, CheckStatus, Deployment, Probe, Reply,
};
use linkerd_failover::status::{
    active_backends, join, print_status, status, FailoverStatus, StatusField, TrafficSplitStatus,
};
use linkerd_failover::table::{pad, Cell, Column, Table, PADDING};
use linkerd_failover::traffic_split::{Annotation, Backend, TrafficSplit, TrafficSplitSpec};

const TROUBLESHOOTING: &str = "https://github.com/linkerd/linkerd-failover#troubleshooting";

fn expect(
    result: &CheckResult,
    description: &str,
    status: CheckStatus,
    error: Option<&str>,
    hint: Option<&str>,
) {
    assert_eq!(result.description(), description);
    assert_eq!(result.result(), status);
    assert_eq!(result.success(), status == CheckStatus::Success);
    assert_eq!(result.error().map(String::as_str), error);
    assert_eq!(result.hint(), hint);
}

#[test]
fn traffic_split_check_reads_the_lookup() {
    let description = "TrafficSplit CRD exists";
    expect(&traffic_split_check(Ok(Some(()))), description, CheckStatus::Success, None, None);
    expect(
        &traffic_split_check(Ok(None)),
        description,
        CheckStatus::Error,
        Some("TrafficSplit CRD is not installed"),
        Some("https://github.com/linkerd/linkerd-smi"),
    );
    expect(
        &traffic_split_check(Err("connection refused".to_owned())),
        description,
        CheckStatus::Error,
        Some("connection refused"),
        Some(TROUBLESHOOTING),
    );
}

#[test]
fn namespace_check_wants_exactly_one_namespace() {
    let description = "failover extension namespace exists";
    let (one, name) = namespace_check(Ok(vec!["linkerd-failover".to_owned()]));
    expect(&one, description, CheckStatus::Success, None, None);
    assert_eq!(name, Some("linkerd-failover".to_owned()));

    let (none, name) = namespace_check(Ok(vec![]));
    expect(
        &none,
        description,
        CheckStatus::Error,
        Some("Failover namespace not found"),
        Some(TROUBLESHOOTING),
    );
    assert_eq!(name, None);

    let (many, name) = namespace_check(Ok(vec!["a".to_owned(), "b".to_owned()]));
    expect(
        &many,
        description,
        CheckStatus::Error,
        Some("Multiple failover namespaces found"),
        Some(TROUBLESHOOTING),
    );
    assert_eq!(name, None);

    let (failed, name) = namespace_check(Err("forbidden".to_owned()));
    expect(&failed, description, CheckStatus::Error, Some("forbidden"), Some(TROUBLESHOOTING));
    assert_eq!(name, None);
}

#[test]
fn deploy_check_wants_an_available_replica() {
    let description = "failover controller is healthy";
    let up = Deployment { available_replicas: Some(1) };
    expect(&deploy_check(Ok(Some(up))), description, CheckStatus::Success, None, None);
    for replicas in [Some(0), Some(-1), None] {
        let down = Deployment { available_replicas: replicas };
        expect(
            &deploy_check(Ok(Some(down))),
            description,
            CheckStatus::Error,
            Some("linkerd-failover deployment has no available replicas"),
            Some(TROUBLESHOOTING),
        );
    }
    expect(
        &deploy_check(Ok(None)),
        description,
        CheckStatus::Error,
        Some("linkerd-failover deployment not found"),
        Some(TROUBLESHOOTING),
    );
    expect(
        &deploy_check(Err("timeout".to_owned())),
        description,
        CheckStatus::Error,
        Some("timeout"),
        Some(TROUBLESHOOTING),
    );
}

#[test]
fn checks_before_an_installation_stop_after_the_definition() {
    let run = CheckRun::new(true);
    assert_eq!(run.next, Probe::Definition);
    assert!(run.results.is_empty());
    let run = run_checks(run, Reply::Definition(Ok(Some(()))));
    assert_eq!(run.next, Probe::Nothing);
    assert_eq!(run.results.len(), 1);
    assert!(run.results[0].success());
}

#[test]
fn checks_of_an_installation_go_on_to_the_deployment() {
    let run = CheckRun::new(false);
    let run = run_checks(run, Reply::Definition(Ok(None)));
    assert_eq!(run.next, Probe::Namespaces);
    // An answer to another question changes nothing.
    let run = run_checks(run, Reply::Deployment(Ok(None)));
    assert_eq!(run.next, Probe::Namespaces);
    assert_eq!(run.results.len(), 1);
    let run = run_checks(run, Reply::Namespaces(Ok(vec!["linkerd-failover".to_owned()])));
    assert_eq!(run.next, Probe::Deployment("linkerd-failover".to_owned()));
    let up = Deployment { available_replicas: Some(2) };
    let run = run_checks(run, Reply::Deployment(Ok(Some(up))));
    assert_eq!(run.next, Probe::Nothing);
    let passed: Vec<bool> = run.results.iter().map(CheckResult::success).collect();
    assert_eq!(passed, vec![false, true, true]);
    let run = run_checks(run, Reply::Definition(Ok(None)));
    assert_eq!(run.results.len(), 3);
}

#[test]
fn checks_without_a_namespace_skip_the_deployment() {
    let run = run_checks(CheckRun::new(false), Reply::Definition(Ok(Some(()))));
    let run = run_checks(run, Reply::Namespaces(Ok(vec![])));
    assert_eq!(run.next, Probe::Nothing);
    assert_eq!(run.results.len(), 2);
    assert!(!run.results[1].success());
}

#[test]
fn report_of_passed_checks() {
    let results = vec![traffic_split_check(Ok(Some(()))), namespace_check(Ok(vec!["ns".to_owned()])).0];
    let (text, success) = print_checks(&results);
    assert!(success);
    assert_eq!(
        text,
        "linkerd-failover\n\
         ----------------\n\
         √ TrafficSplit CRD exists\n\
         √ failover extension namespace exists\n\
         \n\
         Status check results are √\n"
    );
}

#[test]
fn report_of_failed_checks() {
    let results = vec![
        traffic_split_check(Ok(None)),
        namespace_check(Ok(vec!["ns".to_owned()])).0,
        deploy_check(Err("boom".to_owned())),
    ];
    let (text, success) = print_checks(&results);
    assert!(!success);
    assert_eq!(
        text,
        "linkerd-failover\n\
         ----------------\n\
         × TrafficSplit CRD exists\n\
         \x20   TrafficSplit CRD is not installed\n\
         \x20   see https://github.com/linkerd/linkerd-smi for hints\n\
         √ failover extension namespace exists\n\
         × failover controller is healthy\n\
         \x20   boom\n\
         \x20   see https://github.com/linkerd/linkerd-failover#troubleshooting for hints\n\
         \n\
         Status check results are ×\n"
    );
}

#[test]
fn report_of_no_checks() {
    let (text, success) = print_checks(&vec![]);
    assert!(success);
    assert_eq!(text, "linkerd-failover\n----------------\n\nStatus check results are √\n");
}

#[test]
fn document_of_checks_has_one_category() {
    let output = json_print_checks(vec![traffic_split_check(Ok(Some(()))), deploy_check(Ok(None))]);
    assert!(!output.success);
    assert_eq!(output.categories.len(), 1);
    assert_eq!(output.categories[0].category_name, "linkerd-failover");
    assert_eq!(output.categories[0].checks.len(), 2);
    assert!(output.categories[0].checks[0].success());
    assert!(!output.categories[0].checks[1].success());

    let output = json_print_checks(vec![traffic_split_check(Ok(Some(())))]);
    assert!(output.success);
    assert!(json_print_checks(vec![]).success);
}

fn backend(service: &str, weight: u32) -> Backend {
    Backend { service: service.to_owned(), weight }
}

fn split(namespace: &str, name: &str, primary: Option<&str>, backends: Vec<Backend>) -> TrafficSplit {
    TrafficSplit {
        name: name.to_owned(),
        namespace: namespace.to_owned(),
        annotations: primary
            .map(|p| Annotation {
                key: "failover.linkerd.io/primary-service".to_owned(),
                value: p.to_owned(),
            })
            .into_iter()
            .collect(),
        spec: TrafficSplitSpec { backends },
    }
}

#[test]
fn active_backends_are_those_with_weight() {
    let ts = split(
        "ns",
        "ts",
        Some("a"),
        vec![backend("a", 0), backend("b", 1), backend("c", 0), backend("d", 100)],
    );
    assert_eq!(active_backends(&ts), vec!["b".to_owned(), "d".to_owned()]);
    assert_eq!(active_backends(&split("ns", "ts", None, vec![])), Vec::<String>::new());
}

#[test]
fn status_tells_primary_from_fallback() {
    let splits = vec![
        split("ns", "on-primary", Some("a"), vec![backend("a", 1), backend("b", 0)]),
        split("ns", "unmanaged", None, vec![backend("a", 1)]),
        split("other", "failed-over", Some("a"), vec![backend("a", 0), backend("b", 1), backend("c", 1)]),
        split("other", "dark", Some("a"), vec![backend("a", 0)]),
    ];
    assert_eq!(
        status(&splits),
        vec![
            TrafficSplitStatus {
                namespace: "ns".to_owned(),
                name: "on-primary".to_owned(),
                status: FailoverStatus::Primary,
                services: vec!["a".to_owned()],
            },
            TrafficSplitStatus {
                namespace: "other".to_owned(),
                name: "failed-over".to_owned(),
                status: FailoverStatus::Fallback,
                services: vec!["b".to_owned(), "c".to_owned()],
            },
            TrafficSplitStatus {
                namespace: "other".to_owned(),
                name: "dark".to_owned(),
                status: FailoverStatus::Fallback,
                services: vec![],
            },
        ]
    );
}

#[test]
fn status_labels() {
    assert_eq!(FailoverStatus::Primary.label(), "Primary");
    assert_eq!(FailoverStatus::Fallback.label(), "Fallback");
}

#[test]
fn join_puts_the_separator_between() {
    assert_eq!(join(&vec![], ", "), "");
    assert_eq!(join(&vec!["a".to_owned()], ", "), "a");
    assert_eq!(join(&vec!["a".to_owned(), "b".to_owned(), "c".to_owned()], ", "), "a, b, c");
    assert_eq!(join(&vec!["".to_owned(), "".to_owned()], "-"), "-");
}

#[test]
fn pad_fills_up_to_the_width_in_characters() {
    assert_eq!(pad("abc", 5), "abc  ");
    assert_eq!(pad("abc", 3), "abc");
    assert_eq!(pad("abc", 0), "abc");
    assert_eq!(pad("", 2), "  ");
    assert_eq!(pad("é", 3), format!("{:3}", "é"));
    assert_eq!(pad("é", 3), "é  ");
}

fn rows() -> Vec<TrafficSplitStatus> {
    vec![
        TrafficSplitStatus {
            namespace: "default".to_owned(),
            name: "ts0".to_owned(),
            status: FailoverStatus::Primary,
            services: vec!["primary".to_owned()],
        },
        TrafficSplitStatus {
            namespace: "a-rather-long-namespace".to_owned(),
            name: "ts1".to_owned(),
            status: FailoverStatus::Fallback,
            services: vec!["secondary".to_owned(), "tertiary".to_owned()],
        },
    ]
}

#[test]
fn column_is_as_wide_as_its_widest_cell_and_the_padding() {
    assert_eq!(PADDING, 3);
    let namespace = Column::new("NAMESPACE", StatusField::Namespace);
    assert_eq!(namespace.header(), "NAMESPACE");
    assert_eq!(namespace.cell(&rows()[0]), "default");
    assert_eq!(namespace.width(&[]), 12);
    assert_eq!(namespace.width(&rows()[..1]), 12);
    assert_eq!(namespace.width(&rows()), 26);
    let status = Column::new("STATUS", StatusField::Status);
    assert_eq!(status.width(&rows()[..1]), 10);
    assert_eq!(status.width(&rows()), 11);
}

#[test]
fn column_width_counts_bytes() {
    let mut row = rows().remove(0);
    row.namespace = "éééééééééé".to_owned();
    let namespace = Column::new("NAMESPACE", StatusField::Namespace);
    assert_eq!(namespace.width(&[row]), 23);
}

#[test]
fn cells_of_a_status() {
    let row = &rows()[1];
    assert_eq!(StatusField::Namespace.cell(row), "a-rather-long-namespace");
    assert_eq!(StatusField::TrafficSplit.cell(row), "ts1");
    assert_eq!(StatusField::Status.cell(row), "Fallback");
    assert_eq!(StatusField::ActiveBackends.cell(row), "secondary, tertiary");
}

#[test]
fn table_pads_every_cell_to_its_column() {
    let data = rows();
    let table = Table {
        cols: vec![
            Column::new("NAMESPACE", StatusField::Namespace),
            Column::new("STATUS", StatusField::Status),
        ],
        data: &data,
    };
    let expected = format!(
        "{:26}{:11}\n{:26}{:11}\n{:26}{:11}\n",
        "NAMESPACE", "STATUS", "default", "Primary", "a-rather-long-namespace", "Fallback"
    );
    assert_eq!(table.render(), expected);
}

#[test]
fn table_without_rows_is_its_headers() {
    let data: Vec<TrafficSplitStatus> = vec![];
    let table = Table { cols: vec![Column::new("STATUS", StatusField::Status)], data: &data };
    assert_eq!(table.render(), "STATUS   \n");
    let bare: Table<'_, StatusField> = Table { cols: vec![], data: &data };
    assert_eq!(bare.render(), "\n");
}

#[test]
fn table_of_states() {
    let expected = "\
NAMESPACE                 TRAFFIC_SPLIT   STATUS     ACTIVE_BACKENDS       \n\
default                   ts0             Primary    primary               \n\
a-rather-long-namespace   ts1             Fallback   secondary, tertiary   \n";
    assert_eq!(print_status(&rows()), expected);
    assert_eq!(
        print_status(&[]),
        "NAMESPACE   TRAFFIC_SPLIT   STATUS   ACTIVE_BACKENDS   \n"
    );
}
