//! Health checks of an installation, and their report.
use vstd::prelude::*;
use vstd::string::StrSliceExecFns;
use vstd::string::StringExecFns;

verus! {

/// The mark that stands before a check that passed.
pub const CHECK: &'static str = "√";

/// The mark that stands before a check that failed.
pub const EX: &'static str = "×";

/// The category that all checks belong to.
pub const CATEGORY: &'static str = "linkerd-failover";

/// Where to read on when a check other than the first fails.
pub const TROUBLESHOOTING: &'static str =
    "https://github.com/linkerd/linkerd-failover#troubleshooting";

/// Where to find the extension that defines traffic splits.
pub const SMI_HINT: &'static str = "https://github.com/linkerd/linkerd-smi";

/// Whether a check passed.
#[derive(Clone, Copy, Debug, PartialEq, Eq)]
pub enum CheckStatus {
    Success,
    Error,
}

/// The result of one check.
#[derive(Debug, PartialEq, Eq)]
pub struct CheckResult {
    description: &'static str,
    result: CheckStatus,
    hint: Option<&'static str>,
    error: Option<String>,
}

/// The mathematical value of a [`CheckResult`].
pub ghost struct CheckResultView {
    pub description: Seq<char>,
    pub result: CheckStatus,
    pub hint: Option<Seq<char>>,
    pub error: Option<Seq<char>>,
}

impl DeepView for CheckResult {
    type V = CheckResultView;

    closed spec fn deep_view(&self) -> CheckResultView {
        CheckResultView {
            description: self.description@,
            result: self.result,
            hint: match self.hint {
                Some(hint) => Some(hint@),
                None => None,
            },
            error: self.error.deep_view(),
        }
    }
}

impl View for CheckResult {
    type V = CheckResultView;

    open spec fn view(&self) -> CheckResultView {
        self.deep_view()
    }
}

/// A check that passed.
pub open spec fn passed(description: Seq<char>) -> CheckResultView {
    CheckResultView { description, result: CheckStatus::Success, hint: None, error: None }
}

/// A check that failed with `error`; `hint` says where to read on.
pub open spec fn failed(description: Seq<char>, error: Seq<char>, hint: Seq<char>) -> CheckResultView {
    CheckResultView {
        description,
        result: CheckStatus::Error,
        hint: Some(hint),
        error: Some(error),
    }
}

impl CheckResult {
    /// Whether the check passed.
    pub fn success(&self) -> (b: bool)
        ensures
            b == (self@.result == CheckStatus::Success),
    {
        match self.result {
            CheckStatus::Success => true,
            CheckStatus::Error => false,
        }
    }

    /// What was checked.
    pub fn description(&self) -> (s: &'static str)
        ensures
            s@ == self@.description,
    {
        self.description
    }

    /// Whether the check passed.
    pub fn result(&self) -> (r: CheckStatus)
        ensures
            r == self@.result,
    {
        self.result
    }

    /// Where to read on, for a check that failed.
    pub fn hint(&self) -> (h: Option<&'static str>)
        ensures
            h.deep_view() == self@.hint,
    {
        self.hint
    }

    /// What went wrong, for a check that failed.
    pub fn error(&self) -> (e: Option<&String>)
        ensures
            e.deep_view() == self@.error,
    {
        match &self.error {
            Some(error) => Some(error),
            None => None,
        }
    }

    /// A check that passed.
    fn pass(description: &'static str) -> (r: CheckResult)
        ensures
            r@ == passed(description@),
    {
        CheckResult { description, result: CheckStatus::Success, hint: None, error: None }
    }

    /// A check that failed.
    fn fail(description: &'static str, error: String, hint: &'static str) -> (r: CheckResult)
        ensures
            r@ == failed(description@, error@, hint@),
    {
        CheckResult {
            description,
            result: CheckStatus::Error,
            hint: Some(hint),
            error: Some(error),
        }
    }
}

/// What a lookup in the cluster came to: the object if there is one, or the
/// message of the error that the lookup met.
pub type Lookup<T> = Result<Option<T>, String>;

/// The result of the check that the definition of traffic splits exists,
/// given what the lookup of the definition came to.
pub open spec fn traffic_split_checked(found: Result<Option<()>, Seq<char>>) -> CheckResultView {
    let description = "TrafficSplit CRD exists"@;
    match found {
        Ok(Some(_)) => passed(description),
        Ok(None) => failed(description, "TrafficSplit CRD is not installed"@, SMI_HINT@),
        Err(message) => failed(description, message, TROUBLESHOOTING@),
    }
}

/// What `found` is as a mathematical value.
pub open spec fn definition_lookup(found: Lookup<()>) -> Result<Option<()>, Seq<char>> {
    match found {
        Ok(definition) => Ok(definition),
        Err(message) => Err(message@),
    }
}

/// Checks that the definition of traffic splits exists, given what the lookup
/// of the definition came to.
pub fn traffic_split_check(found: Lookup<()>) -> (r: CheckResult)
    ensures
        r@ == traffic_split_checked(definition_lookup(found)),
{
    let description = "TrafficSplit CRD exists";
    match found {
        Ok(Some(_)) => CheckResult::pass(description),
        Ok(None) => CheckResult::fail(
            description,
            String::from_str("TrafficSplit CRD is not installed"),
            SMI_HINT,
        ),
        Err(message) => CheckResult::fail(description, message, TROUBLESHOOTING),
    }
}

/// The result of the check that the extension has exactly one namespace,
/// given the names of the namespaces that carry its label, or the message of
/// the error that listing them met.
pub open spec fn namespace_checked(found: Result<Seq<Seq<char>>, Seq<char>>) -> (
    CheckResultView,
    Option<Seq<char>>,
) {
    let description = "failover extension namespace exists"@;
    match found {
        Ok(names) => if names.len() == 1 {
            (passed(description), Some(names[0]))
        } else if names.len() == 0 {
            (failed(description, "Failover namespace not found"@, TROUBLESHOOTING@), None)
        } else {
            (failed(description, "Multiple failover namespaces found"@, TROUBLESHOOTING@), None)
        },
        Err(message) => (failed(description, message, TROUBLESHOOTING@), None),
    }
}

/// What `found` is as a mathematical value.
pub open spec fn namespaces_listed(found: Result<Vec<String>, String>) -> Result<
    Seq<Seq<char>>,
    Seq<char>,
> {
    match found {
        Ok(names) => Ok(names.deep_view()),
        Err(message) => Err(message@),
    }
}

/// Checks that the extension has exactly one namespace, and gives its name
/// if so.
pub fn namespace_check(found: Result<Vec<String>, String>) -> (r: (CheckResult, Option<String>))
    ensures
        r.0@ == namespace_checked(namespaces_listed(found)).0,
        r.1.deep_view() == namespace_checked(namespaces_listed(found)).1,
{
    let description = "failover extension namespace exists";
    match found {
        Ok(names) => {
            if names.len() == 1 {
                (CheckResult::pass(description), Some(names[0].clone()))
            } else if names.len() == 0 {
                (
                    CheckResult::fail(
                        description,
                        String::from_str("Failover namespace not found"),
                        TROUBLESHOOTING,
                    ),
                    None,
                )
            } else {
                (
                    CheckResult::fail(
                        description,
                        String::from_str("Multiple failover namespaces found"),
                        TROUBLESHOOTING,
                    ),
                    None,
                )
            }
        },
        Err(message) => (CheckResult::fail(description, message, TROUBLESHOOTING), None),
    }
}

/// What the checks read off the deployment of the controller.
#[derive(Clone, Copy, Debug, PartialEq, Eq)]
pub struct Deployment {
    /// The number of available replicas, where the deployment has a status
    /// that reports one.
    pub available_replicas: Option<i32>,
}

/// The result of the check that the controller runs, given what the lookup
/// of its deployment came to.
pub open spec fn deploy_checked(found: Result<Option<Deployment>, Seq<char>>) -> CheckResultView {
    let description = "failover controller is healthy"@;
    match found {
        Ok(Some(deployment)) => if deployment.available_replicas matches Some(replicas)
            && replicas > 0 {
            passed(description)
        } else {
            failed(
                description,
                "linkerd-failover deployment has no available replicas"@,
                TROUBLESHOOTING@,
            )
        },
        Ok(None) => failed(
            description,
            "linkerd-failover deployment not found"@,
            TROUBLESHOOTING@,
        ),
        Err(message) => failed(description, message, TROUBLESHOOTING@),
    }
}

/// What `found` is as a mathematical value.
pub open spec fn deployment_lookup(found: Lookup<Deployment>) -> Result<
    Option<Deployment>,
    Seq<char>,
> {
    match found {
        Ok(deployment) => Ok(deployment),
        Err(message) => Err(message@),
    }
}

/// Checks that the controller runs: its deployment exists and has at least
/// one available replica.
pub fn deploy_check(found: Lookup<Deployment>) -> (r: CheckResult)
    ensures
        r@ == deploy_checked(deployment_lookup(found)),
{
    let description = "failover controller is healthy";
    match found {
        Ok(Some(deployment)) => {
            let has_available_replicas: bool = match deployment.available_replicas {
                Some(replicas) => replicas > 0,
                None => false,
            };
            if has_available_replicas {
                CheckResult::pass(description)
            } else {
                CheckResult::fail(
                    description,
                    String::from_str("linkerd-failover deployment has no available replicas"),
                    TROUBLESHOOTING,
                )
            }
        },
        Ok(None) => CheckResult::fail(
            description,
            String::from_str("linkerd-failover deployment not found"),
            TROUBLESHOOTING,
        ),
        Err(message) => CheckResult::fail(description, message, TROUBLESHOOTING),
    }
}

/// What a run of the checks looks up next.
#[derive(Debug, PartialEq, Eq)]
pub enum Probe {
    /// The definition of traffic splits.
    Definition,
    /// The namespaces that carry the label of the extension.
    Namespaces,
    /// The deployment of the controller, in the namespace of this name.
    Deployment(String),
    /// Nothing: the run is over.
    Nothing,
}

/// The mathematical value of a [`Probe`].
pub ghost enum ProbeView {
    Definition,
    Namespaces,
    Deployment(Seq<char>),
    Nothing,
}

impl DeepView for Probe {
    type V = ProbeView;

    open spec fn deep_view(&self) -> ProbeView {
        match self {
            Probe::Definition => ProbeView::Definition,
            Probe::Namespaces => ProbeView::Namespaces,
            Probe::Deployment(namespace) => ProbeView::Deployment(namespace@),
            Probe::Nothing => ProbeView::Nothing,
        }
    }
}

impl View for Probe {
    type V = ProbeView;

    open spec fn view(&self) -> ProbeView {
        self.deep_view()
    }
}

/// What the cluster answered to a [`Probe`].
#[derive(Debug, PartialEq, Eq)]
pub enum Reply {
    Definition(Lookup<()>),
    Namespaces(Result<Vec<String>, String>),
    Deployment(Lookup<Deployment>),
}

/// The mathematical value of a [`Reply`].
pub ghost enum ReplyView {
    Definition(Result<Option<()>, Seq<char>>),
    Namespaces(Result<Seq<Seq<char>>, Seq<char>>),
    Deployment(Result<Option<Deployment>, Seq<char>>),
}

impl DeepView for Reply {
    type V = ReplyView;

    open spec fn deep_view(&self) -> ReplyView {
        match self {
            Reply::Definition(found) => ReplyView::Definition(definition_lookup(*found)),
            Reply::Namespaces(found) => ReplyView::Namespaces(namespaces_listed(*found)),
            Reply::Deployment(found) => ReplyView::Deployment(deployment_lookup(*found)),
        }
    }
}

impl View for Reply {
    type V = ReplyView;

    open spec fn view(&self) -> ReplyView {
        self.deep_view()
    }
}

/// A run of the checks: the results so far, and what to look up next.
#[derive(Debug, PartialEq, Eq)]
pub struct CheckRun {
    /// Whether only what an installation needs beforehand is checked.
    pub pre: bool,
    pub results: Vec<CheckResult>,
    pub next: Probe,
}

/// The mathematical value of a [`CheckRun`].
pub ghost struct CheckRunView {
    pub pre: bool,
    pub results: Seq<CheckResultView>,
    pub next: ProbeView,
}

impl DeepView for CheckRun {
    type V = CheckRunView;

    open spec fn deep_view(&self) -> CheckRunView {
        CheckRunView { pre: self.pre, results: self.results.deep_view(), next: self.next@ }
    }
}

impl View for CheckRun {
    type V = CheckRunView;

    open spec fn view(&self) -> CheckRunView {
        self.deep_view()
    }
}

/// A run that has checked nothing yet.
pub open spec fn checks_started(pre: bool) -> CheckRunView {
    CheckRunView { pre, results: Seq::empty(), next: ProbeView::Definition }
}

/// The run `run` after the cluster answered `reply`. The definition of
/// traffic splits is checked first, and alone before an installation; then
/// the namespace of the extension; then, where there is exactly one such
/// namespace, the deployment of the controller in it. An answer to anything
/// but what the run looks up next changes nothing.
pub open spec fn checks_continued(run: CheckRunView, reply: ReplyView) -> CheckRunView {
    match (run.next, reply) {
        (ProbeView::Definition, ReplyView::Definition(found)) => CheckRunView {
            results: run.results.push(traffic_split_checked(found)),
            next: if run.pre {
                ProbeView::Nothing
            } else {
                ProbeView::Namespaces
            },
            ..run
        },
        (ProbeView::Namespaces, ReplyView::Namespaces(found)) => CheckRunView {
            results: run.results.push(namespace_checked(found).0),
            next: match namespace_checked(found).1 {
                Some(namespace) => ProbeView::Deployment(namespace),
                None => ProbeView::Nothing,
            },
            ..run
        },
        (ProbeView::Deployment(_), ReplyView::Deployment(found)) => CheckRunView {
            results: run.results.push(deploy_checked(found)),
            next: ProbeView::Nothing,
            ..run
        },
        _ => run,
    }
}

impl CheckRun {
    /// Starts a run of the checks.
    pub fn new(pre: bool) -> (run: CheckRun)
        ensures
            run@ == checks_started(pre),
    {
        let results: Vec<CheckResult> = Vec::new();
        assert(results.deep_view() =~= Seq::<CheckResultView>::empty());
        CheckRun { pre, results, next: Probe::Definition }
    }
}

/// Continues the run `run` with what the cluster answered to its last
/// lookup.
pub fn run_checks(run: CheckRun, reply: Reply) -> (r: CheckRun)
    ensures
        r@ == checks_continued(run@, reply@),
{
    let ghost before = run.results.deep_view();
    let CheckRun { pre, mut results, next } = run;
    match (next, reply) {
        (Probe::Definition, Reply::Definition(found)) => {
            let result = traffic_split_check(found);
            results.push(result);
            assert(results.deep_view() =~= before.push(result@));
            let next = if pre {
                Probe::Nothing
            } else {
                Probe::Namespaces
            };
            CheckRun { pre, results, next }
        },
        (Probe::Namespaces, Reply::Namespaces(found)) => {
            let (result, namespace) = namespace_check(found);
            results.push(result);
            assert(results.deep_view() =~= before.push(result@));
            let next = match namespace {
                Some(name) => Probe::Deployment(name),
                None => Probe::Nothing,
            };
            CheckRun { pre, results, next }
        },
        (Probe::Deployment(namespace), Reply::Deployment(found)) => {
            let result = deploy_check(found);
            results.push(result);
            assert(results.deep_view() =~= before.push(result@));
            CheckRun { pre, results, next: Probe::Nothing }
        },
        (next, _) => CheckRun { pre, results, next },
    }
}

/// Every one of the given checks passed.
pub open spec fn all_passed(results: Seq<CheckResultView>) -> bool {
    forall|i: int| 0 <= i < results.len() ==> (#[trigger] results[i]).result == CheckStatus::Success
}

/// `n` dashes.
pub open spec fn dashes(n: nat) -> Seq<char> {
    Seq::new(n, |i: int| '-')
}

/// The lines that report one check: its mark and description, and for a
/// check that failed what went wrong and where to read on.
pub open spec fn result_text(result: CheckResultView) -> Seq<char> {
    match result.result {
        CheckStatus::Success => CHECK@ + " "@ + result.description + "\n"@,
        CheckStatus::Error => EX@ + " "@ + result.description + "\n"@ + (match result.error {
            Some(error) => "    "@ + error + "\n"@,
            None => Seq::empty(),
        }) + (match result.hint {
            Some(hint) => "    see "@ + hint + " for hints\n"@,
            None => Seq::empty(),
        }),
    }
}

/// The lines that report the given checks, one check after the other.
pub open spec fn results_text(results: Seq<CheckResultView>) -> Seq<char>
    decreases results.len(),
{
    if results.len() == 0 {
        Seq::empty()
    } else {
        results_text(results.drop_last()) + result_text(results.last())
    }
}

/// The report of the given checks: the category, underlined; the checks; an
/// empty line; and the verdict.
pub open spec fn report_text(results: Seq<CheckResultView>) -> Seq<char> {
    CATEGORY@ + "\n"@ + dashes(CATEGORY@.len()) + "\n"@ + results_text(results) + "\n"@
        + "Status check results are "@ + (if all_passed(results) {
        CHECK@
    } else {
        EX@
    }) + "\n"@
}

/// Writes the report of the given checks and says whether all of them
/// passed.
pub fn print_checks(results: &Vec<CheckResult>) -> (r: (String, bool))
    ensures
        r.0@ == report_text(results.deep_view()),
        r.1 == all_passed(results.deep_view()),
{
    let ghost all = results.deep_view();
    let mut out = String::from_str(CATEGORY);
    out.append("\n");
    let width: usize = CATEGORY.unicode_len();
    let mut d: usize = 0;
    assert(out@ =~= CATEGORY@ + "\n"@ + dashes(0));
    while d < width
        invariant
            d <= width,
            out@ == CATEGORY@ + "\n"@ + dashes(d as nat),
        decreases width - d,
    {
        proof {
            reveal_strlit("-");
            assert("-"@ =~= seq!['-']);
            assert(dashes(d as nat) + seq!['-'] =~= dashes((d + 1) as nat));
        }
        out.append("-");
        d += 1;
    }
    out.append("\n");
    let ghost head = out@;
    let mut success: bool = true;
    let mut i: usize = 0;
    assert(all.take(0) =~= Seq::<CheckResultView>::empty());
    assert(out@ =~= head + results_text(all.take(0)));
    while i < results.len()
        invariant
            i <= results.len(),
            all == results.deep_view(),
            out@ == head + results_text(all.take(i as int)),
            success == all_passed(all.take(i as int)),
        decreases results.len() - i,
    {
        let result = &results[i];
        let ghost before = out@;
        proof {
            let next = all.take(i + 1);
            assert(next.drop_last() =~= all.take(i as int));
            assert(next.last() == result@);
            assert(all_passed(next) == (all_passed(all.take(i as int)) && result@.result
                == CheckStatus::Success)) by {
                if all_passed(all.take(i as int)) && result@.result == CheckStatus::Success {
                    assert forall|j: int| 0 <= j < next.len() implies (#[trigger] next[j]).result
                        == CheckStatus::Success by {
                        if j < i {
                            assert(all.take(i as int)[j] == next[j]);
                        }
                    }
                } else if all_passed(next) {
                    assert(next[i as int].result == CheckStatus::Success);
                    assert forall|j: int| 0 <= j < i implies (#[trigger] all.take(i as int)[j]).result
                        == CheckStatus::Success by {
                        assert(all.take(i as int)[j] == next[j]);
                    }
                }
            }
        }
        match result.result {
            CheckStatus::Success => {
                out.append(CHECK);
                out.append(" ");
                out.append(result.description);
                out.append("\n");
            },
            CheckStatus::Error => {
                success = false;
                out.append(EX);
                out.append(" ");
                out.append(result.description);
                out.append("\n");
                match &result.error {
                    Some(error) => {
                        out.append("    ");
                        out.append(error.as_str());
                        out.append("\n");
                    },
                    None => {},
                }
                match result.hint {
                    Some(hint) => {
                        out.append("    see ");
                        out.append(hint);
                        out.append(" for hints\n");
                    },
                    None => {},
                }
            },
        }
        assert(out@ =~= before + result_text(result@));
        i += 1;
    }
    assert(all.take(results.len() as int) =~= all);
    out.append("\n");
    out.append("Status check results are ");
    if success {
        out.append(CHECK);
    } else {
        out.append(EX);
    }
    out.append("\n");
    assert(out@ =~= report_text(all));
    (out, success)
}

/// The checks of one category.
#[derive(Debug, PartialEq, Eq)]
pub struct Category {
    pub category_name: &'static str,
    pub checks: Vec<CheckResult>,
}

/// The report of the checks as a document: whether all of them passed, and
/// the checks by category.
#[derive(Debug, PartialEq, Eq)]
pub struct CheckOutput {
    pub success: bool,
    pub categories: Vec<Category>,
}

/// Builds the report of the given checks as a document: they all stand, in
/// order, in the one category that there is.
pub fn json_print_checks(results: Vec<CheckResult>) -> (output: CheckOutput)
    ensures
        output.success == all_passed(results.deep_view()),
        output.categories@.len() == 1,
        output.categories@[0].category_name@ == CATEGORY@,
        output.categories@[0].checks.deep_view() == results.deep_view(),
{
    let mut success: bool = true;
    let mut i: usize = 0;
    while i < results.len()
        invariant
            i <= results.len(),
            success == forall|j: int|
                0 <= j < i ==> (#[trigger] results.deep_view()[j]).result == CheckStatus::Success,
        decreases results.len() - i,
    {
        if !results[i].success() {
            success = false;
            assert(results.deep_view()[i as int].result != CheckStatus::Success);
        }
        i += 1;
    }
    let mut categories: Vec<Category> = Vec::new();
    categories.push(Category { category_name: CATEGORY, checks: results });
    CheckOutput { success, categories }
}

} // verus!
