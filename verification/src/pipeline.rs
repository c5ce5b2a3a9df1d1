//! The decisions of the pipeline that regenerates the build files of many
//! packages and compares each with the file that is checked in.
//!
//! The pipeline itself starts processes and waits for them. What it decides is
//! here: how many workers it uses, what follows what for one package, which
//! arguments the comparison gets, and how the reports of the workers become
//! one result.

use crate::identity::{added, bound, Identity, NameAndVersion, ResultMap};
use vstd::prelude::*;

verus! {

/// The least number of workers: each of them waits on a process most of the time.
pub const MIN_WORKERS: usize = 32;

/// What a process left behind: how it ended and what it wrote.
#[derive(Clone, Debug, PartialEq, Eq)]
pub struct Outcome {
    /// The exit code, where the process exited by itself.
    pub code: Option<i32>,
    /// What the process wrote to its standard output.
    pub stdout: Vec<u8>,
    /// What the process wrote to its standard error.
    pub stderr: Vec<u8>,
}

/// The model of an [`Outcome`].
pub struct OutcomeView {
    pub code: Option<i32>,
    pub stdout: Seq<u8>,
    pub stderr: Seq<u8>,
}

impl DeepView for Outcome {
    type V = OutcomeView;

    open spec fn deep_view(&self) -> OutcomeView {
        OutcomeView { code: self.code, stdout: self.stdout@, stderr: self.stderr@ }
    }
}

impl View for Outcome {
    type V = OutcomeView;

    open spec fn view(&self) -> OutcomeView {
        self.deep_view()
    }
}

impl OutcomeView {
    /// Whether the process exited with code 0.
    pub open spec fn success(self) -> bool {
        self.code == Some(0i32)
    }
}

impl Outcome {
    /// Whether the process exited with code 0.
    pub fn success(&self) -> (r: bool)
        ensures
            r == self@.success(),
    {
        match self.code {
            Some(code) => code == 0,
            None => false,
        }
    }
}

/// A process could not be started.
#[derive(Clone, Debug, PartialEq, Eq)]
pub struct LaunchError {
    /// The program that was to run.
    pub program: String,
    /// Why it did not start.
    pub reason: String,
}

/// The model of a [`LaunchError`].
pub struct LaunchErrorView {
    pub program: Seq<char>,
    pub reason: Seq<char>,
}

impl DeepView for LaunchError {
    type V = LaunchErrorView;

    open spec fn deep_view(&self) -> LaunchErrorView {
        LaunchErrorView { program: self.program@, reason: self.reason@ }
    }
}

impl View for LaunchError {
    type V = LaunchErrorView;

    open spec fn view(&self) -> LaunchErrorView {
        self.deep_view()
    }
}

/// The number of workers for a machine on which `detected` units of work can
/// run at once.
pub open spec fn workers_for(detected: int) -> int {
    if detected < MIN_WORKERS {
        MIN_WORKERS as int
    } else {
        detected
    }
}

/// The number of workers for a machine on which `detected` units of work can
/// run at once: that number, and never fewer than [`MIN_WORKERS`].
pub fn worker_count(detected: usize) -> (workers: usize)
    ensures
        workers == workers_for(detected as int),
{
    if detected < MIN_WORKERS {
        MIN_WORKERS
    } else {
        detected
    }
}

/// Calls `num_cpus::get`. What it returns depends on the machine and on the
/// limits set for the process, so nothing is claimed of it.
#[verifier::external_body]
fn detected_parallelism() -> (detected: usize) {
    num_cpus::get()
}

/// The number of workers on this machine.
pub fn pool_size() -> (workers: usize)
    ensures
        workers >= MIN_WORKERS,
        exists|detected: int| 0 <= detected && workers == #[trigger] workers_for(detected),
{
    let detected = detected_parallelism();
    let workers = worker_count(detected);
    assert(workers == workers_for(detected as int));
    workers
}

/// Where the work on one package stands.
#[derive(Clone, Debug, PartialEq, Eq)]
pub enum Stage {
    /// The generator has not reported yet.
    Generating,
    /// The generator has ended; the comparison has not reported yet.
    Comparing { generated: Outcome },
    /// Both have ended.
    Done { generated: Outcome, compared: Outcome },
    /// A process could not be started.
    Failed { error: LaunchError },
}

/// The model of a [`Stage`].
pub enum StageView {
    Generating,
    Comparing { generated: OutcomeView },
    Done { generated: OutcomeView, compared: OutcomeView },
    Failed { error: LaunchErrorView },
}

impl DeepView for Stage {
    type V = StageView;

    open spec fn deep_view(&self) -> StageView {
        match self {
            Stage::Generating => StageView::Generating,
            Stage::Comparing { generated } => StageView::Comparing { generated: generated@ },
            Stage::Done { generated, compared } => StageView::Done {
                generated: generated@,
                compared: compared@,
            },
            Stage::Failed { error } => StageView::Failed { error: error@ },
        }
    }
}

impl View for Stage {
    type V = StageView;

    open spec fn view(&self) -> StageView {
        self.deep_view()
    }
}

/// What a worker hands back after it tried to run a process.
#[derive(Clone, Debug, PartialEq, Eq)]
pub enum Event {
    /// The process ran and ended.
    Ended(Outcome),
    /// The process could not be started.
    NotStarted(LaunchError),
}

/// The model of an [`Event`].
pub enum EventView {
    Ended(OutcomeView),
    NotStarted(LaunchErrorView),
}

impl DeepView for Event {
    type V = EventView;

    open spec fn deep_view(&self) -> EventView {
        match self {
            Event::Ended(outcome) => EventView::Ended(outcome@),
            Event::NotStarted(error) => EventView::NotStarted(error@),
        }
    }
}

impl View for Event {
    type V = EventView;

    open spec fn view(&self) -> EventView {
        self.deep_view()
    }
}

/// What a worker does next.
#[derive(Clone, Copy, Debug, PartialEq, Eq)]
pub enum Action {
    /// Run the comparison. `announce` says that the generator has failed and
    /// that its output is to be shown.
    Compare { announce: bool },
    /// Hand the two outcomes to the coordinator.
    Report,
    /// Hand the failure to the coordinator.
    GiveUp,
    /// Nothing: the work on the package had ended before.
    Rest,
}

/// Where the work on a package stands after an event, and what follows. A
/// generator that ran is followed by the comparison, however it ended; a
/// process that did not start ends the work on the package.
pub open spec fn stepped(stage: StageView, event: EventView) -> (StageView, Action) {
    match stage {
        StageView::Generating => match event {
            EventView::Ended(generated) => (
                StageView::Comparing { generated },
                Action::Compare { announce: !generated.success() },
            ),
            EventView::NotStarted(error) => (StageView::Failed { error }, Action::GiveUp),
        },
        StageView::Comparing { generated } => match event {
            EventView::Ended(compared) => (StageView::Done { generated, compared }, Action::Report),
            EventView::NotStarted(error) => (StageView::Failed { error }, Action::GiveUp),
        },
        _ => (stage, Action::Rest),
    }
}

/// Takes the work on a package one step further.
pub fn step(stage: Stage, event: Event) -> (next: (Stage, Action))
    ensures
        (next.0@, next.1) == stepped(stage@, event@),
{
    match stage {
        Stage::Generating => match event {
            Event::Ended(generated) => {
                let announce = !generated.success();
                (Stage::Comparing { generated }, Action::Compare { announce })
            },
            Event::NotStarted(error) => (Stage::Failed { error }, Action::GiveUp),
        },
        Stage::Comparing { generated } => match event {
            Event::Ended(compared) => (Stage::Done { generated, compared }, Action::Report),
            Event::NotStarted(error) => (Stage::Failed { error }, Action::GiveUp),
        },
        Stage::Done { generated, compared } => (Stage::Done { generated, compared }, Action::Rest),
        Stage::Failed { error } => (Stage::Failed { error }, Action::Rest),
    }
}

/// What the work on a package came to, for the coordinator: the two outcomes,
/// or the failure to start a process. `None` while the work goes on.
pub open spec fn concluded(stage: StageView) -> Option<
    Result<(OutcomeView, OutcomeView), LaunchErrorView>,
> {
    match stage {
        StageView::Done { generated, compared } => Some(Ok((generated, compared))),
        StageView::Failed { error } => Some(Err(error)),
        _ => None,
    }
}

/// The model of what the work on a package came to.
pub open spec fn conclusion_view(conclusion: Option<Result<(Outcome, Outcome), LaunchError>>) -> Option<
    Result<(OutcomeView, OutcomeView), LaunchErrorView>,
> {
    match conclusion {
        Some(Ok(pair)) => Some(Ok((pair.0@, pair.1@))),
        Some(Err(error)) => Some(Err(error@)),
        None => None,
    }
}

/// What the work on a package came to, for the coordinator.
pub fn conclude(stage: Stage) -> (conclusion: Option<Result<(Outcome, Outcome), LaunchError>>)
    ensures
        conclusion_view(conclusion) == concluded(stage@),
{
    match stage {
        Stage::Done { generated, compared } => Some(Ok((generated, compared))),
        Stage::Failed { error } => Some(Err(error)),
        _ => None,
    }
}

/// The arguments of the generator.
pub open spec fn generator_line() -> Seq<Seq<char>> {
    seq!["generate"@, "cargo_embargo.json"@]
}

/// The arguments of the generator.
pub fn generator_arguments() -> (arguments: Vec<String>)
    ensures
        arguments.deep_view() == generator_line(),
{
    let mut arguments: Vec<String> = Vec::new();
    arguments.push("generate".to_string());
    arguments.push("cargo_embargo.json".to_string());
    assert(arguments.deep_view() =~= generator_line());
    arguments
}

/// The lines of a generated file that tell nothing: differences in lines that
/// hold one of these are ignored.
pub open spec fn noise() -> Seq<Seq<char>> {
    seq!["// has rustc warnings"@, "This file is generated by"@, "cargo_pkg_version:"@]
}

/// The arguments of the comparison of two files: unified output, no
/// differences in white space or in blank lines, none in lines of [`noise`].
pub open spec fn comparison_line(reference: Seq<char>, generated: Seq<char>) -> Seq<Seq<char>> {
    seq![
        "-u"@,
        "-w"@,
        "-B"@,
        "-I"@,
        noise()[0],
        "-I"@,
        noise()[1],
        "-I"@,
        noise()[2],
        reference,
        generated,
    ]
}

/// The arguments of the comparison of the file that is checked in with the
/// file that was generated.
pub fn diff_arguments(reference: &str, generated: &str) -> (arguments: Vec<String>)
    ensures
        arguments.deep_view() == comparison_line(reference@, generated@),
{
    let mut arguments: Vec<String> = Vec::new();
    arguments.push("-u".to_string());
    arguments.push("-w".to_string());
    arguments.push("-B".to_string());
    arguments.push("-I".to_string());
    arguments.push("// has rustc warnings".to_string());
    arguments.push("-I".to_string());
    arguments.push("This file is generated by".to_string());
    arguments.push("-I".to_string());
    arguments.push("cargo_pkg_version:".to_string());
    arguments.push(reference.to_string());
    arguments.push(generated.to_string());
    assert(arguments.deep_view() =~= comparison_line(reference@, generated@));
    arguments
}

/// What a worker reports for one package.
#[derive(Debug, PartialEq, Eq)]
pub struct Report {
    /// The package.
    pub identity: NameAndVersion,
    /// The outcomes of the generator and of the comparison, or the failure to
    /// start one of them.
    pub result: Result<(Outcome, Outcome), LaunchError>,
}

/// The model of a [`Report`].
pub struct ReportView {
    pub identity: Identity,
    pub result: Result<(OutcomeView, OutcomeView), LaunchErrorView>,
}

impl DeepView for Report {
    type V = ReportView;

    open spec fn deep_view(&self) -> ReportView {
        ReportView {
            identity: self.identity@,
            result: match self.result {
                Ok(pair) => Ok((pair.0@, pair.1@)),
                Err(error) => Err(error@),
            },
        }
    }
}

impl View for Report {
    type V = ReportView;

    open spec fn view(&self) -> ReportView {
        self.deep_view()
    }
}

/// Why a run of the pipeline has no result.
#[derive(Clone, Debug, PartialEq, Eq)]
pub enum PipelineError {
    /// A process could not be started for a package.
    Launch { identity: NameAndVersion, error: LaunchError },
    /// Two packages of the run have the same identity.
    Duplicate { identity: NameAndVersion },
    /// The tools could not be built.
    Bootstrap { stdout: Vec<u8>, stderr: Vec<u8> },
}

/// The model of a [`PipelineError`].
pub enum PipelineErrorView {
    Launch { identity: Identity, error: LaunchErrorView },
    Duplicate { identity: Identity },
    Bootstrap { stdout: Seq<u8>, stderr: Seq<u8> },
}

impl DeepView for PipelineError {
    type V = PipelineErrorView;

    open spec fn deep_view(&self) -> PipelineErrorView {
        match self {
            PipelineError::Launch { identity, error } => PipelineErrorView::Launch {
                identity: identity@,
                error: error@,
            },
            PipelineError::Duplicate { identity } => PipelineErrorView::Duplicate {
                identity: identity@,
            },
            PipelineError::Bootstrap { stdout, stderr } => PipelineErrorView::Bootstrap {
                stdout: stdout@,
                stderr: stderr@,
            },
        }
    }
}

impl View for PipelineError {
    type V = PipelineErrorView;

    open spec fn view(&self) -> PipelineErrorView {
        self.deep_view()
    }
}

/// The outcomes of a run, by identity.
pub type Outcomes = Seq<(Identity, (OutcomeView, OutcomeView))>;

/// The result of a run once one more report has come in.
pub open spec fn gathered(prior: Outcomes, report: ReportView) -> Result<Outcomes, PipelineErrorView> {
    match report.result {
        Err(error) => Err(PipelineErrorView::Launch { identity: report.identity, error }),
        Ok(pair) => if bound(prior, report.identity) {
            Err(PipelineErrorView::Duplicate { identity: report.identity })
        } else {
            Ok(added(prior, report.identity, pair))
        },
    }
}

/// The result of a run: the outcomes of all reports by identity, or the first
/// failure in the order in which the reports came in.
pub open spec fn collected(reports: Seq<ReportView>) -> Result<Outcomes, PipelineErrorView>
    decreases reports.len(),
{
    if reports.len() == 0 {
        Ok(Seq::empty())
    } else {
        match collected(reports.drop_last()) {
            Err(error) => Err(error),
            Ok(prior) => gathered(prior, reports.last()),
        }
    }
}

/// The model of the result of a run.
pub open spec fn run_view(
    result: Result<ResultMap<(Outcome, Outcome)>, PipelineError>,
) -> Result<Outcomes, PipelineErrorView> {
    match result {
        Ok(map) => Ok(map@),
        Err(error) => Err(error@),
    }
}

/// Takes one more report into the result of a run.
pub fn gather(map: ResultMap<(Outcome, Outcome)>, report: Report) -> (r: Result<
    ResultMap<(Outcome, Outcome)>,
    PipelineError,
>)
    ensures
        run_view(r) == gathered(map@, report@),
{
    let mut map = map;
    let Report { identity, result } = report;
    match result {
        Err(error) => Err(PipelineError::Launch { identity, error }),
        Ok(pair) => match map.insert_or_fail(identity, pair) {
            Ok(()) => Ok(map),
            Err(duplicate) => Err(PipelineError::Duplicate { identity: duplicate.key }),
        },
    }
}

/// Makes the result of a run from the reports of the workers, taken in the
/// order in which they came in.
pub fn collect(reports: Vec<Report>) -> (r: Result<ResultMap<(Outcome, Outcome)>, PipelineError>)
    ensures
        run_view(r) == collected(reports.deep_view()),
{
    let ghost source = reports.deep_view();
    let ghost items = reports@;
    let mut r: Result<ResultMap<(Outcome, Outcome)>, PipelineError> = Ok(ResultMap::new());
    assert(source.take(0) =~= Seq::empty());
    for report in it: reports.into_iter()
        invariant
            it.seq() == items,
            source.len() == items.len(),
            forall|j: int| 0 <= j < items.len() ==> (#[trigger] items[j])@ == source[j],
            run_view(r) == collected(source.take(it.index() as int)),
    {
        let ghost index = it.index() as int;
        assert(source.take(index + 1).drop_last() =~= source.take(index));
        assert(source.take(index + 1).last() == source[index]);
        r = match r {
            Ok(map) => gather(map, report),
            Err(error) => Err(error),
        };
    }
    assert(source.take(source.len() as int) =~= source);
    r
}

/// Whether the tools were built: they were where the build exited with code
/// 0; else what the build wrote is handed on.
pub open spec fn bootstrapped(outcome: OutcomeView) -> Result<(), PipelineErrorView> {
    if outcome.success() {
        Ok(())
    } else {
        Err(PipelineErrorView::Bootstrap { stdout: outcome.stdout, stderr: outcome.stderr })
    }
}

/// The model of the result of building the tools.
pub open spec fn bootstrap_view(result: Result<(), PipelineError>) -> Result<(), PipelineErrorView> {
    match result {
        Ok(done) => Ok(done),
        Err(error) => Err(error@),
    }
}

/// Whether the tools were built, by the outcome of their build.
pub fn check_bootstrap(outcome: Outcome) -> (r: Result<(), PipelineError>)
    ensures
        bootstrap_view(r) == bootstrapped(outcome@),
{
    if outcome.success() {
        Ok(())
    } else {
        Err(PipelineError::Bootstrap { stdout: outcome.stdout, stderr: outcome.stderr })
    }
}

} // verus!
