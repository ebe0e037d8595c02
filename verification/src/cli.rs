//! The commands of the program and the decisions of a migration run: when
//! warnings abort it, whether its result is written, and how it ends.

use vstd::prelude::*;
use crate::migrate::{is_networkstate, sound, to_networkstate, NetworkStateResult};
use crate::model::ConnectionView;
use crate::outcome::draws_nothing;
use crate::reader::InterfacesResult;
use crate::report::{any_warning, has_warnings, Failure, FailureView, WarningView};
use crate::settings::MigrationSettings;
use crate::topology::{absent_from_batch, lemma_dangling_parent_ends_batch};

verus! {

/// The formats that the legacy configuration can be shown in.
#[derive(Clone, Copy, Debug, PartialEq, Eq, Structural)]
pub enum Format {
    Json,
    PrettyJson,
    Yaml,
    Xml,
    Text,
}

#[derive(Clone, Debug, PartialEq, Eq)]
pub enum Commands {
    /// Shows the legacy configuration as it was read.
    Show { format: Format, paths: Vec<String> },
    /// Migrates the legacy configuration at the paths.
    Migrate { paths: Vec<String>, continue_migration: bool, dry_run: bool, activate_connections: bool },
}

impl Commands {
    pub open spec fn spec_settings(&self, without_netconfig: bool) -> MigrationSettings {
        match self {
            Commands::Show { format, paths } => MigrationSettings {
                continue_migration: true,
                activate_connections: true,
                with_netconfig: !without_netconfig,
            },
            Commands::Migrate { paths, continue_migration, dry_run, activate_connections } =>
                MigrationSettings {
                continue_migration: *continue_migration,
                activate_connections: *activate_connections,
                with_netconfig: !without_netconfig,
            },
        }
    }

    /// The settings that the command runs with: a migration as its flags
    /// say; showing never stops on warnings.
    pub fn settings(&self, without_netconfig: bool) -> (r: MigrationSettings)
        ensures
            r == self.spec_settings(without_netconfig),
    {
        match self {
            Commands::Show { format, paths } => MigrationSettings {
                continue_migration: true,
                activate_connections: true,
                with_netconfig: !without_netconfig,
            },
            Commands::Migrate { paths, continue_migration, dry_run, activate_connections } =>
                MigrationSettings {
                continue_migration: *continue_migration,
                activate_connections: *activate_connections,
                with_netconfig: !without_netconfig,
            },
        }
    }
}

/// Why a run did not succeed.
#[derive(Clone, Debug, PartialEq, Eq)]
pub enum MigrationError {
    /// Warnings came up and the caller does not continue on warnings.
    Warnings,
    /// Showing the configuration failed.
    ShowError(Failure),
    /// The migration failed.
    MigrationError(Failure),
}

pub ghost enum MigrationErrorView {
    Warnings,
    ShowError(FailureView),
    MigrationError(FailureView),
}

impl DeepView for MigrationError {
    type V = MigrationErrorView;

    open spec fn deep_view(&self) -> MigrationErrorView {
        match self {
            MigrationError::Warnings => MigrationErrorView::Warnings,
            MigrationError::ShowError(f) => MigrationErrorView::ShowError(f.deep_view()),
            MigrationError::MigrationError(f) => MigrationErrorView::MigrationError(f.deep_view()),
        }
    }
}

impl MigrationErrorView {
    /// The error that a failure of the migration is reported as. A parent
    /// that is missing is a warning that was not allowed to pass.
    pub open spec fn of_failure(f: FailureView) -> MigrationErrorView {
        match f {
            FailureView::MissingParent { parent, port } => MigrationErrorView::Warnings,
            _ => MigrationErrorView::MigrationError(f),
        }
    }

    /// The message that the error is reported with.
    pub open spec fn text(&self) -> Seq<char> {
        match self {
            MigrationErrorView::Warnings => "Migration failed because of warnings"@,
            MigrationErrorView::ShowError(f) => "Show failed: "@ + f.text(),
            MigrationErrorView::MigrationError(f) => "Migration failed: "@ + f.text(),
        }
    }
}

impl MigrationError {
    /// The error that a failure of the migration is reported as.
    pub fn of_failure(f: Failure) -> (r: MigrationError)
        ensures
            r.deep_view() == MigrationErrorView::of_failure(f.deep_view()),
    {
        match f {
            Failure::MissingParent { parent, port } => MigrationError::Warnings,
            other => MigrationError::MigrationError(other),
        }
    }

    /// The message that the error is reported with.
    pub fn to_string(&self) -> (r: String)
        ensures
            r@ == self.deep_view().text(),
    {
        match self {
            MigrationError::Warnings => "Migration failed because of warnings".to_owned(),
            MigrationError::ShowError(f) => {
                let mut s = "Show failed: ".to_owned();
                let text = f.to_string();
                s.append(text.as_str());
                s
            },
            MigrationError::MigrationError(f) => {
                let mut s = "Migration failed: ".to_owned();
                let text = f.to_string();
                s.append(text.as_str());
                s
            },
        }
    }
}

/// How a run ends.
#[derive(Clone, Copy, Debug, PartialEq, Eq, Structural)]
pub enum CliResult {
    /// Successful execution.
    Success,
    /// Something went wrong.
    Error,
    /// Failed due to warnings.
    Warnings,
}

impl CliResult {
    pub open spec fn spec_exit_code(&self) -> u8 {
        match self {
            CliResult::Success => 0u8,
            CliResult::Error => 1u8,
            CliResult::Warnings => 3u8,
        }
    }

    /// The exit code of the program: 0 for success, 1 for an error, 3 where
    /// warnings stopped the run.
    pub fn exit_code(&self) -> (r: u8)
        ensures
            r == self.spec_exit_code(),
    {
        match self {
            CliResult::Success => 0,
            CliResult::Error => 1,
            CliResult::Warnings => 3,
        }
    }

    pub open spec fn spec_of<T>(outcome: Result<T, MigrationError>) -> CliResult {
        match outcome {
            Ok(_) => CliResult::Success,
            Err(MigrationError::Warnings) => CliResult::Warnings,
            Err(_) => CliResult::Error,
        }
    }

    /// How a run with this outcome ends.
    pub fn of<T>(outcome: &Result<T, MigrationError>) -> (r: CliResult)
        ensures
            r == Self::spec_of(*outcome),
    {
        match outcome {
            Ok(_) => CliResult::Success,
            Err(MigrationError::Warnings) => CliResult::Warnings,
            Err(_) => CliResult::Error,
        }
    }
}

/// The result of a migration and what is to be done with it.
#[derive(Clone, Debug, PartialEq, Eq)]
pub struct MigrationPlan {
    pub result: NetworkStateResult,
    /// Whether the connections are written to the target system. Where
    /// not, they are only shown.
    pub write: bool,
}

/// Whether warnings stop a run: they do unless the caller continues on
/// warnings.
pub open spec fn warnings_abort(settings: MigrationSettings, warnings: Seq<WarningView>) -> bool {
    !settings.continue_migration && any_warning(warnings)
}

/// The warnings of the netconfig settings, where there are any.
pub open spec fn spec_netconfig_warnings(input: InterfacesResult) -> Seq<WarningView> {
    match input.netconfig {
        Some(n) => n.warnings.deep_view(),
        None => Seq::empty(),
    }
}

/// The warnings of reading: those of the interface records and those of
/// the netconfig settings.
pub open spec fn spec_input_warnings(input: InterfacesResult) -> Seq<WarningView> {
    input.warnings.deep_view() + spec_netconfig_warnings(input)
}

/// What is made of the outcome of putting the network state together: a
/// failure ends the run, and so do warnings unless the caller continues on
/// warnings; else the connections are written, or only shown in a dry run.
pub open spec fn spec_plan(
    settings: MigrationSettings,
    dry_run: bool,
    outcome: Result<(Seq<ConnectionView>, Seq<WarningView>), FailureView>,
) -> Result<((Seq<ConnectionView>, Seq<WarningView>), bool), MigrationErrorView> {
    match outcome {
        Err(f) => Err(MigrationErrorView::of_failure(f)),
        Ok(result) => if warnings_abort(settings, result.1) {
            Err(MigrationErrorView::Warnings)
        } else {
            Ok((result, !dry_run))
        },
    }
}

/// A plan or an error, seen through their deep views.
pub open spec fn plan_view(r: Result<MigrationPlan, MigrationError>) -> Result<
    ((Seq<ConnectionView>, Seq<WarningView>), bool),
    MigrationErrorView,
> {
    match r {
        Ok(plan) => Ok((plan.result.deep_view(), plan.write)),
        Err(e) => Err(e.deep_view()),
    }
}

/// Decides what is made of the outcome of putting the network state
/// together.
pub fn plan_of(settings: &MigrationSettings, dry_run: bool, outcome: Result<NetworkStateResult, Failure>) -> (r:
    Result<MigrationPlan, MigrationError>)
    ensures
        plan_view(r) == spec_plan(*settings, dry_run, crate::report::result_view(outcome)),
        r is Ok ==> outcome is Ok && r.unwrap().result == outcome.unwrap(),
{
    match outcome {
        Err(f) => Err(MigrationError::of_failure(f)),
        Ok(result) => {
            if !settings.continue_migration && result.has_warnings() {
                Err(MigrationError::Warnings)
            } else {
                Ok(MigrationPlan { result, write: !dry_run })
            }
        },
    }
}

/// Runs the migration up to the point where its result would be written.
///
/// Where reading gave warnings and the caller does not continue on
/// warnings, the run ends before anything is translated. Else the
/// interfaces are translated and put together, and `spec_plan` says what
/// is made of the outcome. The run does not end for want of a uuid where
/// no interface gives a connection.
pub fn plan_migration(
    input: &InterfacesResult,
    settings: &MigrationSettings,
    dry_run: bool,
    system_interfaces: &Vec<String>,
) -> (r: Result<MigrationPlan, MigrationError>)
    ensures
        warnings_abort(*settings, spec_input_warnings(*input)) ==> plan_view(r) == Err::<
            ((Seq<ConnectionView>, Seq<WarningView>), bool),
            MigrationErrorView,
        >(MigrationErrorView::Warnings),
        !warnings_abort(*settings, spec_input_warnings(*input)) ==> exists|
            outcome: Result<(Seq<ConnectionView>, Seq<WarningView>), FailureView>,
        |
            is_networkstate(*input, *settings, system_interfaces.deep_view(), outcome) && plan_view(
                r,
            ) == #[trigger] spec_plan(*settings, dry_run, outcome),
        draws_nothing(input.interfaces@) ==> plan_view(r) != Err::<
            ((Seq<ConnectionView>, Seq<WarningView>), bool),
            MigrationErrorView,
        >(MigrationErrorView::MigrationError(FailureView::DuplicateUuid)),
        r is Ok ==> sound(r.unwrap().result.network_state.deep_view()),
{
    if reading_aborts(input, settings) {
        return Err(MigrationError::Warnings);
    }
    let outcome = to_networkstate(input, settings, system_interfaces);
    plan_of(settings, dry_run, outcome)
}

/// Whether the run ends on what reading has warned of, before anything is
/// translated: it does where the caller does not continue on warnings and
/// reading the interfaces or the DNS settings gave one.
pub fn reading_aborts(input: &InterfacesResult, settings: &MigrationSettings) -> (r: bool)
    ensures
        r == warnings_abort(*settings, spec_input_warnings(*input)),
{
    if settings.continue_migration {
        return false;
    }
    let netconfig_warns = match &input.netconfig {
        Some(n) => has_warnings(&n.warnings),
        None => false,
    };
    let input_warns = has_warnings(&input.warnings);
    proof {
        let a = input.warnings.deep_view();
        let b = spec_netconfig_warnings(*input);
        lemma_any_warning_concat(a, b);
    }
    input_warns || netconfig_warns
}

/// A warning is among two lists put together exactly when it is in one of
/// them.
pub proof fn lemma_any_warning_concat(a: Seq<WarningView>, b: Seq<WarningView>)
    ensures
        any_warning(a + b) == (any_warning(a) || any_warning(b)),
{
    if any_warning(a + b) {
        let i = choose|i: int|
            0 <= i < (a + b).len() && (#[trigger] (a + b)[i]).severity()
                == crate::report::Severity::Warning;
        if i < a.len() {
            assert((a + b)[i] == a[i]);
        } else {
            assert((a + b)[i] == b[i - a.len()]);
        }
    }
    if any_warning(a) {
        let i = choose|i: int|
            0 <= i < a.len() && (#[trigger] a[i]).severity() == crate::report::Severity::Warning;
        assert((a + b)[i] == a[i]);
    }
    if any_warning(b) {
        let i = choose|i: int|
            0 <= i < b.len() && (#[trigger] b[i]).severity() == crate::report::Severity::Warning;
        assert((a + b)[i + a.len()] == b[i]);
    }
}


/// A parent that is absent from the whole batch gives no plan where the
/// caller does not continue on warnings: the run ends with an error and
/// nothing is written.
///
/// The interface `k` of the batch gives a connection and names a parent
/// that none of the interfaces of the batch gives to a connection;
/// `outcome` is whatever comes of translating the batch and putting it
/// together.
pub proof fn lemma_dangling_parent_gives_no_plan(
    input: InterfacesResult,
    settings: MigrationSettings,
    dry_run: bool,
    present: Seq<Seq<char>>,
    outcome: Result<(Seq<ConnectionView>, Seq<WarningView>), FailureView>,
    k: int,
)
    requires
        !settings.continue_migration,
        is_networkstate(input, settings, present, outcome),
        0 <= k < input.interfaces@.len(),
        input.interfaces@[k].link.master is Some,
        input.interfaces@[k].spec_technology_count() > 0 || input.interfaces@[k].spec_has_ovs_link(),
        absent_from_batch(input.interfaces@, input.interfaces@[k].link.master.unwrap()@),
    ensures
        outcome is Err,
        spec_plan(settings, dry_run, outcome) is Err,
{
    lemma_dangling_parent_ends_batch(input, settings, present, outcome, k);
}

} // verus!
