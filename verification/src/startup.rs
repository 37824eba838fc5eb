//! What the server does when it is started.
use crate::export::{environment_filter, init, is_plan_for, ExportPlan, TracingConfig};
use vstd::prelude::*;
use vstd::string::*;

verus! {

/// A mode in which the server is run.
#[derive(Debug, Clone, Copy, PartialEq, Eq, Structural)]
pub enum ServerMode {
    /// Run all components.
    Monolithic,
    /// Run the API server.
    ApiServer,
    /// Run the garbage collector periodically.
    GarbageCollector,
    /// Run the database migrations then exit.
    DbMigrations,
    /// Run garbage collection then exit.
    GarbageCollectorOnce,
    /// Check the configuration then exit.
    CheckConfig,
}

/// Something that the server runs to its end.
#[derive(Debug, Clone, Copy, PartialEq, Eq, Structural)]
pub enum Step {
    /// Bring the database up to date.
    Migrate,
    /// Serve the API.
    Serve,
    /// Collect garbage periodically.
    Collect,
    /// Collect garbage a single time.
    CollectOnce,
    /// Serve the API and collect garbage periodically, side by side.
    ServeAndCollect,
}

/// What a mode runs, one after the other.
pub open spec fn mode_steps(mode: ServerMode) -> Seq<Step> {
    match mode {
        ServerMode::Monolithic => seq![Step::Migrate, Step::ServeAndCollect],
        ServerMode::ApiServer => seq![Step::Serve],
        ServerMode::GarbageCollector => seq![Step::Collect],
        ServerMode::DbMigrations => seq![Step::Migrate],
        ServerMode::GarbageCollectorOnce => seq![Step::CollectOnce],
        ServerMode::CheckConfig => seq![],
    }
}

impl ServerMode {
    /// What the mode runs, one after the other.
    pub fn steps(self) -> (steps: Vec<Step>)
        ensures
            steps@ == mode_steps(self),
    {
        let mut steps: Vec<Step> = Vec::new();
        match self {
            ServerMode::Monolithic => {
                steps.push(Step::Migrate);
                steps.push(Step::ServeAndCollect);
            },
            ServerMode::ApiServer => steps.push(Step::Serve),
            ServerMode::GarbageCollector => steps.push(Step::Collect),
            ServerMode::DbMigrations => steps.push(Step::Migrate),
            ServerMode::GarbageCollectorOnce => steps.push(Step::CollectOnce),
            ServerMode::CheckConfig => {},
        }
        assert(steps@ =~= mode_steps(self));
        steps
    }

    /// Whether a missing configuration is set up on the spot.
    pub fn allows_first_run_setup(self) -> (allowed: bool)
        ensures
            allowed == (self is Monolithic),
    {
        self == ServerMode::Monolithic
    }
}

/// Plans the export of spans for a server that is started in the given mode.
///
/// A configuration that is only checked opens no exporter: the check runs where
/// there may be nothing to talk to.
pub fn startup_export(mode: ServerMode, config: &TracingConfig, directives: Option<&str>) -> (plan:
    Option<ExportPlan>)
    ensures
        mode is CheckConfig ==> plan is None,
        mode !is CheckConfig ==> is_plan_for(
            plan,
            *config,
            environment_filter(
                match directives {
                    Some(directives) => Some(directives@),
                    None => None,
                },
            ),
        ),
{
    if mode == ServerMode::CheckConfig {
        None
    } else {
        init(config, directives)
    }
}

/// The line by which the server introduces itself.
pub open spec fn banner(version: Seq<char>, debug: bool) -> Seq<char> {
    "Celler "@ + version + if debug {
        " (debug)"@
    } else {
        " (release)"@
    }
}

/// The line by which the server introduces itself.
pub fn version_banner(version: &str, debug: bool) -> (text: String)
    ensures
        text@ == banner(version@, debug),
{
    let mut text = "Celler ".to_owned();
    text.append(version);
    if debug {
        text.append(" (debug)");
    } else {
        text.append(" (release)");
    }
    text
}

/// In every mode that migrates the database, that comes before all else.
pub proof fn law_migration_comes_first(mode: ServerMode, i: int)
    requires
        0 <= i < mode_steps(mode).len(),
        mode_steps(mode)[i] is Migrate,
    ensures
        i == 0,
{
}

/// The banner is made of the product, the version to the letter, and the kind of
/// build.
pub proof fn law_banner_tells_version_and_build(version: Seq<char>, debug: bool)
    ensures
        ({
            let text = banner(version, debug);
            let build = text.skip(7 + version.len() as int);
            &&& text.take(7) == seq!['C', 'e', 'l', 'l', 'e', 'r', ' ']
            &&& text.subrange(7, 7int + version.len()) == version
            &&& debug ==> build == seq![' ', '(', 'd', 'e', 'b', 'u', 'g', ')']
            &&& !debug ==> build == seq![' ', '(', 'r', 'e', 'l', 'e', 'a', 's', 'e', ')']
        }),
{
    reveal_strlit("Celler ");
    reveal_strlit(" (debug)");
    reveal_strlit(" (release)");
    let text = banner(version, debug);
    assert(text.take(7) =~= seq!['C', 'e', 'l', 'l', 'e', 'r', ' ']);
    assert(text.subrange(7, 7int + version.len()) =~= version);
    if debug {
        assert(text.skip(7 + version.len() as int) =~= seq![' ', '(', 'd', 'e', 'b', 'u', 'g', ')']);
    } else {
        assert(text.skip(7 + version.len() as int) =~= seq![
            ' ', '(', 'r', 'e', 'l', 'e', 'a', 's', 'e', ')',
        ]);
    }
}

/// Each component runs in the modes that are named for it and in the monolithic
/// one, and in no others; nothing runs where the configuration is only checked.
pub proof fn law_components_run_in_their_modes(mode: ServerMode)
    ensures
        (mode is Monolithic || mode is DbMigrations) <==> mode_steps(mode).contains(Step::Migrate),
        mode is Monolithic <==> mode_steps(mode).contains(Step::ServeAndCollect),
        mode is ApiServer <==> mode_steps(mode).contains(Step::Serve),
        mode is GarbageCollector <==> mode_steps(mode).contains(Step::Collect),
        mode is GarbageCollectorOnce <==> mode_steps(mode).contains(Step::CollectOnce),
        mode is CheckConfig <==> mode_steps(mode).len() == 0,
        mode is Monolithic <==> mode_steps(mode).len() == 2,
        mode_steps(mode).len() <= 2,
{
    let steps = mode_steps(mode);
    if steps.len() > 0 {
        assert(steps.contains(steps[0]));
    }
    if steps.len() > 1 {
        assert(steps.contains(steps[1]));
    }
}

/// `ServerMode::steps`, `ServerMode::allows_first_run_setup` and
/// `version_banner`: what runs, who sets itself up, and what is said.
pub proof fn law_startup_goes_by_the_mode(
    mode: ServerMode,
    steps: Vec<Step>,
    allowed: bool,
    version: &str,
    debug: bool,
    text: String,
)
    requires
        call_ensures(ServerMode::steps, (mode,), steps),
        call_ensures(ServerMode::allows_first_run_setup, (mode,), allowed),
        call_ensures(version_banner, (version, debug), text),
    ensures
        steps@ == mode_steps(mode),
        allowed <==> mode is Monolithic,
        text@ == banner(version@, debug),
{
}

/// `startup_export` plans nothing where the configuration is only checked or
/// export is off, and in all other cases what the configuration and the
/// environment say.
pub proof fn law_startup_export_goes_by_mode_and_configuration(
    mode: ServerMode,
    config: &TracingConfig,
    directives: Option<&str>,
    plan: Option<ExportPlan>,
)
    requires
        call_ensures(startup_export, (mode, config, directives), plan),
    ensures
        plan is Some <==> mode !is CheckConfig && config.otlp.enabled,
        plan is Some ==> {
            let given = match directives {
                Some(directives) => Some(directives@),
                None => None,
            };
            &&& plan->0.protocol == config.otlp.protocol
            &&& plan->0.endpoint is Some <==> config.otlp.endpoint is Some
            &&& config.otlp.endpoint is Some ==> plan->0.endpoint->0@ == config.otlp.endpoint->0@
            &&& plan->0.timeout_secs == config.otlp.timeout_secs
            &&& plan->0.timeout_nanos == config.otlp.timeout_nanos
            &&& plan->0.service_name@ == config.service_name@
            &&& plan->0.filter@ == environment_filter(given)
        },
{
}

} // verus!
