use cellerd::export::{
    choose_filter, export_filter, export_plan, init, OtlpConfig, OtlpProtocol, TracingConfig,
    ENV_OTEL_FILTER,
};
use cellerd::startup::{startup_export, version_banner, ServerMode, Step};
use tracing_subscriber::EnvFilter;

fn config(enabled: bool) -> TracingConfig {
    TracingConfig {
        service_name: "cellerd-prod".to_string(),
        otlp: OtlpConfig {
            enabled,
            protocol: OtlpProtocol::Http,
            endpoint: Some("http://otel-collector:4318".to_string()),
            timeout_secs: 10,
            timeout_nanos: 5,
        },
    }
}

#[test]
fn filter_comes_from_the_environment_when_it_parses() {
    assert_eq!(ENV_OTEL_FILTER, "CELLER_SERVER_OTEL_FILTER");
    assert_eq!(export_filter(Some("debug,hyper=warn")), "debug,hyper=warn");
    assert_eq!(export_filter(Some("")), "");
    assert_eq!(export_filter(Some("a=b=c=nonsense")), "info");
    assert_eq!(export_filter(None), "info");
}

#[test]
fn directives_that_would_be_cut_inside_a_character_are_passed_over() {
    for directives in [
        "\u{3000}a=info",
        " \u{e9}=info",
        "warn,\u{3000}a=info",
        "\u{a0}[a]=info",
        "\u{85}a[b]=info",
        "\u{1680}{a}=info",
        "\u{2003}a=info",
        "\u{2028}a=info",
        "\u{202f}a=info",
        "\u{205f}a=info",
        " [\u{e9}]",
        " a[\u{e9}]=info",
        " [a{\u{e9}}]",
        "  [\u{e9}a=x{b}]=info, \u{e9}[a]",
    ] {
        assert_eq!(export_filter(Some(directives)), "info", "{:?}", directives);
    }
}

#[test]
fn other_directives_beyond_ascii_are_parsed() {
    for directives in [
        "\u{e9}=warn",
        "warn,\u{e9}t\u{e9}=debug",
        "warn, \u{fc}ber=debug",
        " warn , hyper=debug ",
        "[\u{e9}{\u{e9}=a}]=warn",
    ] {
        let expected = if EnvFilter::try_new(directives).is_ok() { directives } else { "info" };
        assert_eq!(export_filter(Some(directives)), expected, "{:?}", directives);
    }
    assert_eq!(export_filter(Some("\u{e9}=warn")), "\u{e9}=warn");
    assert_eq!(export_filter(Some("[\u{e9}{\u{e9}=a}]=warn")), "[\u{e9}{\u{e9}=a}]=warn");
}

#[test]
fn directives_are_parsed_wherever_no_cut_hits_a_character() {
    for directives in [
        " [\u{e9}=x]",
        "  [\u{e9}]",
        " [span{\u{e9}=1}]",
        "info, [\u{e9}=x]",
        " [a\u{e9}[}b]=",
        " \u{e9}",
        "\u{3000}info]",
        "\u{3000}\u{3000}",
        "warn,\u{3000}b",
    ] {
        let parses = EnvFilter::try_new(directives).is_ok();
        let expected = if parses { directives } else { "info" };
        assert_eq!(export_filter(Some(directives)), expected, "{:?}", directives);
    }
    for directives in [" [\u{e9}=x]", "  [\u{e9}]", " [span{\u{e9}=1}]", "info, [\u{e9}=x]"] {
        assert_eq!(export_filter(Some(directives)), directives);
    }
}

#[test]
fn directives_are_taken_apart_without_a_panic() {
    let characters = [' ', '\u{3000}', '\u{e9}', 'a', '=', '[', ']', '{', '}'];
    let mut texts = vec![String::new()];
    for _ in 0..5 {
        let mut longer = Vec::new();
        for text in &texts {
            for character in characters {
                longer.push(format!("{}{}", text, character));
            }
        }
        for text in &longer {
            let filter = export_filter(Some(text));
            assert!(filter == *text || filter == "info");
        }
        texts = longer;
    }
}

#[test]
fn directives_are_not_looked_at_unless_enabled() {
    assert!(init(&config(false), Some("\u{3000}a=info")).is_none());
    assert_eq!(init(&config(true), Some("\u{3000}a=info")).unwrap().filter, "info");
    assert_eq!(init(&config(true), Some("a=b=c=nonsense")).unwrap().filter, "info");
    let plan = startup_export(ServerMode::ApiServer, &config(true), Some("\u{3000}a=info"));
    assert_eq!(plan.unwrap().filter, "info");
}

#[test]
fn filter_is_chosen() {
    assert_eq!(choose_filter(Some("x"), true), "x");
    assert_eq!(choose_filter(Some("x"), false), "info");
    assert_eq!(choose_filter(None, true), "info");
    assert_eq!(choose_filter(None, false), "info");
}

#[test]
fn plan_follows_the_configuration() {
    let plan = init(&config(true), Some("warn")).unwrap();
    assert_eq!(plan.protocol, OtlpProtocol::Http);
    assert_eq!(plan.endpoint.as_deref(), Some("http://otel-collector:4318"));
    assert_eq!((plan.timeout_secs, plan.timeout_nanos), (10, 5));
    assert_eq!(plan.service_name, "cellerd-prod");
    assert_eq!(plan.scope, "cellerd");
    assert_eq!(plan.filter, "warn");
}

#[test]
fn endpoint_is_left_to_the_exporter_when_not_given() {
    let mut config = config(true);
    config.otlp.endpoint = None;
    config.otlp.protocol = OtlpProtocol::Grpc;
    let plan = export_plan(&config, "info".to_string()).unwrap();
    assert_eq!(plan.endpoint, None);
    assert_eq!(plan.protocol, OtlpProtocol::Grpc);
    assert_eq!(plan.filter, "info");
}

#[test]
fn nothing_is_exported_unless_enabled() {
    assert!(init(&config(false), Some("warn")).is_none());
    assert!(export_plan(&config(false), "info".to_string()).is_none());
}

#[test]
fn checking_the_configuration_exports_nothing() {
    assert!(startup_export(ServerMode::CheckConfig, &config(true), Some("warn")).is_none());
    for mode in [
        ServerMode::Monolithic,
        ServerMode::ApiServer,
        ServerMode::GarbageCollector,
        ServerMode::DbMigrations,
        ServerMode::GarbageCollectorOnce,
    ] {
        assert!(startup_export(mode, &config(true), None).is_some());
        assert!(startup_export(mode, &config(false), None).is_none());
    }
}

#[test]
fn modes_run_their_components() {
    assert_eq!(ServerMode::Monolithic.steps(), vec![Step::Migrate, Step::ServeAndCollect]);
    assert_eq!(ServerMode::ApiServer.steps(), vec![Step::Serve]);
    assert_eq!(ServerMode::GarbageCollector.steps(), vec![Step::Collect]);
    assert_eq!(ServerMode::DbMigrations.steps(), vec![Step::Migrate]);
    assert_eq!(ServerMode::GarbageCollectorOnce.steps(), vec![Step::CollectOnce]);
    assert_eq!(ServerMode::CheckConfig.steps(), vec![]);
}

#[test]
fn only_the_monolithic_mode_sets_itself_up() {
    assert!(ServerMode::Monolithic.allows_first_run_setup());
    assert!(!ServerMode::ApiServer.allows_first_run_setup());
    assert!(!ServerMode::CheckConfig.allows_first_run_setup());
}

#[test]
fn banner_tells_version_and_build() {
    assert_eq!(version_banner("0.1.0", true), "Celler 0.1.0 (debug)");
    assert_eq!(version_banner("0.1.0", false), "Celler 0.1.0 (release)");
}
