use agentusage::commands::configure::{
    configure_action, credential_prompt, provider_menu_label, ConfigureAction, ConfigureArgs,
    ConfigureError,
};
use agentusage::commands::plugins::{
    after_copy, after_destination_check, after_load, after_locate_for_add,
    after_locate_for_remove, after_remove, after_resolve, after_setup, after_source_check,
    after_target_check, after_target_manifest_check, run, PluginsCommand, PluginsError,
    PluginsReport, PluginsStep,
};
use agentusage::commands::status::{
    bar_tone, output_format, rec_name, reset_countdown, runs_out_countdown, select_provider,
    shown_in_summary, status_name, table_status_name, usage_display, Countdown, OutputFormat,
    StatusArgs, Tone, UsageDisplay,
};
use agentusage::plugin_runtime::manifest::{LoadedPlugin, PluginManifest};
use agentusage::snapshot::{ProviderRec, ProviderStatus, UsagePeriod};

fn args(provider: Option<&str>, key: Option<&str>, delete: bool) -> ConfigureArgs {
    ConfigureArgs { provider: provider.map(String::from), key: key.map(String::from), delete }
}

#[test]
fn configure_argument_combinations() {
    match configure_action(args(Some("kimi"), Some("sk-1"), false)) {
        Ok(ConfigureAction::Store { provider_id, key }) => {
            assert_eq!(provider_id, "kimi");
            assert_eq!(key, "sk-1");
        }
        other => panic!("{other:?}"),
    }
    assert!(matches!(configure_action(args(Some("kimi"), None, true)), Ok(ConfigureAction::Delete { provider_id }) if provider_id == "kimi"));
    assert!(matches!(configure_action(args(None, None, false)), Ok(ConfigureAction::Interactive)));
    assert!(matches!(configure_action(args(Some("kimi"), None, false)), Ok(ConfigureAction::Prompt { provider_id }) if provider_id == "kimi"));
    for bad in [args(Some("c"), Some("k"), true), args(None, Some("k"), false), args(None, None, true), args(None, Some("k"), true)] {
        assert!(matches!(configure_action(bad), Err(ConfigureError::InvalidArguments)));
    }
    assert_eq!(
        ConfigureError::InvalidArguments.message(),
        "invalid arguments: use --provider and --key together, or --provider and --delete"
    );
}

#[test]
fn credential_prompts_and_menu_labels() {
    assert_eq!(credential_prompt("kimi", false), "Credential for 'kimi'");
    assert_eq!(credential_prompt("kimi", true), "New credential for 'kimi' (leave blank to keep existing)");
    assert_eq!(provider_menu_label("Kimi", true), "Kimi ✓");
    assert_eq!(provider_menu_label("Kimi", false), "Kimi");
}

#[test]
fn plugins_commands_start_with_setup() {
    assert!(matches!(run(PluginsCommand::List), PluginsStep::InstallBundled { command: PluginsCommand::List }));
    assert!(matches!(after_setup(PluginsCommand::List, Ok(())), PluginsStep::ShowInstalled));
    assert!(matches!(after_setup(PluginsCommand::Add { path: "./p".into() }, Ok(())), PluginsStep::ResolveSource { path } if path == "./p"));
    assert!(matches!(after_setup(PluginsCommand::Remove { id: "x".into() }, Ok(())), PluginsStep::LocateForRemove { id } if id == "x"));
    assert!(matches!(after_setup(PluginsCommand::List, Err("disk".into())), PluginsStep::Fail(PluginsError::Setup { detail }) if detail == "disk"));
}

#[test]
fn adding_a_plugin_walks_its_checks() {
    let s = after_resolve("./p".into(), Some("/src/p".into()), false);
    assert!(matches!(&s, PluginsStep::CheckSourceManifest { source, manifest } if source == "/src/p" && manifest == "/src/p/plugin.json"));
    assert!(matches!(after_resolve("./p".into(), None, false), PluginsStep::Fail(PluginsError::PathNotFound { path }) if path == "./p"));
    assert!(matches!(after_source_check("/src/p".into(), true), PluginsStep::LoadSource { source } if source == "/src/p"));
    assert!(matches!(after_source_check("/src/p".into(), false), PluginsStep::Fail(PluginsError::NoManifest { dir }) if dir == "/src/p"));
    assert!(matches!(after_load("/src/p".into(), Ok(("mock".into(), "Mock".into()))), PluginsStep::LocateForAdd { id, name, .. } if id == "mock" && name == "Mock"));
    assert!(matches!(after_load("/src/p".into(), Err("bad json".into())), PluginsStep::Fail(PluginsError::InvalidPlugin { dir, .. }) if dir == "/src/p"));
    let s = after_locate_for_add("/src/p".into(), "mock".into(), "Mock".into(), Ok("/data/plugins".into()), false);
    assert!(matches!(&s, PluginsStep::CheckDestination { destination, .. } if destination == "/data/plugins/mock"));
    assert!(matches!(after_destination_check("/src/p".into(), "mock".into(), "Mock".into(), "/data/plugins/mock".into(), true), PluginsStep::Fail(PluginsError::AlreadyInstalled { id }) if id == "mock"));
    assert!(matches!(after_destination_check("/src/p".into(), "mock".into(), "Mock".into(), "/data/plugins/mock".into(), false), PluginsStep::CopyPlugin { source, destination, .. } if source == "/src/p" && destination == "/data/plugins/mock"));
    assert!(matches!(after_copy("mock".into(), "Mock".into(), Ok(())), PluginsStep::Done(PluginsReport::Installed { name, id }) if name == "Mock" && id == "mock"));
    assert!(matches!(after_copy("mock".into(), "Mock".into(), Err("full".into())), PluginsStep::Fail(PluginsError::CopyFailed { .. })));
}

#[test]
fn removing_a_plugin_walks_its_checks() {
    let s = after_locate_for_remove("mock".into(), Ok("/data/plugins".into()), false);
    assert!(matches!(&s, PluginsStep::CheckTarget { target, .. } if target == "/data/plugins/mock"));
    assert!(matches!(after_target_check("mock".into(), "/data/plugins/mock".into(), false, false), PluginsStep::Fail(PluginsError::NotInstalled { id }) if id == "mock"));
    assert!(matches!(after_target_check("mock".into(), "/data/plugins/mock".into(), true, false), PluginsStep::CheckTargetManifest { manifest, .. } if manifest == "/data/plugins/mock/plugin.json"));
    assert!(matches!(after_target_manifest_check("mock".into(), "/data/plugins/mock".into(), false), PluginsStep::Fail(PluginsError::NotAPluginDirectory { dir }) if dir == "/data/plugins/mock"));
    assert!(matches!(after_target_manifest_check("mock".into(), "/data/plugins/mock".into(), true), PluginsStep::RemoveTarget { target, .. } if target == "/data/plugins/mock"));
    assert!(matches!(after_remove("mock".into(), Ok(())), PluginsStep::Done(PluginsReport::Removed { id }) if id == "mock"));
    assert!(matches!(after_remove("mock".into(), Err("busy".into())), PluginsStep::Fail(PluginsError::RemoveFailed { .. })));
}

#[test]
fn plugin_paths_on_windows() {
    let s = after_resolve("p".into(), Some("C:\\src\\p".into()), true);
    assert!(matches!(&s, PluginsStep::CheckSourceManifest { manifest, .. } if manifest == "C:\\src\\p\\plugin.json"));
    let s = after_locate_for_remove("mock".into(), Ok("C:\\plugins".into()), true);
    assert!(matches!(&s, PluginsStep::CheckTarget { target, .. } if target == "C:\\plugins\\mock"));
}

#[test]
fn plugins_error_messages() {
    let m = |e: PluginsError| e.message();
    assert_eq!(m(PluginsError::Setup { detail: "disk full".into() }), "disk full");
    assert_eq!(m(PluginsError::PathNotFound { path: "./p".into() }), "path not found: ./p");
    assert_eq!(m(PluginsError::NoManifest { dir: "/src/p".into() }), "no plugin.json found in /src/p");
    assert_eq!(m(PluginsError::InvalidPlugin { dir: "/src/p".into(), detail: "bad".into() }), "invalid plugin at /src/p");
    assert_eq!(
        m(PluginsError::AlreadyInstalled { id: "mock".into() }),
        "plugin 'mock' is already installed. Remove it first with `au plugins remove mock`"
    );
    assert_eq!(m(PluginsError::CopyFailed { detail: "denied".into() }), "denied");
    assert_eq!(m(PluginsError::NotInstalled { id: "mock".into() }), "plugin 'mock' is not installed");
    assert_eq!(
        m(PluginsError::NotAPluginDirectory { dir: "/data/plugins/mock".into() }),
        "'/data/plugins/mock' does not appear to be a plugin directory"
    );
    assert_eq!(m(PluginsError::RemoveFailed { id: "mock".into(), detail: "busy".into() }), "could not remove plugin 'mock'");
}

fn plugin(id: &str) -> LoadedPlugin {
    LoadedPlugin {
        manifest: PluginManifest {
            schema_version: 1,
            id: id.to_string(),
            name: id.to_uppercase(),
            version: "1".to_string(),
            entry: "plugin.js".to_string(),
            icon: None,
            brand_color: None,
            lines: vec![],
        },
        dir: String::new(),
        script: String::new(),
    }
}

#[test]
fn provider_filter() {
    let all = || vec![plugin("amp"), plugin("kimi"), plugin("codex")];
    assert_eq!(select_provider(all(), &None).unwrap().len(), 3);
    let kept = select_provider(all(), &Some("kimi".to_string())).unwrap();
    assert_eq!(kept.len(), 1);
    assert_eq!(kept[0].manifest.id, "kimi");
    let missing = select_provider(all(), &Some("cursor".to_string())).unwrap_err();
    assert_eq!(missing.provider_id, "cursor");
    assert!(select_provider(vec![], &None).unwrap().is_empty());
}

#[test]
fn output_formats_and_names() {
    let a = |json, markdown| StatusArgs { json, provider: None, markdown };
    assert_eq!(output_format(&a(true, true)), OutputFormat::Json);
    assert_eq!(output_format(&a(false, true)), OutputFormat::Markdown);
    assert_eq!(output_format(&a(false, false)), OutputFormat::Human);
    assert_eq!(status_name(ProviderStatus::Okay), "ok");
    assert_eq!(status_name(ProviderStatus::NotConfigured), "not_configured");
    assert_eq!(status_name(ProviderStatus::Error), "error");
    assert_eq!(table_status_name(ProviderStatus::NotConfigured), "notconfigured");
    assert_eq!(rec_name(ProviderRec::Sufficient), "sufficient");
    assert_eq!(rec_name(ProviderRec::Low), "low");
    assert_eq!(rec_name(ProviderRec::Exhausted), "exhausted");
    assert_eq!(rec_name(ProviderRec::Unknown), "unknown");
    assert!(shown_in_summary(ProviderStatus::Okay, false));
    assert!(!shown_in_summary(ProviderStatus::Error, false));
    assert!(!shown_in_summary(ProviderStatus::NotConfigured, false));
    assert!(shown_in_summary(ProviderStatus::Error, true));
}

#[test]
fn bar_tones() {
    assert_eq!(bar_tone(0.51f64.to_bits()), Tone::Good);
    assert_eq!(bar_tone(0.5f64.to_bits()), Tone::Warning);
    assert_eq!(bar_tone(0.21f64.to_bits()), Tone::Warning);
    assert_eq!(bar_tone(0.2f64.to_bits()), Tone::Critical);
    assert_eq!(bar_tone(0f64.to_bits()), Tone::Critical);
}

#[test]
fn usage_displays() {
    let mut p = UsagePeriod {
        tokens_used: Some(1f64.to_bits()),
        tokens_limit: Some(2f64.to_bits()),
        remaining_fraction: 0.5f64.to_bits(),
        cost_usd: None,
        cost_limit_usd: None,
        requests_count: None,
        resets_at: None,
        period_duration_ms: None,
    };
    assert_eq!(usage_display(&p), UsageDisplay::Tokens);
    p.tokens_limit = None;
    p.cost_usd = Some(3f64.to_bits());
    p.cost_limit_usd = Some(4f64.to_bits());
    assert_eq!(usage_display(&p), UsageDisplay::Cost);
    p.cost_limit_usd = None;
    assert_eq!(usage_display(&p), UsageDisplay::Percent);
}

#[test]
fn countdowns() {
    assert_eq!(reset_countdown(0), Countdown::Soon);
    assert_eq!(reset_countdown(-5), Countdown::Soon);
    assert_eq!(reset_countdown(45), Countdown::Minutes { minutes: 45 });
    assert_eq!(reset_countdown(125), Countdown::HoursMinutes { hours: 2, minutes: 5 });
    assert_eq!(reset_countdown(1440), Countdown::DaysHours { days: 1, hours: 0 });
    assert_eq!(reset_countdown(3 * 1440 + 7 * 60 + 59), Countdown::DaysHours { days: 3, hours: 7 });
    assert_eq!(runs_out_countdown(0), Countdown::Soon);
    assert_eq!(runs_out_countdown(59), Countdown::Minutes { minutes: 59 });
    assert_eq!(runs_out_countdown(60), Countdown::HoursMinutes { hours: 1, minutes: 0 });
    assert_eq!(runs_out_countdown(2000), Countdown::HoursMinutes { hours: 33, minutes: 20 });
}
