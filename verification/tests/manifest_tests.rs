use agentusage::plugin_runtime::runtime::{is_empty_result, probe_lines};
use agentusage::plugin_runtime::manifest::{sort_plugins, str_precedes, LoadedPlugin, PluginManifest};
use agentusage::plugin_runtime::runtime::{probe_output, MetricLine, ProbeResult};

fn plugin(id: &str, name: &str) -> LoadedPlugin {
    LoadedPlugin {
        manifest: PluginManifest {
            schema_version: 1,
            id: id.to_string(),
            name: name.to_string(),
            version: "0.1.0".to_string(),
            entry: "plugin.js".to_string(),
            icon: None,
            brand_color: None,
            lines: vec![],
        },
        dir: format!("/plugins/{id}"),
        script: String::new(),
    }
}

#[test]
fn plugins_are_ordered_by_id() {
    let sorted = sort_plugins(vec![plugin("zai", "ZAI"), plugin("amp", "Amp"), plugin("codex", "Codex"), plugin("kimi", "Kimi")]);
    let ids: Vec<&str> = sorted.iter().map(|p| p.manifest.id.as_str()).collect();
    assert_eq!(ids, vec!["amp", "codex", "kimi", "zai"]);
}

#[test]
fn equal_ids_keep_their_order() {
    let sorted = sort_plugins(vec![plugin("b", "first b"), plugin("a", "a"), plugin("b", "second b")]);
    let names: Vec<&str> = sorted.iter().map(|p| p.manifest.name.as_str()).collect();
    assert_eq!(names, vec!["a", "first b", "second b"]);
}

#[test]
fn empty_list_sorts_to_empty() {
    assert!(sort_plugins(vec![]).is_empty());
}

#[test]
fn string_order_is_that_of_str() {
    for (a, b) in [("a", "b"), ("ab", "abc"), ("", "a"), ("B", "a"), ("jetbrains-ai-assistant", "kimi"), ("opencode-go", "opencode")] {
        assert_eq!(str_precedes(a, b), a < b, "{a} {b}");
        assert_eq!(str_precedes(b, a), b < a, "{b} {a}");
    }
    assert!(!str_precedes("same", "same"));
}

#[test]
fn probe_output_of_success_and_failure() {
    let p = plugin("mock", "Mock");
    let line = MetricLine::Text { label: "Plan".to_string(), value: "Pro".to_string(), color: None, subtitle: None };
    let ok = probe_output(&p, Ok(ProbeResult { lines: vec![line], plan: Some("Pro".to_string()) }));
    assert_eq!(ok.provider_id, "mock");
    assert_eq!(ok.display_name, "Mock");
    assert_eq!(ok.lines.len(), 1);
    assert!(ok.error.is_none());
    assert_eq!(ok.plan.as_deref(), Some("Pro"));
    let err = probe_output(&p, Err("probe() call failed: boom".to_string()));
    assert!(err.lines.is_empty());
    assert_eq!(err.error.as_deref(), Some("probe() call failed: boom"));
    assert!(err.plan.is_none());
}

#[test]
fn probe_result_shapes() {
    assert!(is_empty_result(""));
    assert!(is_empty_result("null"));
    assert!(!is_empty_result("[]"));
    assert!(!is_empty_result("{\"lines\":[]}"));
    let text = |v: &str| MetricLine::Text { label: "L".to_string(), value: v.to_string(), color: None, subtitle: None };
    let r = probe_lines(Some((vec![text("a")], Some("Pro".to_string()))), Some(vec![text("b"), text("c")]));
    assert_eq!(r.lines.len(), 1);
    assert_eq!(r.plan.as_deref(), Some("Pro"));
    let r = probe_lines(None, Some(vec![text("b"), text("c")]));
    assert_eq!(r.lines.len(), 2);
    assert!(r.plan.is_none());
    let r = probe_lines(None, None);
    assert!(r.lines.is_empty() && r.plan.is_none());
}
