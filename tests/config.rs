use bench_orchestrator::config::{commit_summary, dashboard_api_url, BenchDeriveArgs};
use bench_orchestrator::defaults::{
    default_asset_folder, default_dashboard_url, default_http_addr, default_log_filter,
    default_report_folder,
};
use bench_orchestrator::swap_indexes::SwapIndexesPayload;

fn args() -> BenchDeriveArgs {
    BenchDeriveArgs {
        workload_file: vec!["a.json".to_string(), "b.json".to_string()],
        dashboard_url: default_dashboard_url(),
        report_folder: default_report_folder(),
        asset_folder: default_asset_folder(),
        log_filter: default_log_filter(),
        api_key: Some("dashboard-key".to_string()),
        master_key: Some("master".to_string()),
        assets_key: None,
        reason: Some("nightly".to_string()),
    }
}

#[test]
fn defaults() {
    assert_eq!(default_http_addr(), "127.0.0.1:7700");
    assert_eq!(default_report_folder(), "./bench/reports/");
    assert_eq!(default_asset_folder(), "./bench/assets/");
    assert_eq!(default_log_filter(), "info");
    assert_eq!(default_dashboard_url(), "http://localhost:9001");
}

#[test]
fn dashboard_api_is_under_the_dashboard_url() {
    assert_eq!(dashboard_api_url("http://localhost:9001"), "http://localhost:9001/api/v1");
    assert_eq!(dashboard_api_url(""), "/api/v1");
}

#[test]
fn four_clients() {
    let a = args();
    assert_eq!(a.max_workloads(), 2);
    let clients = a.client_set();
    assert_eq!(clients.assets.base_url, None);
    assert_eq!(clients.assets.bearer, None);
    assert_eq!(clients.assets.timeout_secs, Some(3600));
    assert_eq!(clients.dashboard.base_url.as_deref(), Some("http://localhost:9001/api/v1"));
    assert_eq!(clients.dashboard.bearer.as_deref(), Some("dashboard-key"));
    assert_eq!(clients.dashboard.timeout_secs, Some(60));
    assert_eq!(clients.logs.base_url.as_deref(), Some("http://127.0.0.1:7700/logs/stream"));
    assert_eq!(clients.logs.bearer.as_deref(), Some("master"));
    assert_eq!(clients.logs.timeout_secs, None);
    assert_eq!(clients.target.base_url.as_deref(), Some("http://127.0.0.1:7700"));
    assert_eq!(clients.target.bearer.as_deref(), Some("master"));
    assert_eq!(clients.target.timeout_secs, Some(60));
}

#[test]
fn commit_summary_keeps_first_line() {
    assert_eq!(commit_summary("Fix ranking\n\nLonger body"), "Fix ranking");
    assert_eq!(commit_summary("single line"), "single line");
    assert_eq!(commit_summary(""), "");
    assert_eq!(commit_summary("\nbody"), "");
    assert_eq!(commit_summary("Über schnell\nmehr"), "Über schnell");
}

#[test]
fn swap_payload_holds_its_indexes() {
    let p = SwapIndexesPayload { indexes: vec!["movies".to_string(), "movies_new".to_string()] };
    assert_eq!(p.clone(), p);
    assert_eq!(p.indexes.len(), 2);
}
