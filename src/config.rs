//! Run arguments and the configuration of the four network clients that a
//! benchmark invocation uses.
use vstd::prelude::*;

verus! {

/// Address under which the service being benchmarked answers.
pub const TARGET_URL: &'static str = "http://127.0.0.1:7700";

/// Endpoint of the service that streams its logs.
pub const LOG_STREAM_URL: &'static str = "http://127.0.0.1:7700/logs/stream";

/// Path appended to the dashboard URL to reach its API.
pub const DASHBOARD_API_PATH: &'static str = "/api/v1";

/// Request timeout of the asset client: one hour.
pub const ASSETS_TIMEOUT_SECS: u64 = 3600;

/// Request timeout of the dashboard and target clients: one minute.
pub const REQUEST_TIMEOUT_SECS: u64 = 60;

/// Arguments of one benchmark invocation.
pub struct BenchDeriveArgs {
    /// Workload files, run in this order.
    pub workload_file: Vec<String>,
    /// URL of the dashboard.
    pub dashboard_url: String,
    /// Directory to output reports.
    pub report_folder: String,
    /// Directory to store the remote assets.
    pub asset_folder: String,
    /// Log directives.
    pub log_filter: String,
    /// Dashboard API key.
    pub api_key: Option<String>,
    /// Key of the service under benchmark.
    pub master_key: Option<String>,
    /// Bearer credential for fetching assets.
    pub assets_key: Option<String>,
    /// Reason for the invocation.
    pub reason: Option<String>,
}

/// How one HTTP client is set up: a base URL (none: absolute URLs only), a
/// bearer credential, and a request timeout in seconds (none: unbounded).
pub struct ClientConfig {
    pub base_url: Option<String>,
    pub bearer: Option<String>,
    pub timeout_secs: Option<u64>,
}

/// The four clients held by the controller.
pub struct ClientSet {
    pub assets: ClientConfig,
    pub dashboard: ClientConfig,
    pub logs: ClientConfig,
    pub target: ClientConfig,
}

/// Base URL of the dashboard's API.
pub fn dashboard_api_url(dashboard_url: &str) -> (r: String)
    ensures
        r@ == dashboard_url@ + DASHBOARD_API_PATH@,
{
    dashboard_url.to_owned().concat(DASHBOARD_API_PATH)
}

fn copy_key(key: &Option<String>) -> (r: Option<String>)
    ensures
        r == *key,
{
    match key {
        Some(k) => Some(k.clone()),
        None => None,
    }
}

impl BenchDeriveArgs {
    /// Number of workloads that the invocation declares to the dashboard.
    pub fn max_workloads(&self) -> (r: usize)
        ensures
            r == self.workload_file@.len(),
    {
        self.workload_file.len()
    }

    /// Configuration of the asset, dashboard, log-stream and target clients.
    /// The log stream has no timeout: reading it lasts as long as the run.
    pub fn client_set(&self) -> (r: ClientSet)
        ensures
            r.assets.base_url is None,
            r.assets.bearer == self.assets_key,
            r.assets.timeout_secs == Some(ASSETS_TIMEOUT_SECS),
            r.dashboard.base_url matches Some(u) && u@ == self.dashboard_url@
                + DASHBOARD_API_PATH@,
            r.dashboard.bearer == self.api_key,
            r.dashboard.timeout_secs == Some(REQUEST_TIMEOUT_SECS),
            r.logs.base_url matches Some(u) && u@ == LOG_STREAM_URL@,
            r.logs.bearer == self.master_key,
            r.logs.timeout_secs is None,
            r.target.base_url matches Some(u) && u@ == TARGET_URL@,
            r.target.bearer == self.master_key,
            r.target.timeout_secs == Some(REQUEST_TIMEOUT_SECS),
    {
        ClientSet {
            assets: ClientConfig {
                base_url: None,
                bearer: copy_key(&self.assets_key),
                timeout_secs: Some(ASSETS_TIMEOUT_SECS),
            },
            dashboard: ClientConfig {
                base_url: Some(dashboard_api_url(self.dashboard_url.as_str())),
                bearer: copy_key(&self.api_key),
                timeout_secs: Some(REQUEST_TIMEOUT_SECS),
            },
            logs: ClientConfig {
                base_url: Some(String::from_str(LOG_STREAM_URL)),
                bearer: copy_key(&self.master_key),
                timeout_secs: None,
            },
            target: ClientConfig {
                base_url: Some(String::from_str(TARGET_URL)),
                bearer: copy_key(&self.master_key),
                timeout_secs: Some(REQUEST_TIMEOUT_SECS),
            },
        }
    }
}

/// The first line of a commit message: everything before its first line
/// feed, or the whole message where it has none.
pub fn commit_summary(message: &str) -> (r: String)
    ensures
        r@.len() <= message@.len(),
        r@ == message@.subrange(0, r@.len() as int),
        forall|i: int| 0 <= i < r@.len() ==> r@[i] != '\n',
        r@.len() == message@.len() || message@[r@.len() as int] == '\n',
{
    let n = message.unicode_len();
    let mut end: usize = 0;
    while end < n
        invariant
            n == message@.len(),
            end <= n,
            forall|i: int| 0 <= i < end ==> message@[i] != '\n',
        ensures
            end == n || message@[end as int] == '\n',
        decreases n - end,
    {
        if message.get_char(end) == '\n' {
            break;
        }
        end = end + 1;
    }
    message.substring_char(0, end).to_owned()
}

} // verus!
