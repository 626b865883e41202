//! Default values of the runner's command-line options.
use vstd::prelude::*;

verus! {

/// Address of the service under benchmark.
pub fn default_http_addr() -> (r: String)
    ensures
        r@ == "127.0.0.1:7700"@,
{
    String::from_str("127.0.0.1:7700")
}

/// Directory where a report file is written for each workload run.
pub fn default_report_folder() -> (r: String)
    ensures
        r@ == "./bench/reports/"@,
{
    String::from_str("./bench/reports/")
}

/// Directory where the remote assets are cached.
pub fn default_asset_folder() -> (r: String)
    ensures
        r@ == "./bench/assets/"@,
{
    String::from_str("./bench/assets/")
}

/// Log directive used when none is given.
pub fn default_log_filter() -> (r: String)
    ensures
        r@ == "info"@,
{
    String::from_str("info")
}

/// Base URL of the results dashboard.
pub fn default_dashboard_url() -> (r: String)
    ensures
        r@ == "http://localhost:9001"@,
{
    String::from_str("http://localhost:9001")
}

} // verus!
