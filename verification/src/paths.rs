//! The locations the client writes to, relative to a project root the
//! application resolves (the verified core never touches the
//! filesystem itself).

use vstd::prelude::*;
use vstd::string::StringExecFns;

verus! {

/// Where downloaded works are stored: `{root}/manga`.
pub fn manga_save_dir(project_root: &str) -> (r: String)
    ensures
        r@ == project_root@ + "/manga"@,
{
    let mut r = project_root.to_owned();
    r.append("/manga");
    r
}

/// Where log files are stored: `{root}/log`.
pub fn log_save_dir(project_root: &str) -> (r: String)
    ensures
        r@ == project_root@ + "/log"@,
{
    let mut r = project_root.to_owned();
    r.append("/log");
    r
}

/// Where the configuration file lives: `{root}/config.toml`.
pub fn config_toml(project_root: &str) -> (r: String)
    ensures
        r@ == project_root@ + "/config.toml"@,
{
    let mut r = project_root.to_owned();
    r.append("/config.toml");
    r
}

} // verus!
