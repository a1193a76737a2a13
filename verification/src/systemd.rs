//! The systemd unit that runs the proxy as a service: the unit file is the
//! template with its placeholders filled in, and two `systemctl` calls load
//! and start it.

use crate::server::handler::strings_view;
use crate::text::replace_all_str;
use vstd::prelude::*;

verus! {

/// Where the unit file is written.
pub const UNIT_PATH: &'static str = "/etc/systemd/system/rtmp-proxy.service";

/// The name under which the service is enabled.
pub const SERVICE_NAME: &'static str = "rtmp-proxy";

/// Stands for the service's working directory in the template.
pub const WORK_DIR_PLACEHOLDER: &'static str = "{WORK_DIR}";

/// Stands for the path of the executable in the template.
pub const EXEC_START_PLACEHOLDER: &'static str = "{EXEC_START}";

/// Stands for the configuration file in the template.
pub const CONFIG_PATH_PLACEHOLDER: &'static str = "{CONFIG_PATH}";

/// The unit file: the working directory, then the executable, then the
/// configuration path substituted for their placeholders, each everywhere
/// it occurs.
pub open spec fn unit_text(
    template: Seq<char>,
    work_dir: Seq<char>,
    exec_start: Seq<char>,
    config_path: Seq<char>,
) -> Seq<char> {
    let a = crate::text::replace_all(template, WORK_DIR_PLACEHOLDER@, work_dir);
    let b = crate::text::replace_all(a, EXEC_START_PLACEHOLDER@, exec_start);
    crate::text::replace_all(b, CONFIG_PATH_PLACEHOLDER@, config_path)
}

pub fn render_unit(template: &str, work_dir: &str, exec_start: &str, config_path: &str) -> (r: String)
    ensures
        r@ == unit_text(template@, work_dir@, exec_start@, config_path@),
{
    proof {
        reveal_strlit("{WORK_DIR}");
        reveal_strlit("{EXEC_START}");
        reveal_strlit("{CONFIG_PATH}");
    }
    let a = replace_all_str(template, WORK_DIR_PLACEHOLDER, work_dir);
    let b = replace_all_str(a.as_str(), EXEC_START_PLACEHOLDER, exec_start);
    replace_all_str(b.as_str(), CONFIG_PATH_PLACEHOLDER, config_path)
}

/// `systemctl` arguments that make systemd reread its unit files.
pub fn daemon_reload_args() -> (r: Vec<String>)
    ensures
        strings_view(r@) == seq!["daemon-reload"@],
{
    let r = vec!["daemon-reload".to_owned()];
    assert(strings_view(r@) =~= seq!["daemon-reload"@]);
    r
}

/// `systemctl` arguments that enable the service and start it now.
pub fn enable_args() -> (r: Vec<String>)
    ensures
        strings_view(r@) == seq!["enable"@, "--now"@, SERVICE_NAME@],
{
    let r = vec!["enable".to_owned(), "--now".to_owned(), SERVICE_NAME.to_owned()];
    assert(strings_view(r@) =~= seq!["enable"@, "--now"@, SERVICE_NAME@]);
    r
}

} // verus!
