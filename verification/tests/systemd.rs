use stream_infra::systemd::{daemon_reload_args, enable_args, render_unit, UNIT_PATH};
use stream_infra::text::replace_all_str;

#[test]
fn placeholders_are_replaced_everywhere() {
    let template = "[Service]\nWorkingDirectory={WORK_DIR}\nExecStart={EXEC_START} --config {CONFIG_PATH}\nEnvironment=CONFIG_PATH={CONFIG_PATH}\n";
    assert_eq!(
        render_unit(template, "/opt/rtmp-proxy", "/usr/local/bin/rtmp-proxy", "/opt/rtmp-proxy/config.toml"),
        "[Service]\nWorkingDirectory=/opt/rtmp-proxy\nExecStart=/usr/local/bin/rtmp-proxy --config /opt/rtmp-proxy/config.toml\nEnvironment=CONFIG_PATH=/opt/rtmp-proxy/config.toml\n"
    );
    assert_eq!(render_unit("no placeholders", "a", "b", "c"), "no placeholders");
}

#[test]
fn replacement_scans_left_to_right_without_rescanning() {
    assert_eq!(replace_all_str("aaa", "aa", "b"), "ba");
    assert_eq!(replace_all_str("{X}{X}", "{X}", "{X}{X}"), "{X}{X}{X}{X}");
    assert_eq!(replace_all_str("", "x", "y"), "");
    assert_eq!(replace_all_str("héllo", "é", "e"), "hello");
}

#[test]
fn systemctl_loads_and_starts_the_service() {
    assert_eq!(daemon_reload_args(), vec!["daemon-reload".to_string()]);
    assert_eq!(enable_args(), vec!["enable".to_string(), "--now".to_string(), "rtmp-proxy".to_string()]);
    assert_eq!(UNIT_PATH, "/etc/systemd/system/rtmp-proxy.service");
}
