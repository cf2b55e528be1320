use mtg::Monitor;
use mtg::MonitorError;
use mtg::MonitorState;
use mtg::XMonitor;
use mtg::XrandrCommand;

fn lines(raw: &[&str]) -> Vec<String> {
    raw.iter().map(|l| l.to_string()).collect()
}

#[test]
fn discovery_primary_scenario() {
    let q = lines(&[
        "HDMI-1 connected primary 1920x1080+0+0 normal (normal left inverted) 509mm x 286mm",
        "VGA-1 disconnected (normal left inverted right x axis y axis)",
    ]);
    let m = XMonitor::primary(&q).unwrap();
    assert_eq!(m.name().as_str(), "HDMI-1");
    assert_eq!(m.status(&q).unwrap(), MonitorState::On);
    let res = m.resolution(&q).unwrap();
    assert_eq!(res.as_deref(), Some("1920x1080"));
}

#[test]
fn discovery_fallback_scenario() {
    let q = lines(&["DP-1 connected 1280x1024+0+0", "DP-2 connected"]);
    let m = mtg::primary_monitor(&q).unwrap();
    assert_eq!(m.name().as_str(), "DP-1");
    let other = XMonitor::new("DP-2".to_string());
    assert_eq!(other.status(&q).unwrap(), MonitorState::Off);
}

#[test]
fn discovery_prefers_primary_marker() {
    let q = lines(&[
        "VGA-1 connected 1024x768+0+0 normal",
        "HDMI-1 connected primary 1920x1080+0+0 normal",
    ]);
    let m = XMonitor::primary(&q).unwrap();
    assert_eq!(m.name().as_str(), "HDMI-1");
}

#[test]
fn discovery_multiple_without_primary_takes_first() {
    let q = lines(&[
        "eDP-1 connected 1366x768+0+0 normal",
        "HDMI-2 connected 1920x1080+1366+0 normal",
    ]);
    let m = XMonitor::primary(&q).unwrap();
    assert_eq!(m.name().as_str(), "eDP-1");
}

#[test]
fn discovery_fails_without_connected() {
    let q = lines(&["VGA-1 disconnected (normal left inverted)"]);
    assert_eq!(
        XMonitor::primary(&q).unwrap_err(),
        MonitorError::NoConnectedMonitors
    );
    let empty: Vec<String> = Vec::new();
    assert_eq!(
        mtg::primary_monitor(&empty).unwrap_err(),
        MonitorError::NoConnectedMonitors
    );
}

#[test]
fn entry_lookup_takes_first_prefix_line() {
    let q = lines(&["DP-1 connected 1280x1024+0+0", "DP-1 garbage"]);
    let m = XMonitor::new("DP-1".to_string());
    assert_eq!(m.xrandr_entry(&q).unwrap(), "DP-1 connected 1280x1024+0+0");
}

#[test]
fn vanished_monitor_is_reported() {
    let q = lines(&["DP-1 connected 1280x1024+0+0"]);
    let m = XMonitor::new("DP-3".to_string());
    assert_eq!(m.xrandr_entry(&q).unwrap_err(), MonitorError::MonitorVanished);
    assert_eq!(m.status(&q).unwrap_err(), MonitorError::MonitorVanished);
    assert_eq!(m.resolution(&q).unwrap_err(), MonitorError::MonitorVanished);
    assert_eq!(
        m.toggle(MonitorState::On, &q, &q).unwrap_err(),
        MonitorError::MonitorVanished
    );
}

#[test]
fn resolution_pattern_decides_state() {
    let m = XMonitor::new("A".to_string());
    assert_eq!(
        m.status(&lines(&["A 800x600 rest"])).unwrap(),
        MonitorState::On
    );
    assert_eq!(
        m.status(&lines(&["A disconnected"])).unwrap(),
        MonitorState::Off
    );
    // the token needs a non-digit boundary on both sides
    assert_eq!(m.status(&lines(&["A 800x600"])).unwrap(), MonitorState::Off);
    assert_eq!(m.status(&lines(&["A800x600 "])).unwrap(), MonitorState::On);
}

#[test]
fn resolution_takes_leftmost_token() {
    let q = lines(&["X 12x34 5678x910 tail"]);
    let m = XMonitor::new("X".to_string());
    assert_eq!(m.resolution(&q).unwrap().as_deref(), Some("12x34"));
}

#[test]
fn resolution_absent_without_boundaries() {
    let m = XMonitor::new("X".to_string());
    assert_eq!(m.resolution(&lines(&["X abc"])).unwrap(), None);
    assert_eq!(m.resolution(&lines(&["X 1920x+0"])).unwrap(), None);
    assert_eq!(m.resolution(&lines(&["X x1080 "])).unwrap(), None);
}

#[test]
fn toggle_is_idempotent_when_on() {
    let q = lines(&["DP-1 connected 1280x1024+0+0"]);
    let m = XMonitor::new("DP-1".to_string());
    let cmds = m.toggle(MonitorState::On, &q, &q).unwrap();
    assert!(cmds.is_empty());
}

#[test]
fn toggle_is_idempotent_when_off() {
    let q = lines(&["DP-1 connected (normal left inverted)"]);
    let m = XMonitor::new("DP-1".to_string());
    let cmds = m.toggle(MonitorState::Off, &q, &q).unwrap();
    assert!(cmds.is_empty());
}

#[test]
fn toggle_off_issues_one_command_pinning_resolution() {
    let q = lines(&["DP-1 connected 1280x1024+0+0"]);
    let m = XMonitor::new("DP-1".to_string());
    let cmds = m.toggle(MonitorState::Off, &q, &q).unwrap();
    assert_eq!(cmds.len(), 1);
    match &cmds[0] {
        XrandrCommand::TurnOff { output, fb } => {
            assert_eq!(output.as_str(), "DP-1");
            assert_eq!(fb.as_str(), "1280x1024");
        }
        _ => panic!("expected an off command"),
    }
    let args = cmds[0].args();
    let args: Vec<&str> = args.iter().map(|s| s.as_str()).collect();
    assert_eq!(args, vec!["--output", "DP-1", "--fb", "1280x1024", "--off"]);
    // a later capture without the token parses as Off
    let updated = lines(&["DP-1 connected (normal left inverted)"]);
    assert_eq!(m.status(&updated).unwrap(), MonitorState::Off);
}

#[test]
fn toggle_off_skips_when_resolution_vanished() {
    let status_q = lines(&["DP-1 connected 1280x1024+0+0"]);
    let transition_q = lines(&["DP-1 connected"]);
    let m = XMonitor::new("DP-1".to_string());
    let cmds = m.toggle(MonitorState::Off, &status_q, &transition_q).unwrap();
    assert!(cmds.is_empty());
}

#[test]
fn toggle_on_issues_auto_command() {
    let q = lines(&["DP-1 connected (normal left inverted)"]);
    let m = XMonitor::new("DP-1".to_string());
    let cmds = m.toggle(MonitorState::On, &q, &q).unwrap();
    assert_eq!(cmds.len(), 1);
    match &cmds[0] {
        XrandrCommand::TurnOn { output } => assert_eq!(output.as_str(), "DP-1"),
        _ => panic!("expected an on command"),
    }
    let args = cmds[0].args();
    let args: Vec<&str> = args.iter().map(|s| s.as_str()).collect();
    assert_eq!(args, vec!["--output", "DP-1", "--auto"]);
}

#[test]
fn state_inversion_is_an_involution() {
    assert_eq!(MonitorState::On.not(), MonitorState::Off);
    assert_eq!(MonitorState::Off.not(), MonitorState::On);
    assert_eq!(MonitorState::On.not().not(), MonitorState::On);
    assert_eq!(MonitorState::Off.not().not(), MonitorState::Off);
}
