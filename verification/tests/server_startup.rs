use daly_bms::startup::{address_strings, ServerArgs};

fn args(v: &[&str]) -> Vec<String> {
    v.iter().map(|s| s.to_string()).collect()
}

#[test]
fn command_line_flags() {
    let a = ServerArgs::from_args(&args(&["server", "--simulate", "--sim-bms", "1,2,0x03", "--port", "COM3", "--bms", "0x28,0x29"]));
    assert!(a.simulate);
    assert_eq!(a.sim_addrs, vec![1, 2, 3]);
    assert_eq!(a.port, Some("COM3".to_string()));
    assert_eq!(a.bms_addrs, vec![0x28, 0x29]);

    let b = ServerArgs::from_args(&args(&["server", "-p", "/dev/ttyS1", "-s"]));
    assert!(b.simulate);
    assert_eq!(b.port, Some("/dev/ttyS1".to_string()));
    assert!(b.sim_addrs.is_empty() && b.bms_addrs.is_empty());

    let c = ServerArgs::from_args(&args(&["server", "--port"]));
    assert!(!c.simulate);
    assert_eq!(c.port, None);

    let d = ServerArgs::from_args(&args(&["server", "--port", "A", "--port", "B"]));
    assert_eq!(d.port, Some("A".to_string()));
}

#[test]
fn automatic_detection_only_without_configuration() {
    let hw = ServerArgs::from_args(&args(&["server"]));
    assert!(hw.auto_detect_port(false));
    assert!(!hw.auto_detect_port(true));
    assert!(hw.auto_discover_addresses(false));
    let sim = ServerArgs::from_args(&args(&["server", "-s"]));
    assert!(!sim.auto_detect_port(false));
    assert!(!sim.auto_discover_addresses(false));
    let with_port = ServerArgs::from_args(&args(&["server", "--port", "COM1"]));
    assert!(!with_port.auto_detect_port(false));
    assert!(with_port.auto_discover_addresses(false));
}

#[test]
fn simulated_addresses() {
    let given = ServerArgs::from_args(&args(&["server", "-s", "--sim-bms", "7"]));
    assert_eq!(given.simulation_addresses(&vec![1]), vec![7]);
    let none = ServerArgs::from_args(&args(&["server", "-s"]));
    assert_eq!(none.simulation_addresses(&vec![4, 5]), vec![4, 5]);
    assert_eq!(none.simulation_addresses(&vec![]), vec![1, 2]);
    assert_eq!(address_strings(&vec![1, 0x28]), vec!["0x01".to_string(), "0x28".to_string()]);
}
