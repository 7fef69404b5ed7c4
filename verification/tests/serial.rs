use laser_pro_engraver::serial::{
    frame_command, list_serial_ports, ports_to_infos, sent_message, ConnectError, PortKind,
    SendError, SerialState,
};

#[test]
fn framing_appends_exactly_one_newline() {
    assert_eq!(frame_command("G1 X10"), "G1 X10\n");
    assert_eq!(frame_command("G1 X10\n"), "G1 X10\n");
    assert_eq!(frame_command("G1 X10 \r\n"), "G1 X10\n");
    assert_eq!(frame_command("  G1 X10"), "G1 X10\n");
    assert_eq!(frame_command("\tG28\t"), "G28\n");
    assert_eq!(frame_command(""), "\n");
    assert_eq!(frame_command(" \t \r\n"), "\n");
}

#[test]
fn send_transmits_framed_command() {
    let mut session = SerialState::new();
    session.record_connect(String::from("/dev/ttyUSB0"), 115200);
    match session.send_gcode("G1 X10") {
        Ok(frame) => assert_eq!(frame, "G1 X10\n"),
        Err(_) => panic!("send on a connected session must succeed"),
    }
    match session.send_gcode("G1 X10\n") {
        Ok(frame) => assert_eq!(frame, "G1 X10\n"),
        Err(_) => panic!("send on a connected session must succeed"),
    }
}

#[test]
fn send_without_connect_fails_not_connected() {
    let session = SerialState::new();
    assert_eq!(session.send_gcode("G1 X10"), Err(SendError::NotConnected));
    assert_eq!(
        SendError::NotConnected.message(),
        "No serial port connected"
    );
}

#[test]
fn disconnect_is_idempotent() {
    let mut session = SerialState::new();
    assert!(!session.is_serial_connected());
    assert_eq!(session.disconnect_serial(), "Disconnected");
    assert_eq!(session.disconnect_serial(), "Disconnected");
    assert!(!session.is_serial_connected());

    session.record_connect(String::from("COM3"), 9600);
    assert!(session.is_serial_connected());
    assert_eq!(session.disconnect_serial(), "Disconnected");
    assert!(!session.is_serial_connected());
}

#[test]
fn connect_confirmation_and_replacement() {
    let mut session = SerialState::new();
    let msg = session.record_connect(String::from("/dev/ttyUSB0"), 115200);
    assert_eq!(msg, "Connected to /dev/ttyUSB0 at 115200 baud");
    assert!(session.is_serial_connected());

    // Last caller wins: a second connect replaces the first.
    let msg = session.record_connect(String::from("COM7"), 9600);
    assert_eq!(msg, "Connected to COM7 at 9600 baud");
    assert!(session.is_serial_connected());
}

#[test]
fn sent_echo_keeps_untrimmed_command() {
    assert_eq!(sent_message("G1 X10"), "Sent: G1 X10");
    assert_eq!(sent_message(""), "Sent: ");
}

#[test]
fn port_kind_labels() {
    let ports = vec![
        (String::from("COM1"), PortKind::Usb),
        (String::from("COM2"), PortKind::Pci),
        (String::from("COM3"), PortKind::Bluetooth),
        (String::from("COM4"), PortKind::Unknown),
    ];
    let infos = ports_to_infos(ports);
    assert_eq!(infos.len(), 4);
    assert_eq!(infos[0].port_name, "COM1");
    assert_eq!(infos[0].port_type, "USB");
    assert_eq!(infos[1].port_type, "PCI");
    assert_eq!(infos[2].port_type, "Bluetooth");
    assert_eq!(infos[3].port_type, "Unknown");
}

#[test]
fn enumeration_reports_known_kinds() {
    match list_serial_ports() {
        Ok(ports) => {
            for p in ports {
                assert!(
                    ["USB", "PCI", "Bluetooth", "Unknown"].contains(&p.port_type.as_str())
                );
            }
        }
        Err(e) => assert!(e.starts_with("Failed to list ports: ")),
    }
}

#[test]
fn error_messages() {
    let e = ConnectError {
        port: String::from("COM9"),
        cause: String::from("busy"),
    };
    assert_eq!(e.message(), "Failed to open port COM9: busy");
    let w = SendError::IoFailure(String::from("Write failed: pipe closed"));
    assert_eq!(w.message(), "Write failed: pipe closed");
}
