use serial_sessions::ports::PortKind;
use serial_sessions::ports::PortRecord;
use serial_sessions::ports::UsbInfo;
use serial_sessions::ports::available_ports;
use serial_sessions::ports::describe_port;
use serial_sessions::ports::format_hex4;
use serial_sessions::ports::name_le;
use serial_sessions::ports::port_type_to_string;

fn usb_record(name: &str, vid: u16, pid: u16) -> PortRecord {
    PortRecord {
        port_name: name.to_string(),
        port_type: PortKind::Usb(UsbInfo {
            vid,
            pid,
            manufacturer: None,
            product: None,
            serial_number: None,
        }),
    }
}

#[test]
fn one_usb_device_yields_one_usb_entry_with_four_digit_hex_ids() {
    let records = vec![PortRecord {
        port_name: "/dev/ttyUSB0".to_string(),
        port_type: PortKind::Usb(UsbInfo {
            vid: 0x1a86,
            pid: 0x7523,
            manufacturer: Some("wch.cn".to_string()),
            product: Some("CH340".to_string()),
            serial_number: Some("0001".to_string()),
        }),
    }];
    let list = available_ports(records);
    assert_eq!(list.len(), 1);
    let entry = &list[0];
    assert_eq!(entry.port_name, "/dev/ttyUSB0");
    assert_eq!(entry.port_type, "USB");
    let vid = entry.vid.as_ref().unwrap();
    let pid = entry.pid.as_ref().unwrap();
    assert_eq!(vid.len(), 4);
    assert_eq!(pid.len(), 4);
    assert_eq!(vid, "1a86");
    assert_eq!(pid, "7523");
    assert_eq!(entry.manufacturer.as_deref(), Some("wch.cn"));
    assert_eq!(entry.product.as_deref(), Some("CH340"));
    assert_eq!(entry.serial_number.as_deref(), Some("0001"));
}

#[test]
fn missing_usb_strings_default_to_unknown() {
    let list = available_ports(vec![usb_record("COM4", 0x0403, 0x6001)]);
    assert_eq!(list[0].manufacturer.as_deref(), Some("Unknown"));
    assert_eq!(list[0].product.as_deref(), Some("Unknown"));
    assert_eq!(list[0].serial_number, None);
    assert_eq!(list[0].vid.as_deref(), Some("0403"));
    assert_eq!(list[0].pid.as_deref(), Some("6001"));
}

#[test]
fn catalogue_is_sorted_by_identifier() {
    let records = vec![
        usb_record("COM3", 1, 2),
        usb_record("COM1", 3, 4),
        usb_record("COM10", 5, 6),
        usb_record("COM2", 7, 8),
    ];
    let list = available_ports(records);
    let names: Vec<&str> = list.iter().map(|p| p.port_name.as_str()).collect();
    assert_eq!(names, vec!["COM1", "COM10", "COM2", "COM3"]);
}

#[test]
fn non_usb_ports_carry_class_name_and_no_identity() {
    let pci = describe_port(PortRecord {
        port_name: "ttyS0".to_string(),
        port_type: PortKind::Pci,
    });
    assert_eq!(pci.port_type, "PCI");
    assert!(pci.vid.is_none() && pci.pid.is_none());
    assert!(pci.manufacturer.is_none() && pci.product.is_none() && pci.serial_number.is_none());
    let bt = describe_port(PortRecord {
        port_name: "rfcomm0".to_string(),
        port_type: PortKind::Bluetooth,
    });
    assert_eq!(bt.port_type, "Bluetooth");
    let other = describe_port(PortRecord {
        port_name: "ttyAMA0".to_string(),
        port_type: PortKind::Unknown,
    });
    assert_eq!(other.port_type, "Unknown");
}

#[test]
fn port_type_names() {
    assert_eq!(
        port_type_to_string(&PortKind::Usb(UsbInfo {
            vid: 0,
            pid: 0,
            manufacturer: None,
            product: None,
            serial_number: None,
        })),
        "USB"
    );
    assert_eq!(port_type_to_string(&PortKind::Pci), "PCI");
    assert_eq!(port_type_to_string(&PortKind::Bluetooth), "Bluetooth");
    assert_eq!(port_type_to_string(&PortKind::Unknown), "Unknown");
}

#[test]
fn hex_formatting_is_four_lowercase_digits() {
    assert_eq!(format_hex4(0x0000), "0000");
    assert_eq!(format_hex4(0xffff), "ffff");
    assert_eq!(format_hex4(0x00ab), "00ab");
    assert_eq!(format_hex4(0x1A86), "1a86");
    assert_eq!(format_hex4(0x0123), "0123");
}

#[test]
fn identifier_order_is_lexicographic_with_prefix_first() {
    assert!(name_le(&"COM1".to_string(), &"COM2".to_string()));
    assert!(!name_le(&"COM2".to_string(), &"COM1".to_string()));
    assert!(name_le(&"COM".to_string(), &"COM1".to_string()));
    assert!(name_le(&"COM1".to_string(), &"COM1".to_string()));
    assert!(name_le(&"COM10".to_string(), &"COM2".to_string()));
}
