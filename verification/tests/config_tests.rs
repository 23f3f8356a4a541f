use serial_sessions::config::DataBits;
use serial_sessions::config::FlowControl;
use serial_sessions::config::Parity;
use serial_sessions::config::StopBits;
use serial_sessions::config::get_data_bits;
use serial_sessions::config::get_flow_control;
use serial_sessions::config::get_parity;
use serial_sessions::config::get_stop_bits;
use serial_sessions::config::resolve_config;

#[test]
fn data_bits_name_themselves() {
    assert_eq!(get_data_bits(Some(5)), DataBits::Five);
    assert_eq!(get_data_bits(Some(6)), DataBits::Six);
    assert_eq!(get_data_bits(Some(7)), DataBits::Seven);
    assert_eq!(get_data_bits(Some(8)), DataBits::Eight);
}

#[test]
fn data_bits_fall_back_to_eight() {
    assert_eq!(get_data_bits(None), DataBits::Eight);
    assert_eq!(get_data_bits(Some(0)), DataBits::Eight);
    assert_eq!(get_data_bits(Some(9)), DataBits::Eight);
}

#[test]
fn flow_control_names_themselves() {
    assert_eq!(
        get_flow_control(Some("Software".to_string())),
        FlowControl::Software
    );
    assert_eq!(
        get_flow_control(Some("Hardware".to_string())),
        FlowControl::Hardware
    );
}

#[test]
fn flow_control_falls_back_to_none() {
    assert_eq!(get_flow_control(None), FlowControl::Disabled);
    assert_eq!(
        get_flow_control(Some("XonXoff".to_string())),
        FlowControl::Disabled
    );
    assert_eq!(
        get_flow_control(Some("software".to_string())),
        FlowControl::Disabled,
        "the recognized names are case-sensitive"
    );
}

#[test]
fn parity_names_themselves_and_falls_back() {
    assert_eq!(get_parity(Some("Odd".to_string())), Parity::Odd);
    assert_eq!(get_parity(Some("Even".to_string())), Parity::Even);
    assert_eq!(get_parity(Some("Mark".to_string())), Parity::Disabled);
    assert_eq!(get_parity(None), Parity::Disabled);
}

#[test]
fn stop_bits_name_themselves_and_fall_back() {
    assert_eq!(get_stop_bits(Some(1)), StopBits::One);
    assert_eq!(get_stop_bits(Some(2)), StopBits::Two);
    assert_eq!(get_stop_bits(Some(3)), StopBits::Two);
    assert_eq!(get_stop_bits(None), StopBits::Two);
}

#[test]
fn resolve_config_applies_documented_defaults() {
    let c = resolve_config(115200, None, None, None, None, None);
    assert_eq!(c.baud_rate, 115200);
    assert_eq!(c.data_bits, DataBits::Eight);
    assert_eq!(c.flow_control, FlowControl::Disabled);
    assert_eq!(c.parity, Parity::Disabled);
    assert_eq!(c.stop_bits, StopBits::Two);
    assert_eq!(c.timeout_ms, 200);
}

#[test]
fn resolve_config_keeps_given_values() {
    let c = resolve_config(
        9600,
        Some(7),
        Some("Hardware".to_string()),
        Some("Odd".to_string()),
        Some(1),
        Some(50),
    );
    assert_eq!(c.baud_rate, 9600);
    assert_eq!(c.data_bits, DataBits::Seven);
    assert_eq!(c.flow_control, FlowControl::Hardware);
    assert_eq!(c.parity, Parity::Odd);
    assert_eq!(c.stop_bits, StopBits::One);
    assert_eq!(c.timeout_ms, 50);
}
