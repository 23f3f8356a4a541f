use serial_sessions::config::PortConfig;
use serial_sessions::config::resolve_config;
use serial_sessions::error::SerialError;
use serial_sessions::registry::ReadPlan;
use serial_sessions::registry::SessionRegistry;
use serial_sessions::registry::write_result;
use std::sync::mpsc::TryRecvError;

fn cfg(baud: u32) -> PortConfig {
    resolve_config(baud, None, None, None, None, None)
}

#[test]
fn never_opened_operations_fail_not_found() {
    let mut reg = SessionRegistry::new();
    let id = "COM9".to_string();
    assert!(matches!(reg.read(&id, Ok(())), Err(SerialError::NotFound)));
    assert!(matches!(reg.prepare_write(&id), Err(SerialError::NotFound)));
    assert!(matches!(reg.close(&id), Err(SerialError::NotFound)));
    assert!(matches!(reg.cancel_read(&id), Err(SerialError::NotFound)));
    assert!(matches!(reg.read_precheck(&id), Err(SerialError::NotFound)));
    assert!(matches!(reg.session_config(&id), Err(SerialError::NotFound)));
    assert_eq!(reg.len(), 0);
}

#[test]
fn open_twice_fails_already_open_and_keeps_first_session() {
    let mut reg = SessionRegistry::new();
    assert!(reg.open("COM1".to_string(), cfg(9600), Ok(1)).is_ok());
    let second = reg.open("COM1".to_string(), cfg(19200), Ok(2));
    assert!(matches!(second, Err(SerialError::AlreadyOpen)));
    assert_eq!(reg.len(), 1);
    let kept = reg.session_config(&"COM1".to_string()).unwrap();
    assert_eq!(kept.baud_rate, 9600);
}

#[test]
fn open_hardware_failure_inserts_nothing() {
    let mut reg = SessionRegistry::new();
    let r = reg.open("COM1".to_string(), cfg(9600), Err("no such device".to_string()));
    match r {
        Err(SerialError::OpenFailed(reason)) => assert_eq!(reason, "no such device"),
        other => panic!("unexpected: {:?}", other),
    }
    assert!(!reg.contains_id(&"COM1".to_string()));
    assert_eq!(reg.len(), 0);
}

#[test]
fn session_lifecycle_scenario() {
    let mut reg = SessionRegistry::new();
    let id = "COM1".to_string();
    assert!(reg.open(id.clone(), cfg(9600), Ok(1)).is_ok());
    assert!(matches!(reg.read_precheck(&id), Ok(ReadPlan::StartReader(1))));
    let receiver = reg.read(&id, Ok(())).unwrap().expect("a new reader starts");
    assert!(matches!(reg.prepare_write(&id), Ok(1)));
    assert_eq!(write_result(Ok(2)).unwrap(), 2);
    assert!(reg.cancel_read(&id).is_ok());
    assert_eq!(receiver.try_recv(), Ok(1));
    assert!(reg.close(&id).is_ok());
    assert!(matches!(reg.read(&id, Ok(())), Err(SerialError::NotFound)));
}

#[test]
fn read_start_is_idempotent() {
    let mut reg = SessionRegistry::new();
    let id = "COM1".to_string();
    assert!(reg.open(id.clone(), cfg(9600), Ok(1)).is_ok());
    let first = reg.read(&id, Ok(())).unwrap();
    assert!(first.is_some());
    let second = reg.read(&id, Ok(())).unwrap();
    assert!(second.is_none(), "second start keeps the one active reader");
    assert!(matches!(reg.read_precheck(&id), Ok(ReadPlan::AlreadyReading)));
    // The one receiver still pairs with the stored sender.
    let receiver = first.unwrap();
    assert!(reg.cancel_read(&id).is_ok());
    assert_eq!(receiver.try_recv(), Ok(1));
    assert!(matches!(reg.read_precheck(&id), Ok(ReadPlan::StartReader(1))));
}

#[test]
fn read_clone_failure_stores_no_reader() {
    let mut reg = SessionRegistry::new();
    let id = "COM1".to_string();
    assert!(reg.open(id.clone(), cfg(9600), Ok(1)).is_ok());
    let r = reg.read(&id, Err("clone failed".to_string()));
    match r {
        Err(SerialError::ReadFailed(reason)) => assert_eq!(reason, "clone failed"),
        other => panic!("unexpected: {:?}", other),
    }
    assert!(matches!(reg.read_precheck(&id), Ok(ReadPlan::StartReader(1))));
}

#[test]
fn close_signals_active_reader_and_disconnects() {
    let mut reg = SessionRegistry::new();
    let id = "COM1".to_string();
    assert!(reg.open(id.clone(), cfg(9600), Ok(1)).is_ok());
    let receiver = reg.read(&id, Ok(())).unwrap().unwrap();
    assert!(reg.close(&id).is_ok());
    assert_eq!(reg.len(), 0);
    // The reader sees the explicit signal, then the dropped sender.
    assert_eq!(receiver.try_recv(), Ok(1));
    assert_eq!(receiver.try_recv(), Err(TryRecvError::Disconnected));
}

#[test]
fn force_close_succeeds_with_and_without_session() {
    let mut reg = SessionRegistry::new();
    let id = "COM1".to_string();
    assert!(reg.force_close(&id).is_ok(), "no session is not an error");
    assert!(reg.open(id.clone(), cfg(9600), Ok(1)).is_ok());
    let receiver = reg.read(&id, Ok(())).unwrap().unwrap();
    assert!(reg.force_close(&id).is_ok());
    assert_eq!(reg.len(), 0);
    assert_eq!(receiver.try_recv(), Ok(1));
    assert_eq!(receiver.try_recv(), Err(TryRecvError::Disconnected));
}

#[test]
fn cancel_read_without_reader_is_ok() {
    let mut reg = SessionRegistry::new();
    let id = "COM1".to_string();
    assert!(reg.open(id.clone(), cfg(9600), Ok(1)).is_ok());
    assert!(reg.cancel_read(&id).is_ok());
    assert!(reg.contains_id(&id));
}

#[test]
fn cancel_read_reports_undeliverable_signal_but_clears_reader() {
    let mut reg = SessionRegistry::new();
    let id = "COM1".to_string();
    assert!(reg.open(id.clone(), cfg(9600), Ok(1)).is_ok());
    let receiver = reg.read(&id, Ok(())).unwrap().unwrap();
    drop(receiver);
    assert!(matches!(reg.cancel_read(&id), Err(SerialError::CancelFailed)));
    // The sender was cleared regardless of delivery.
    assert!(matches!(reg.read_precheck(&id), Ok(ReadPlan::StartReader(1))));
}

#[test]
fn close_all_cancels_every_reader_and_empties_registry() {
    let mut reg = SessionRegistry::new();
    assert!(reg.open("COM1".to_string(), cfg(9600), Ok(1)).is_ok());
    assert!(reg.open("COM2".to_string(), cfg(19200), Ok(2)).is_ok());
    let receiver = reg.read(&"COM1".to_string(), Ok(())).unwrap().unwrap();
    assert!(reg.close_all().is_ok());
    assert_eq!(reg.len(), 0);
    assert_eq!(receiver.try_recv(), Ok(1));
    assert!(!reg.contains_id(&"COM1".to_string()));
    assert!(!reg.contains_id(&"COM2".to_string()));
}

#[test]
fn close_all_leaves_registry_unchanged_when_a_cancel_fails() {
    let mut reg = SessionRegistry::new();
    assert!(reg.open("COM1".to_string(), cfg(9600), Ok(1)).is_ok());
    assert!(reg.open("COM2".to_string(), cfg(19200), Ok(2)).is_ok());
    let receiver = reg.read(&"COM1".to_string(), Ok(())).unwrap().unwrap();
    drop(receiver);
    assert!(matches!(reg.close_all(), Err(SerialError::CancelFailed)));
    assert_eq!(reg.len(), 2, "never a partial clear");
    assert!(reg.contains_id(&"COM1".to_string()));
    assert!(reg.contains_id(&"COM2".to_string()));
    assert!(matches!(
        reg.read_precheck(&"COM1".to_string()),
        Ok(ReadPlan::AlreadyReading)
    ));
}

#[test]
fn write_to_closed_identifier_fails_not_found() {
    let mut reg = SessionRegistry::new();
    let id = "COM1".to_string();
    assert!(reg.open(id.clone(), cfg(9600), Ok(4)).is_ok());
    assert!(reg.close(&id).is_ok());
    assert!(matches!(reg.prepare_write(&id), Err(SerialError::NotFound)));
}

#[test]
fn write_result_returns_accepted_byte_count_or_failure() {
    assert_eq!(write_result(Ok(5)).unwrap(), 5);
    assert_eq!(write_result(Ok(0)).unwrap(), 0);
    match write_result(Err("device gone".to_string())) {
        Err(SerialError::WriteFailed(reason)) => assert_eq!(reason, "device gone"),
        other => panic!("unexpected: {:?}", other),
    }
}
