use async_hid::backend::webhid::DeviceFilter;
use async_hid::backend::winrt::{read_input_report, write_output_report, FileAccessMode, WinRtBackend};
use async_hid::device_info::{DeviceEvent, DeviceId, DeviceInfo};
use async_hid::error::HidError;
use async_hid::report::{Report, ReportId};

#[test]
fn error_message_keeps_the_text() {
    assert_eq!(HidError::message("HIDRAW ioctl failed"), HidError::Message("HIDRAW ioctl failed".to_string()));
    assert_eq!(HidError::from_backend("os error 13"), HidError::Other("os error 13".to_string()));
    assert_ne!(HidError::Disconnected, HidError::NotConnected);
}

#[test]
fn error_has_a_text() {
    assert_eq!(HidError::Disconnected.to_string(), "The device was disconnected");
    assert_eq!(HidError::NotConnected.to_string(), "The device is not connected");
    assert_eq!(HidError::message("Input report is empty").to_string(), "Input report is empty");
    assert_eq!(HidError::from_backend("os error 13").to_string(), "os error 13");
}

#[test]
fn device_info_matches_all_four_numbers() {
    let info = DeviceInfo {
        id: DeviceId::RegistryEntryId(1),
        name: "pad".to_string(),
        product_id: 4,
        vendor_id: 3,
        usage_id: 2,
        usage_page: 1,
        serial_number: None,
    };
    assert!(info.matches(1, 2, 3, 4));
    assert!(!info.matches(0, 2, 3, 4));
    assert!(!info.matches(1, 0, 3, 4));
    assert!(!info.matches(1, 2, 0, 4));
    assert!(!info.matches(1, 2, 3, 0));
    assert_eq!(info.clone(), info);
    let other = info.with_usage(7, 8);
    assert_eq!((other.usage_page, other.usage_id), (7, 8));
    assert_eq!(other.name, "pad");
    assert_eq!(other.id, DeviceId::RegistryEntryId(1));
}

#[test]
fn identifiers_and_events_compare_by_content() {
    let path = DeviceId::DevPath("/sys/class/hidraw/hidraw0".to_string());
    assert_eq!(path.clone(), path);
    assert_ne!(path, DeviceId::DevPath("/sys/class/hidraw/hidraw1".to_string()));
    assert_ne!(DeviceId::UncPath(vec![1]), DeviceId::RegistryEntryId(1));
    let event = DeviceEvent::Connected(path.clone());
    assert_eq!(event.clone(), event);
    assert_ne!(event, DeviceEvent::Disconnected(path));
}

#[test]
fn report_starts_with_its_id() {
    let report = Report::new(ReportId::new(5), 3);
    assert_eq!(report.as_bytes(), &[5, 0, 0, 0]);
    assert_eq!(report.len(), 4);
    assert_eq!(report.data(), &[0, 0, 0]);
    assert_eq!(report.get_report_id().map(ReportId::get), Some(5));
    let report = Report::new(None, 0);
    assert_eq!(report.as_bytes(), &[0]);
    assert_eq!(report.len(), 1);
    assert_eq!(report.get_report_id(), None);
}

#[test]
fn report_from_bytes_puts_the_payload_behind_the_id() {
    let mut report = Report::from_bytes(None, &[0xb0, 0xb1]);
    assert_eq!(report.as_bytes(), &[0x00, 0xb0, 0xb1]);
    assert_eq!(report.data(), &[0xb0, 0xb1]);
    report.set_report_id(ReportId::new(9));
    assert_eq!(report.as_bytes(), &[0x09, 0xb0, 0xb1]);
    report.set_report_id(ReportId::new(0));
    assert_eq!(report.clone().as_bytes(), &[0x00, 0xb0, 0xb1]);
    assert_eq!(Report::from_bytes(ReportId::new(255), &[]).as_bytes(), &[255]);
    assert!(ReportId::new(0).is_none());
}

#[test]
fn device_filter_is_built_field_by_field() {
    assert_eq!(
        DeviceFilter::new(),
        DeviceFilter { vendor_id: None, product_id: None, usage_page: None, usage: None }
    );
    let filter = DeviceFilter::new().with_vendor_id(0x1038).with_usage(6);
    assert_eq!(
        filter,
        DeviceFilter { vendor_id: Some(0x1038), product_id: None, usage_page: None, usage: Some(6) }
    );
    let filter = filter.with_product_id(2).with_usage_page(1).with_vendor_id(3);
    assert_eq!(
        filter,
        DeviceFilter { vendor_id: Some(3), product_id: Some(2), usage_page: Some(1), usage: Some(6) }
    );
}

#[test]
fn access_mode_is_read_write_whenever_written() {
    assert_eq!(WinRtBackend.open(true, false), FileAccessMode::Read);
    assert_eq!(WinRtBackend.open(true, true), FileAccessMode::ReadWrite);
    assert_eq!(WinRtBackend.open(false, true), FileAccessMode::ReadWrite);
}

#[test]
fn runtime_input_report_loses_its_id_zero() {
    let mut buf = [0xEEu8; 4];
    assert_eq!(read_input_report(&[0, 1, 2], &mut buf), Ok(2));
    assert_eq!(buf, [1, 2, 0xEE, 0xEE]);
    let mut buf = [0xEEu8; 2];
    assert_eq!(read_input_report(&[0, 1, 2], &mut buf), Ok(1));
    assert_eq!(buf, [1, 0xEE]);
    assert_eq!(read_input_report(&[3, 1, 2], &mut buf), Ok(2));
    assert_eq!(buf, [3, 1]);
    let mut none: [u8; 0] = [];
    assert_eq!(read_input_report(&[0, 1], &mut none), Ok(0));
    assert_eq!(
        read_input_report(&[], &mut buf),
        Err(HidError::Message("Input report is empty".to_string()))
    );
}

#[test]
fn runtime_output_report_has_to_fit() {
    let mut buffer = [0xEEu8; 4];
    assert_eq!(write_output_report(&mut buffer, &[0, 0xb0]), Ok(()));
    assert_eq!(buffer, [0, 0xb0, 0, 0]);
    assert_eq!(
        write_output_report(&mut buffer, &[1, 2, 3, 4, 5]),
        Err(HidError::Message("Output report is too large".to_string()))
    );
    assert_eq!(buffer, [0, 0xb0, 0, 0]);
    assert_eq!(write_output_report(&mut buffer, &[1, 2, 3, 4]), Ok(()));
    assert_eq!(buffer, [1, 2, 3, 4]);
}
