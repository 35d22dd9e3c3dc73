use async_hid::backend::iohidmanager::device_info::{
    get_device_id, get_device_info, to_u16, DeviceProperties,
};
use async_hid::backend::iohidmanager::read_writer::{
    input_report_buffer_len, read_feature_report_result, set_report_result, write_report,
    AsyncReportReader, IO_RETURN_BAD_ARGUMENT, IO_RETURN_OVERRUN,
};
use async_hid::backend::iohidmanager::{get_device, ManagerCallbackContext, RegistryEntryId};
use async_hid::device_info::{DeviceEvent, DeviceId, DeviceInfo};
use async_hid::error::HidError;
use async_hid::utils::Progress;

#[test]
fn reader_hands_out_reports_in_order() {
    let mut reader = AsyncReportReader::new();
    let mut buf = [0u8; 4];
    assert_eq!(reader.read(&mut buf), Progress::Pending);
    reader.hid_report_callback(&[1, 2, 3]);
    reader.hid_report_callback(&[4, 5, 6, 7, 8]);
    reader.hid_report_callback(&[]);
    assert_eq!(reader.read(&mut buf), Progress::Ready(Ok(3)));
    assert_eq!(buf, [1, 2, 3, 0]);
    assert_eq!(reader.read(&mut buf), Progress::Ready(Ok(4)));
    assert_eq!(buf, [4, 5, 6, 7]);
    assert_eq!(reader.read(&mut buf), Progress::Ready(Ok(0)));
    assert_eq!(buf, [4, 5, 6, 7]);
    assert_eq!(reader.read(&mut buf), Progress::Pending);
}

#[test]
fn reader_keeps_the_newest_reports() {
    let mut reader = AsyncReportReader::new();
    for i in 0..70u8 {
        reader.hid_report_callback(&[i, i]);
    }
    let mut buf = [0u8; 2];
    for i in 6..70u8 {
        assert_eq!(reader.read(&mut buf), Progress::Ready(Ok(2)));
        assert_eq!(buf, [i, i]);
    }
    assert_eq!(reader.read(&mut buf), Progress::Pending);
}

#[test]
fn reader_reuses_buffers() {
    let mut reader = AsyncReportReader::new();
    let mut buf = [0u8; 8];
    for round in 0..40u8 {
        reader.hid_report_callback(&[round; 8]);
        reader.hid_report_callback(&[round]);
        assert_eq!(reader.read(&mut buf), Progress::Ready(Ok(8)));
        assert_eq!(buf, [round; 8]);
        buf = [0xEE; 8];
        assert_eq!(reader.read(&mut buf), Progress::Ready(Ok(1)));
        assert_eq!(buf[0], round);
        assert_eq!(buf[1..], [0xEE; 7]);
    }
}

#[test]
fn reader_reports_a_removed_device_after_its_last_report() {
    let mut reader = AsyncReportReader::new();
    reader.hid_report_callback(&[9]);
    reader.hid_removal_callback();
    let mut buf = [0u8; 1];
    assert_eq!(reader.read(&mut buf), Progress::Ready(Ok(1)));
    assert_eq!(buf, [9]);
    assert_eq!(reader.read(&mut buf), Progress::Ready(Err(HidError::Disconnected)));
    assert_eq!(reader.read(&mut buf), Progress::Ready(Err(HidError::Disconnected)));
}

#[test]
fn write_report_strips_the_id_zero() {
    assert_eq!(write_report(&[0x00, 0xb0]), (0, &[0xb0u8][..]));
    assert_eq!(write_report(&[0x02, 0xb0]), (2, &[0x02u8, 0xb0][..]));
    assert_eq!(write_report(&[0x00]), (0, &[][..]));
    assert_eq!(write_report(&[0x07]), (7, &[0x07u8][..]));
}

#[test]
fn set_report_result_maps_the_return_code() {
    assert_eq!(set_report_result(0), Ok(()));
    assert_eq!(set_report_result(IO_RETURN_BAD_ARGUMENT), Err(HidError::Disconnected));
    assert_eq!(IO_RETURN_BAD_ARGUMENT, 0xE00002C2u32 as i32);
    assert_eq!(IO_RETURN_OVERRUN, 0xE00002E8u32 as i32);
    for code in [1, 15, 16, 255, 0x1234, i32::MAX, -1, i32::MIN, IO_RETURN_OVERRUN, 0xE00002BCu32 as i32] {
        assert_eq!(
            set_report_result(code),
            Err(HidError::Message(format!("failed to set report type: {:#X}", code)))
        );
    }
}

#[test]
fn read_feature_report_result_maps_the_return_code() {
    assert_eq!(read_feature_report_result(0, 17), Ok(17));
    assert_eq!(read_feature_report_result(IO_RETURN_BAD_ARGUMENT, 17), Err(HidError::Disconnected));
    assert_eq!(
        read_feature_report_result(IO_RETURN_OVERRUN, 17),
        Err(HidError::Message("read feature report overrun".to_string()))
    );
    for code in [1, 0x10, 0xABCDEF, -2, 0xE00002C0u32 as i32] {
        assert_eq!(
            read_feature_report_result(code, 17),
            Err(HidError::Message(format!("failed to read feature report: {:#X}", code)))
        );
    }
}

#[test]
fn input_report_buffer_len_needs_the_property() {
    assert_eq!(input_report_buffer_len(Some(64)), Ok(64));
    assert_eq!(input_report_buffer_len(Some(0)), Ok(0));
    let error = HidError::Message("Failed to read input report size".to_string());
    assert_eq!(input_report_buffer_len(None), Err(error.clone()));
    assert_eq!(input_report_buffer_len(Some(-1)), Err(error));
}

fn properties() -> DeviceProperties {
    DeviceProperties {
        name: Some("Magic Keyboard".to_string()),
        product_id: Some(0x029C),
        vendor_id: Some(0x05AC),
        primary_usage_page: Some(1),
        primary_usage: Some(6),
        serial_number: Some("F0T1234".to_string()),
        usage_pairs: vec![(6, 1), (1, 0x0C), (6, 1), (0x0B, 0xFF00), (1, 0x0C)],
    }
}

fn primary() -> DeviceInfo {
    DeviceInfo {
        id: DeviceId::RegistryEntryId(0x1_0000_0042),
        name: "Magic Keyboard".to_string(),
        product_id: 0x029C,
        vendor_id: 0x05AC,
        usage_id: 6,
        usage_page: 1,
        serial_number: Some("F0T1234".to_string()),
    }
}

#[test]
fn get_device_info_lists_the_primary_collection_first() {
    let infos = get_device_info(properties(), Ok(DeviceId::RegistryEntryId(0x1_0000_0042))).unwrap();
    assert_eq!(
        infos,
        vec![
            primary(),
            DeviceInfo { usage_page: 0x0C, usage_id: 1, ..primary() },
            DeviceInfo { usage_page: 0xFF00, usage_id: 0x0B, ..primary() },
            DeviceInfo { usage_page: 0x0C, usage_id: 1, ..primary() },
        ]
    );
}

#[test]
fn get_device_info_keeps_the_low_bits_of_the_numbers() {
    let mut props = properties();
    props.vendor_id = Some(0x1_05AC);
    props.product_id = Some(-1);
    props.usage_pairs = vec![(0x1_0001, -0x100)];
    props.serial_number = None;
    let infos = get_device_info(props, Ok(DeviceId::RegistryEntryId(1))).unwrap();
    assert_eq!(infos.len(), 2);
    assert_eq!(infos[0].vendor_id, 0x05AC);
    assert_eq!(infos[0].product_id, 0xFFFF);
    assert_eq!((infos[1].usage_page, infos[1].usage_id), (0xFF00, 1));
    assert_eq!(infos[1].serial_number, None);
    assert_eq!(to_u16(-1), 0xFFFF);
    assert_eq!(to_u16(0x12345), 0x2345);
}

#[test]
fn get_device_info_names_the_first_missing_property() {
    let id = || Ok(DeviceId::RegistryEntryId(1));
    let message = |text: &str| Err(HidError::Message(text.to_string()));
    let mut props = properties();
    props.primary_usage = None;
    assert_eq!(get_device_info(props, id()), message("Failed to get the primary usage id"));
    let mut props = properties();
    props.primary_usage = None;
    props.primary_usage_page = None;
    assert_eq!(get_device_info(props, id()), message("Failed to get the primary usage page"));
    let mut props = properties();
    props.primary_usage_page = None;
    props.vendor_id = None;
    assert_eq!(get_device_info(props, id()), message("Failed to get the vendor id"));
    let mut props = properties();
    props.vendor_id = None;
    props.product_id = None;
    assert_eq!(get_device_info(props, id()), message("Failed to get the product id"));
    let mut props = properties();
    props.product_id = None;
    props.name = None;
    assert_eq!(get_device_info(props, Err(HidError::NotConnected)), message("Failed to get the name"));
    assert_eq!(get_device_info(properties(), Err(HidError::NotConnected)), Err(HidError::NotConnected));
}

#[test]
fn get_device_id_checks_port_and_status() {
    assert_eq!(get_device_id(5, 0, 77), Ok(DeviceId::RegistryEntryId(77)));
    assert_eq!(get_device_id(0, 0, 77), Err(HidError::Message("Failed to get mach port".to_string())));
    assert_eq!(
        get_device_id(5, IO_RETURN_BAD_ARGUMENT, 77),
        Err(HidError::Message("Failed to retrieve entry id".to_string()))
    );
}

#[test]
fn get_device_tells_a_missing_service() {
    assert_eq!(get_device(0), Err(HidError::NotConnected));
    assert_eq!(get_device(4711), Ok(4711));
    assert_eq!(RegistryEntryId(5), RegistryEntryId(5));
}

fn connected(id: u64) -> DeviceEvent {
    DeviceEvent::Connected(DeviceId::RegistryEntryId(id))
}

fn disconnected(id: u64) -> DeviceEvent {
    DeviceEvent::Disconnected(DeviceId::RegistryEntryId(id))
}

#[test]
fn every_watcher_sees_each_event_once() {
    let mut context = ManagerCallbackContext::new();
    let first = context.register_watcher();
    let second = context.register_watcher();
    assert_eq!((first, second), (0, 1));
    context.added_callback(0x1000, Ok(DeviceId::RegistryEntryId(42)));
    context.removed_callback(0x1000);
    for watcher in [first, second] {
        assert_eq!(context.poll_watcher(watcher), Progress::Ready(connected(42)));
        assert_eq!(context.poll_watcher(watcher), Progress::Ready(disconnected(42)));
        assert_eq!(context.poll_watcher(watcher), Progress::Pending);
    }
}

#[test]
fn a_watcher_sees_only_what_happens_after_it_registered() {
    let mut context = ManagerCallbackContext::new();
    context.added_callback(1, Ok(DeviceId::RegistryEntryId(1)));
    let watcher = context.register_watcher();
    assert_eq!(context.poll_watcher(watcher), Progress::Pending);
    context.added_callback(2, Ok(DeviceId::RegistryEntryId(2)));
    assert_eq!(context.poll_watcher(watcher), Progress::Ready(connected(2)));
    context.removed_callback(1);
    assert_eq!(context.poll_watcher(watcher), Progress::Ready(disconnected(1)));
}

#[test]
fn a_device_without_identifier_is_passed_over() {
    let mut context = ManagerCallbackContext::new();
    let watcher = context.register_watcher();
    context.added_callback(1, Err(HidError::Message("Failed to get mach port".to_string())));
    assert_eq!(context.poll_watcher(watcher), Progress::Pending);
    context.removed_callback(1);
    assert_eq!(context.poll_watcher(watcher), Progress::Pending);
    context.removed_callback(99);
    assert_eq!(context.poll_watcher(watcher), Progress::Pending);
}

#[test]
fn a_slow_watcher_loses_its_oldest_events_only() {
    let mut context = ManagerCallbackContext::new();
    let active = context.register_watcher();
    let lagging = context.register_watcher();
    for id in 0..100u64 {
        context.added_callback(id, Ok(DeviceId::RegistryEntryId(id)));
        assert_eq!(context.poll_watcher(active), Progress::Ready(connected(id)));
        assert_eq!(context.poll_watcher(active), Progress::Pending);
    }
    for id in 36..100u64 {
        assert_eq!(context.poll_watcher(lagging), Progress::Ready(connected(id)));
    }
    assert_eq!(context.poll_watcher(lagging), Progress::Pending);
}

#[test]
fn an_unregistered_watcher_gets_nothing() {
    let mut context = ManagerCallbackContext::new();
    let first = context.register_watcher();
    let second = context.register_watcher();
    let third = context.register_watcher();
    context.unregister_watcher(second);
    context.added_callback(1, Ok(DeviceId::RegistryEntryId(1)));
    assert_eq!(context.poll_watcher(first), Progress::Ready(connected(1)));
    assert_eq!(context.poll_watcher(second), Progress::Pending);
    assert_eq!(context.poll_watcher(third), Progress::Ready(connected(1)));
    context.unregister_watcher(77);
    assert_eq!(context.register_watcher(), 3);
}
