use s10_ringctrl::device::{retry_delay_ms, DeviceAction, DeviceEvent, DeviceLoop};

#[test]
fn retry_delays_double_up_to_a_cap() {
    let delays: Vec<u64> = (0..9).map(retry_delay_ms).collect();
    assert_eq!(delays, vec![100, 200, 400, 800, 1600, 3200, 6400, 6400, 6400]);
    assert_eq!(retry_delay_ms(u32::MAX), 6400);
}

#[test]
fn missing_device_is_reported_once() {
    let mut d = DeviceLoop::new();
    assert_eq!(d.step(DeviceEvent::Missing), DeviceAction::AwaitDevice { report: true });
    assert_eq!(d.step(DeviceEvent::Missing), DeviceAction::AwaitDevice { report: false });
    assert_eq!(d.step(DeviceEvent::OpenFailed), DeviceAction::RetryOpen);
    assert_eq!(d.step(DeviceEvent::Missing), DeviceAction::AwaitDevice { report: true });
}

#[test]
fn failed_reads_back_off_and_reset() {
    let mut d = DeviceLoop::new();
    assert_eq!(d.step(DeviceEvent::Opened), DeviceAction::Read);
    assert_eq!(d.step(DeviceEvent::ReadFailed), DeviceAction::RetryRead { delay_ms: 100 });
    assert_eq!(d.step(DeviceEvent::ReadFailed), DeviceAction::RetryRead { delay_ms: 200 });
    assert_eq!(d.step(DeviceEvent::ReadFailed), DeviceAction::RetryRead { delay_ms: 400 });
    assert_eq!(d.backoff(), 3);
    assert_eq!(d.step(DeviceEvent::Fetched), DeviceAction::Forward);
    assert_eq!(d.step(DeviceEvent::ReadFailed), DeviceAction::RetryRead { delay_ms: 100 });
    assert_eq!(d.step(DeviceEvent::Disconnected), DeviceAction::Reconnect);
    assert_eq!(d.backoff(), 1);
    assert_eq!(d.step(DeviceEvent::Opened), DeviceAction::Read);
    assert_eq!(d.backoff(), 0);
}
