//! The reconnect and retry policy of reading an input device.
use vstd::prelude::*;
use vstd::arithmetic::power2::pow2;

verus! {

/// How long to wait before looking for a missing device again, or after failing to open it.
pub const RECONNECT_WAIT_MS: u64 = 2000;

/// What happened while reading a device.
#[derive(Debug, Clone, Copy, PartialEq, Eq, Structural)]
pub enum DeviceEvent {
    /// The device path does not exist.
    Missing,
    /// The device was opened.
    Opened,
    /// The device path exists but opening it failed.
    OpenFailed,
    /// A read returned events.
    Fetched,
    /// A read failed and the device path still exists.
    ReadFailed,
    /// A read failed and the device path is gone.
    Disconnected,
}

/// What to do next.
#[derive(Debug, Clone, Copy, PartialEq, Eq, Structural)]
pub enum DeviceAction {
    /// Wait `RECONNECT_WAIT_MS` and look for the device again; `report` says whether to
    /// report it missing (once per absence).
    AwaitDevice { report: bool },
    /// Report the device connected and read from it.
    Read,
    /// Report the failure, wait `RECONNECT_WAIT_MS` and look for the device again.
    RetryOpen,
    /// Forward the events and read again.
    Forward,
    /// Report the error, wait `delay_ms`, and read again.
    RetryRead { delay_ms: u64 },
    /// Report the device disconnected and look for it again.
    Reconnect,
}

/// The mathematical state of a [`DeviceLoop`].
pub struct DeviceLoopView {
    pub reported_missing: bool,
    pub backoff: u32,
}

/// The delay before retrying a failed read: 100 ms doubled per failure in a row, up to 6
/// doublings (6.4 s).
pub open spec fn retry_delay(backoff: u32) -> nat {
    100 * pow2(if backoff < 6 { backoff as nat } else { 6 })
}

/// The next state and action of the device loop after `ev`.
pub open spec fn device_step(s: DeviceLoopView, ev: DeviceEvent) -> (DeviceLoopView, DeviceAction) {
    match ev {
        DeviceEvent::Missing => (
            DeviceLoopView { reported_missing: true, ..s },
            DeviceAction::AwaitDevice { report: !s.reported_missing },
        ),
        DeviceEvent::Opened => (DeviceLoopView { reported_missing: false, backoff: 0 }, DeviceAction::Read),
        DeviceEvent::OpenFailed => (DeviceLoopView { reported_missing: false, ..s }, DeviceAction::RetryOpen),
        DeviceEvent::Fetched => (DeviceLoopView { backoff: 0, ..s }, DeviceAction::Forward),
        DeviceEvent::ReadFailed => (
            DeviceLoopView { backoff: (s.backoff + 1) as u32, ..s },
            DeviceAction::RetryRead { delay_ms: retry_delay(s.backoff) as u64 },
        ),
        DeviceEvent::Disconnected => (s, DeviceAction::Reconnect),
    }
}

/// Whether `device_step` is defined: the count of failed reads in a row does not overflow.
pub open spec fn device_step_defined(s: DeviceLoopView, ev: DeviceEvent) -> bool {
    ev is ReadFailed ==> s.backoff < u32::MAX
}

/// The delay before retrying a failed read, after `backoff` failures in a row.
pub fn retry_delay_ms(backoff: u32) -> (r: u64)
    ensures
        r == retry_delay(backoff),
{
    proof {
        vstd::arithmetic::power2::lemma2_to64();
    }
    let e: u32 = if backoff < 6 { backoff } else { 6 };
    let factor: u64 = if e == 0 {
        1
    } else if e == 1 {
        2
    } else if e == 2 {
        4
    } else if e == 3 {
        8
    } else if e == 4 {
        16
    } else if e == 5 {
        32
    } else {
        64
    };
    100 * factor
}

/// The state of reading one device: whether its absence was reported, and how many reads in
/// a row failed.
pub struct DeviceLoop {
    reported_missing: bool,
    backoff: u32,
}

impl View for DeviceLoop {
    type V = DeviceLoopView;

    closed spec fn view(&self) -> DeviceLoopView {
        DeviceLoopView { reported_missing: self.reported_missing, backoff: self.backoff }
    }
}

impl DeviceLoop {
    /// The state before the first look at the device.
    pub fn new() -> (r: Self)
        ensures
            r@ == (DeviceLoopView { reported_missing: false, backoff: 0 }),
    {
        DeviceLoop { reported_missing: false, backoff: 0 }
    }

    /// The number of reads in a row that failed.
    pub fn backoff(&self) -> (r: u32)
        ensures
            r == self@.backoff,
    {
        self.backoff
    }

    /// Takes what happened and says what to do next.
    pub fn step(&mut self, ev: DeviceEvent) -> (a: DeviceAction)
        requires
            device_step_defined(old(self)@, ev),
        ensures
            (final(self)@, a) == device_step(old(self)@, ev),
    {
        match ev {
            DeviceEvent::Missing => {
                let report = !self.reported_missing;
                self.reported_missing = true;
                DeviceAction::AwaitDevice { report }
            },
            DeviceEvent::Opened => {
                self.reported_missing = false;
                self.backoff = 0;
                DeviceAction::Read
            },
            DeviceEvent::OpenFailed => {
                self.reported_missing = false;
                DeviceAction::RetryOpen
            },
            DeviceEvent::Fetched => {
                self.backoff = 0;
                DeviceAction::Forward
            },
            DeviceEvent::ReadFailed => {
                let delay_ms = retry_delay_ms(self.backoff);
                self.backoff = self.backoff + 1;
                DeviceAction::RetryRead { delay_ms }
            },
            DeviceEvent::Disconnected => DeviceAction::Reconnect,
        }
    }
}

/// A device that stays missing is reported once, however often it is looked for.
pub proof fn law_missing_reported_once(s: DeviceLoopView)
    ensures
        device_step(device_step(s, DeviceEvent::Missing).0, DeviceEvent::Missing).1 == (DeviceAction::AwaitDevice { report: false }),
        !s.reported_missing ==> device_step(s, DeviceEvent::Missing).1 == (DeviceAction::AwaitDevice { report: true }),
{
}

/// Retry delays double from 100 ms and stop growing at 6.4 s; a successful read starts them
/// over.
pub proof fn law_retry_delays(s: DeviceLoopView)
    ensures
        retry_delay(0) == 100,
        retry_delay(1) == 200,
        retry_delay(2) == 400,
        retry_delay(3) == 800,
        retry_delay(4) == 1600,
        retry_delay(5) == 3200,
        forall|b: u32| b >= 6 ==> #[trigger] retry_delay(b) == 6400,
        device_step(s, DeviceEvent::Fetched).0.backoff == 0,
        device_step(s, DeviceEvent::Opened).0.backoff == 0,
{
    vstd::arithmetic::power2::lemma2_to64();
}

} // verus!
