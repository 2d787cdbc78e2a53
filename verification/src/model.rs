//! Model of the devices that adb reports.

use vstd::prelude::*;

use crate::text::{chars_of, eq_chars, string_of, string_push_str};

verus! {

/// State of a device as `adb devices` reports it.
#[derive(Debug, Clone, PartialEq, Eq)]
pub enum DeviceState {
    /// Ready for use.
    Device,
    /// Connected, but the user has not accepted the debugging dialog.
    Unauthorized,
    /// Visible but not answering (reconnecting usually solves it).
    Offline,
    /// Being authorized.
    Authorizing,
    /// Any other state adb reports (bootloader, recovery, ...).
    Other(String),
}

/// A device state with the text of `Other` as characters.
pub enum DeviceStateView {
    Device,
    Unauthorized,
    Offline,
    Authorizing,
    Other(Seq<char>),
}

impl View for DeviceState {
    type V = DeviceStateView;

    open spec fn view(&self) -> DeviceStateView {
        match self {
            DeviceState::Device => DeviceStateView::Device,
            DeviceState::Unauthorized => DeviceStateView::Unauthorized,
            DeviceState::Offline => DeviceStateView::Offline,
            DeviceState::Authorizing => DeviceStateView::Authorizing,
            DeviceState::Other(s) => DeviceStateView::Other(s@),
        }
    }
}

/// Medium of a device, inferred from its serial.
#[derive(Debug, Clone, Copy, PartialEq, Eq, Structural)]
pub enum Transport {
    /// Connected by cable (alphanumeric serial).
    Usb,
    /// Connected over the network (the serial is `host:port`). Wireless.
    Wifi,
}

/// A device visible to adb.
#[derive(Debug, Clone, PartialEq, Eq)]
pub struct Device {
    pub serial: String,
    pub state: DeviceState,
    pub transport: Transport,
    /// Model, when adb shows it on the line (`model:SM-S928B`).
    pub model: Option<String>,
}

/// A device with its texts as characters.
pub struct DeviceView {
    pub serial: Seq<char>,
    pub state: DeviceStateView,
    pub transport: Transport,
    pub model: Option<Seq<char>>,
}

impl View for Device {
    type V = DeviceView;

    open spec fn view(&self) -> DeviceView {
        DeviceView {
            serial: self.serial@,
            state: self.state@,
            transport: self.transport,
            model: match self.model {
                Some(m) => Some(m@),
                None => None,
            },
        }
    }
}

impl DeepView for Device {
    type V = DeviceView;

    open spec fn deep_view(&self) -> DeviceView {
        self@
    }
}

/// The state that a word of `adb devices` names.
pub open spec fn state_of(s: Seq<char>) -> DeviceStateView {
    if s == "device"@ {
        DeviceStateView::Device
    } else if s == "unauthorized"@ {
        DeviceStateView::Unauthorized
    } else if s == "offline"@ {
        DeviceStateView::Offline
    } else if s == "authorizing"@ {
        DeviceStateView::Authorizing
    } else {
        DeviceStateView::Other(s)
    }
}

/// The word adb uses for a state.
pub open spec fn state_name(s: DeviceStateView) -> Seq<char> {
    match s {
        DeviceStateView::Device => "device"@,
        DeviceStateView::Unauthorized => "unauthorized"@,
        DeviceStateView::Offline => "offline"@,
        DeviceStateView::Authorizing => "authorizing"@,
        DeviceStateView::Other(t) => t,
    }
}

/// An ASCII decimal digit.
pub open spec fn is_ascii_digit(c: char) -> bool {
    '0' <= c <= '9'
}

/// A network serial: after its last `:` comes a non-empty run of ASCII
/// digits (`host:port`).
pub open spec fn is_network_serial(s: Seq<char>) -> bool {
    exists|i: int|
        0 <= i < s.len() - 1 && s[i] == ':' && forall|j: int| i < j < s.len() ==> is_ascii_digit(
            #[trigger] s[j],
        )
}

/// The medium a serial indicates.
pub open spec fn transport_of(s: Seq<char>) -> Transport {
    if is_network_serial(s) {
        Transport::Wifi
    } else {
        Transport::Usb
    }
}

/// The name of a medium as the device listing shows it.
pub open spec fn transport_name(t: Transport) -> Seq<char> {
    match t {
        Transport::Usb => "USB"@,
        Transport::Wifi => "Wi-Fi"@,
    }
}

/// Label of a device in listings: `serial (model, medium)`, or
/// `serial (medium)` when the model is unknown.
pub open spec fn device_label(d: DeviceView) -> Seq<char> {
    match d.model {
        Some(m) => d.serial + " ("@ + m + ", "@ + transport_name(d.transport) + ")"@,
        None => d.serial + " ("@ + transport_name(d.transport) + ")"@,
    }
}

/// `ToOwned::to_owned` on a string slice.
#[verifier::external_body]
pub(crate) fn owned_string(s: &str) -> (r: String)
    ensures
        r@ == s@,
{
    s.to_owned()
}

/// The state that the characters `v` name.
pub(crate) fn state_from_chars(v: &[char]) -> (r: DeviceState)
    ensures
        r@ == state_of(v@),
{
    if eq_chars(v, chars_of("device").as_slice()) {
        DeviceState::Device
    } else if eq_chars(v, chars_of("unauthorized").as_slice()) {
        DeviceState::Unauthorized
    } else if eq_chars(v, chars_of("offline").as_slice()) {
        DeviceState::Offline
    } else if eq_chars(v, chars_of("authorizing").as_slice()) {
        DeviceState::Authorizing
    } else {
        DeviceState::Other(string_of(v))
    }
}

/// The medium that the serial `v` indicates.
pub(crate) fn transport_from_chars(v: &[char]) -> (r: Transport)
    ensures
        r == transport_of(v@),
{
    let n = v.len();
    let mut d: usize = 0;
    while d < n && '0' <= v[n - 1 - d] && v[n - 1 - d] <= '9'
        invariant
            d <= n,
            n == v@.len(),
            forall|k: int| n - d <= k < n ==> is_ascii_digit(#[trigger] v@[k]),
        decreases n - d,
    {
        d = d + 1;
    }
    let wifi = d > 0 && d < n && v[n - 1 - d] == ':';
    proof {
        if wifi {
            let i = n - 1 - d;
            assert(forall|j: int| i < j < v@.len() ==> is_ascii_digit(#[trigger] v@[j]));
        } else if is_network_serial(v@) {
            let i = choose|i: int|
                0 <= i < v@.len() - 1 && v@[i] == ':' && forall|j: int|
                    i < j < v@.len() ==> is_ascii_digit(#[trigger] v@[j]);
            if d < n - 1 - i {
                assert(is_ascii_digit(v@[n - 1 - d]));
            } else if d > n - 1 - i {
                assert(is_ascii_digit(v@[i]));
            }
        }
    }
    if wifi {
        Transport::Wifi
    } else {
        Transport::Usb
    }
}

impl DeviceState {
    /// The state that a word of `adb devices` names.
    pub fn parse(s: &str) -> (r: DeviceState)
        ensures
            r@ == state_of(s@),
    {
        let v = chars_of(s);
        match state_from_chars(v.as_slice()) {
            DeviceState::Other(_) => DeviceState::Other(owned_string(s)),
            st => st,
        }
    }

    /// Whether the device is ready to take commands.
    pub fn is_ready(&self) -> (r: bool)
        ensures
            r == (self@ is Device),
    {
        matches!(self, DeviceState::Device)
    }

    /// The word adb uses for the state.
    pub fn to_string(&self) -> (r: String)
        ensures
            r@ == state_name(self@),
    {
        match self {
            DeviceState::Device => owned_string("device"),
            DeviceState::Unauthorized => owned_string("unauthorized"),
            DeviceState::Offline => owned_string("offline"),
            DeviceState::Authorizing => owned_string("authorizing"),
            DeviceState::Other(s) => s.clone(),
        }
    }

    /// A copy with the same view.
    pub(crate) fn copy(&self) -> (r: DeviceState)
        ensures
            r@ == self@,
    {
        match self {
            DeviceState::Device => DeviceState::Device,
            DeviceState::Unauthorized => DeviceState::Unauthorized,
            DeviceState::Offline => DeviceState::Offline,
            DeviceState::Authorizing => DeviceState::Authorizing,
            DeviceState::Other(s) => DeviceState::Other(s.clone()),
        }
    }
}

impl Device {
    /// Infers the medium from the serial: network serials have the form
    /// `host:port` (adb over Wi-Fi), all others are USB.
    pub fn infer_transport(serial: &str) -> (r: Transport)
        ensures
            r == transport_of(serial@),
    {
        let v = chars_of(serial);
        transport_from_chars(v.as_slice())
    }

    /// Label to show the user in listings.
    pub fn label(&self) -> (r: String)
        ensures
            r@ == device_label(self@),
    {
        let kind = match self.transport {
            Transport::Usb => "USB",
            Transport::Wifi => "Wi-Fi",
        };
        let mut s = self.serial.clone();
        string_push_str(&mut s, " (");
        match &self.model {
            Some(m) => {
                string_push_str(&mut s, m.as_str());
                string_push_str(&mut s, ", ");
            },
            None => {},
        }
        string_push_str(&mut s, kind);
        string_push_str(&mut s, ")");
        s
    }

    /// A copy with the same view.
    pub(crate) fn copy(&self) -> (r: Device)
        ensures
            r@ == self@,
    {
        Device {
            serial: self.serial.clone(),
            state: self.state.copy(),
            transport: self.transport,
            model: match &self.model {
                Some(m) => Some(m.clone()),
                None => None,
            },
        }
    }
}

/// Copies of all the devices, in order.
pub(crate) fn copy_devices(devices: &[Device]) -> (r: Vec<Device>)
    ensures
        r.deep_view() == devices@.map_values(|d: Device| d@),
{
    let mut r: Vec<Device> = Vec::new();
    let mut i: usize = 0;
    while i < devices.len()
        invariant
            i <= devices@.len(),
            r.deep_view() == devices@.take(i as int).map_values(|d: Device| d@),
        decreases devices@.len() - i,
    {
        let c = devices[i].copy();
        let ghost prev = r.deep_view();
        r.push(c);
        assert(r.deep_view() =~= prev.push(c@));
        assert(devices@.take(i + 1).map_values(|d: Device| d@) =~= devices@.take(i as int).map_values(
            |d: Device| d@,
        ).push(devices@[i as int]@));
        i = i + 1;
    }
    assert(devices@.take(devices@.len() as int) =~= devices@);
    r
}

/// A serial `host:port` with a non-empty decimal port is a network (Wi-Fi)
/// device, whatever the host; a serial with no `:` is a USB device.
pub proof fn network_serials_are_wifi(host: Seq<char>, port: Seq<char>, plain: Seq<char>)
    ensures
        port.len() > 0 && (forall|k: int| 0 <= k < port.len() ==> is_ascii_digit(#[trigger] port[k]))
            ==> transport_of(host + seq![':'] + port) == Transport::Wifi,
        !plain.contains(':') ==> transport_of(plain) == Transport::Usb,
{
    let s = host + seq![':'] + port;
    if port.len() > 0 && (forall|k: int| 0 <= k < port.len() ==> is_ascii_digit(#[trigger] port[k])) {
        let i = host.len() as int;
        assert(s[i] == ':');
        assert forall|j: int| i < j < s.len() implies is_ascii_digit(#[trigger] s[j]) by {
            assert(s[j] == port[j - i - 1]);
        }
    }
    if !plain.contains(':') && is_network_serial(plain) {
        let i = choose|i: int|
            0 <= i < plain.len() - 1 && plain[i] == ':' && forall|j: int|
                i < j < plain.len() ==> is_ascii_digit(#[trigger] plain[j]);
        assert(plain.contains(':'));
    }
}

} // verus!
