//! Errors of the adb layer, one per case of the connection-resilience catalog.
//!
//! Each variant carries what an actionable message (diagnosis and remedy)
//! needs.

use vstd::prelude::*;

use crate::model::{Device, DeviceView};

verus! {

#[derive(Debug)]
pub enum AdbError {
    /// The `adb` binary is not on the PATH.
    AdbNotFound,
    /// No device is connected.
    NoDevice,
    /// Several devices are connected and no serial was given.
    AmbiguousDevice { devices: Vec<Device> },
    /// The serial the user asked for is not among the connected devices.
    SerialNotFound { serial: String, available: Vec<Device> },
    /// The device is connected but not authorized.
    Unauthorized { serial: String },
    /// No permission to reach the device over USB (Linux without udev rules).
    NoPermissions { serial: String },
    /// The device is in a state in which it cannot be used (offline, ...).
    NotReady { serial: String, state: String },
    /// An adb command ended with an error code.
    CommandFailed { args: Vec<String>, code: Option<i32>, stderr: String },
    /// I/O failure while invoking adb.
    Io(std::io::Error),
    /// `adb connect` did not connect.
    ConnectFailed { target: String, detail: String },
    /// `adb pair` did not pair.
    PairFailed { target: String, detail: String },
}

/// An adb error with its texts as characters and the I/O failure reduced to
/// its presence.
pub enum AdbErrorView {
    AdbNotFound,
    NoDevice,
    AmbiguousDevice { devices: Seq<DeviceView> },
    SerialNotFound { serial: Seq<char>, available: Seq<DeviceView> },
    Unauthorized { serial: Seq<char> },
    NoPermissions { serial: Seq<char> },
    NotReady { serial: Seq<char>, state: Seq<char> },
    CommandFailed { args: Seq<Seq<char>>, code: Option<i32>, stderr: Seq<char> },
    Io,
    ConnectFailed { target: Seq<char>, detail: Seq<char> },
    PairFailed { target: Seq<char>, detail: Seq<char> },
}

impl View for AdbError {
    type V = AdbErrorView;

    open spec fn view(&self) -> AdbErrorView {
        match self {
            AdbError::AdbNotFound => AdbErrorView::AdbNotFound,
            AdbError::NoDevice => AdbErrorView::NoDevice,
            AdbError::AmbiguousDevice { devices } => AdbErrorView::AmbiguousDevice {
                devices: devices.deep_view(),
            },
            AdbError::SerialNotFound { serial, available } => AdbErrorView::SerialNotFound {
                serial: serial@,
                available: available.deep_view(),
            },
            AdbError::Unauthorized { serial } => AdbErrorView::Unauthorized { serial: serial@ },
            AdbError::NoPermissions { serial } => AdbErrorView::NoPermissions { serial: serial@ },
            AdbError::NotReady { serial, state } => AdbErrorView::NotReady {
                serial: serial@,
                state: state@,
            },
            AdbError::CommandFailed { args, code, stderr } => AdbErrorView::CommandFailed {
                args: args.deep_view(),
                code: *code,
                stderr: stderr@,
            },
            AdbError::Io(_) => AdbErrorView::Io,
            AdbError::ConnectFailed { target, detail } => AdbErrorView::ConnectFailed {
                target: target@,
                detail: detail@,
            },
            AdbError::PairFailed { target, detail } => AdbErrorView::PairFailed {
                target: target@,
                detail: detail@,
            },
        }
    }
}

/// A result of the adb layer, seen through the views of its value and error.
pub open spec fn adb_view<T: View>(r: Result<T, AdbError>) -> Result<T::V, AdbErrorView> {
    match r {
        Ok(v) => Ok(v@),
        Err(e) => Err(e@),
    }
}

impl AdbError {
    /// The underlying I/O failure, when there is one.
    pub fn source(&self) -> (r: Option<&std::io::Error>)
        ensures
            r is Some <==> self is Io,
            r matches Some(e) ==> *self == AdbError::Io(*e),
    {
        match self {
            AdbError::Io(e) => Some(e),
            _ => None,
        }
    }
}

impl From<std::io::Error> for AdbError {
    fn from(e: std::io::Error) -> (r: AdbError) {
        AdbError::Io(e)
    }
}

impl vstd::std_specs::convert::FromSpecImpl<std::io::Error> for AdbError {
    open spec fn obeys_from_spec() -> bool {
        true
    }

    open spec fn from_spec(e: std::io::Error) -> AdbError {
        AdbError::Io(e)
    }
}

} // verus!
