//! skry: mirror an Android screen on the PC with low latency.
//!
//! The library holds what decides, with its contracts:
//! - the wire protocol between client and server (handshake, control
//!   messages, video framing), in explicit big-endian;
//! - the commands run through `adb`, reading what it prints and choosing the
//!   target device (running the processes is left to the caller);
//! - the geometry of the render window, the presentation clock and the
//!   decisions of the streaming and event loops.

pub mod adb;
pub mod adb_error;
pub mod clock;
pub mod codec;
pub mod control;
pub mod error;
pub mod gear;
pub mod handshake;
pub mod layout;
pub mod messages;
pub mod model;
pub mod parse;
pub mod pipeline;
pub mod stream;
pub mod text;
pub mod ui;
pub mod video;
pub mod wire;
pub mod wireless;

pub use adb::{Adb, Target, ADB_ENV};
pub use adb_error::AdbError;
pub use clock::PresentationClock;
pub use codec::Codec;
pub use control::{ClientMessage, ServerMessage, Telemetry};
pub use error::ProtoError;
pub use gear::Gear;
pub use handshake::Handshake;
pub use model::{Device, DeviceState, Transport};
pub use parse::{parse_devices, select_device};
pub use stream::StreamType;
pub use video::{read_frame, write_frame, FrameHeader, MAX_FRAME_BYTES};
pub use wireless::{parse_connect_result, parse_mdns_services, parse_pair_result, MdnsKind, MdnsService};

use vstd::prelude::*;

verus! {

/// Magic that opens the handshake: the ASCII bytes of "SKRY".
pub const MAGIC: [u8; 4] = [0x53, 0x4B, 0x52, 0x59];

/// Protocol version. Client and server only operate when it matches.
pub const PROTOCOL_VERSION: u16 = 1;

} // verus!
