//! Command-protocol engine for Sky-Watcher telescope mounts: hexadecimal fields, command
//! encoding and response framing for the motor-board and hand-controller protocols, the
//! exchange over a serial link, and the property cache of a connected mount.

pub mod codec;
pub mod convert;
pub mod driver;
pub mod eqmod;
pub mod error;
pub mod props;
pub mod synscan;
pub mod text;
pub mod tracking;
pub mod transport;

pub use convert::{str_24bits_to_u32, str_to_u16, str_to_u32};
pub use tracking::TrackingMode;
