//! Decoding of self-describing point-cloud frames delivered by a LiDAR driver.
//!
//! A frame is a byte buffer made of equally long rows, together with a schema
//! that names the typed fields inside every row. The crate checks a received
//! schema against the layout the consumer expects ([`validate`]), cuts the
//! buffer into rows ([`Frame`]), decodes the rows into typed records
//! ([`decode_rows`]), and holds the state machine of the acquisition loop
//! that asks the driver for one frame after another ([`AcquisitionLoop`]).
//!
//! Floating-point fields are carried as their IEEE-754 bit patterns, so every
//! decoded value is an integer and two decodes of the same bytes can be
//! compared bit for bit.

pub mod acquisition;
pub mod cloud;
pub mod decode;
pub mod endian;
pub mod frame;
pub mod schema;
pub mod status;
pub mod validate;

pub use acquisition::{
    AcquisitionLoop, AcquisitionState, Action, Event, FailurePolicy, FrameResult, WaitOutcome,
};
pub use cloud::{cartesian_schema, CartesianPoint, CloudMessage};
pub use decode::{decode_frame, decode_rows, Record, Value};
pub use frame::Frame;
pub use schema::{Datatype, FieldDescriptor, Schema};
pub use status::{
    AcquisitionError, DecodeError, Error, FrameError, SchemaError, STATUS_SUCCESS, STATUS_TIMEOUT,
};
pub use validate::validate;
