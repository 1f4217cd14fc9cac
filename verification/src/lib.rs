//! Drivers for grid/knob MIDI control surfaces.
//!
//! Each supported device gets a position-mapping layer (coordinates to flat
//! raw addresses), an input-event decoder for the 3-byte wire frames, a
//! visual-state diffing engine that minimises wire traffic, and a codec for
//! the device's bulk colour-update frame. The drivers here are pure state
//! machines: they decode frames handed to them and return the frames to be
//! transmitted, so that every decision they make is verified. The hardware
//! transport that carries those frames lives outside this crate.

use vstd::prelude::*;

pub mod data;
pub mod devices;
pub mod model;
pub mod text;
pub mod views;

verus! {

/// Last known input state of one physical control: a button is pressed or
/// released, a knob or slider reports a byte.
#[derive(Clone, Copy, Debug, PartialEq, Eq, Structural)]
pub enum MidiPhysicalState {
    Binary(bool),
    Analog8(u8),
}

/// Error taxonomy of the driver layer.
///
/// The transport variants carry the message of the underlying hardware
/// failure verbatim; the validation variants carry the device name and a
/// description of the rejected value.
#[derive(Debug)]
pub enum MidiDriverError {
    /// Transport initialisation failed.
    MidirInitError(String),
    /// The transport could not report a port's name.
    MidirPortInfoError(String),
    /// Opening the input connection failed.
    MidirConnectInputError(String),
    /// Opening the output connection failed.
    MidirConnectOutputError(String),
    /// Transmitting a frame failed.
    MidirSendError(String),
    /// No port name contained the requested device name.
    MidiNotFound(String),
    /// A coordinate or raw address outside the device's valid range.
    InvalidPosition(String, String),
    /// A colour channel outside its allowed domain.
    InvalidVisual(String, String),
}

/// The validation faults an encoder can report, used by specifications to
/// state which [`MidiDriverError`] variant a codec returns.
#[derive(PartialEq, Eq, Structural)]
pub enum MidiErrorKind {
    InvalidPosition,
    InvalidVisual,
}

/// True when the error is the variant that `kind` names.
pub open spec fn error_has_kind(e: MidiDriverError, kind: MidiErrorKind) -> bool {
    match kind {
        MidiErrorKind::InvalidPosition => e is InvalidPosition,
        MidiErrorKind::InvalidVisual => e is InvalidVisual,
    }
}

/// Device position transformers: every coordinate form of a device converts
/// to the flat raw address of the control it names, or is rejected.
pub trait MidiPhysicalPosition: Sized {
    fn to_raw(&self) -> Result<u8, MidiDriverError>;
}

/// Decoders for the 3-byte input frames a device emits.
pub trait MidiInputMessage: Sized {
    fn from_raw(raw: &[u8]) -> Option<Self>;
}

/// Encoders for the frames a device accepts.
pub trait MidiOutputMessage: Sized {
    fn to_raw(self) -> Result<Vec<u8>, MidiDriverError>;
}

/// Light and visual elements on the device itself.
pub trait MidiVisual: Sized {
    fn get_raw_pos(&self) -> Result<u8, MidiDriverError>;

    fn is_default(&self) -> bool;

    fn is_absorbed(&self, absorber: &Self) -> bool;
}

/// The capability contract every device driver exposes.
///
/// A driver is a pure state machine: it owns the effective, queued and
/// physical-state maps, but never a transport. `connect` and `push` return
/// the frames to transmit, `read` takes the events the hardware callback
/// collected; the caller performs the wire traffic. Visual changes go
/// through `add`/`push` so that only the minimal delta is ever transmitted.
///
/// Each implementation strengthens these contracts with the exact
/// device-specific behaviour.
pub trait MidiDriver<
    I: MidiInputMessage,
    O: MidiOutputMessage,
    V: MidiVisual,
    P: MidiPhysicalPosition,
>: Sized {
    /// Well-formedness of the driver's maps.
    spec fn wf(&self) -> bool;

    /// A fresh driver together with the frames that bring the device into a
    /// known, fully-off state; the caller transmits them in order.
    fn connect() -> (r: (Self, Vec<Vec<u8>>))
        ensures
            r.0.wf(),
    ;

    /// Queues a full clear and returns the resulting frame, if one must be
    /// transmitted; the caller sends it and drops the connection.
    fn close(&mut self) -> (r: Result<Option<Vec<u8>>, MidiDriverError>)
        requires
            old(self).wf(),
        ensures
            final(self).wf(),
    ;

    /// Processes the input events received since the last call, updating the
    /// physical-state cache and returning the events in their guaranteed
    /// order.
    fn read(&mut self, incoming: Vec<I>) -> (out: Vec<I>)
        requires
            old(self).wf(),
        ensures
            final(self).wf(),
    ;

    /// The cached physical state of the control at `pos`.
    fn get_position_state(&self, pos: P) -> (r: Result<MidiPhysicalState, MidiDriverError>)
        requires
            self.wf(),
    ;

    /// Discards all queued visual transformations without transmitting.
    fn pop(&mut self)
        requires
            old(self).wf(),
        ensures
            final(self).wf(),
    ;

    /// Diffs the queued visuals against the effective ones and returns the
    /// frame carrying the minimal batch, when one must be transmitted.
    fn push(&mut self) -> (r: Result<Option<Vec<u8>>, MidiDriverError>)
        requires
            old(self).wf(),
        ensures
            final(self).wf(),
    ;

    /// Queues the off visual for every addressable control.
    fn clear(&mut self)
        requires
            old(self).wf(),
        ensures
            final(self).wf(),
    ;

    /// Queues one visual transformation, keyed by its raw address.
    fn add(&mut self, visual: V) -> (r: Result<(), MidiDriverError>)
        requires
            old(self).wf(),
        ensures
            final(self).wf(),
    ;
}

} // verus!
