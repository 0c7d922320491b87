//! A virtual output through the `evdi` kernel driver: a real DRM device that the
//! compositor mode-sets like any monitor, and whose pixels are read back.
//!
//! The device is driven by the caller. This module says what to connect it with
//! and what its answers mean.

use crate::edid::{build_edid, checksum, edid_body, has_timing, timing_of};
use crate::text::copy_text;
use vstd::prelude::*;

verus! {

/// How long the compositor may take to mode-set the device, in milliseconds.
pub const AWAIT_MODE_TIMEOUT_MS: u64 = 2000;

/// How long an unpaced loop waits for a frame, in milliseconds. Short, because a
/// missed notification then costs one quick retry and no long stall.
pub const PROBE_UPDATE_TIMEOUT_MS: u64 = 150;

/// Why the device could not be used.
#[derive(Debug)]
pub enum EvdiError {
    /// There is no device node.
    NoDevice,
    /// The compositor did not mode-set the device; the text says how the wait
    /// for it ended.
    NeverModeSet(String),
    /// A frame could not be updated; the text says how the driver failed.
    UpdateFailed(String),
    /// The buffer is gone.
    BufferMissing,
    /// The buffer's stride does not fit its field.
    StrideTooLarge(usize),
}

impl EvdiError {
    /// The text that tells a person what went wrong.
    pub open spec fn message(self) -> Seq<char> {
        match self {
            EvdiError::NoDevice =>
                "no evdi device node available. Run the evdi one-time setup (see docs/) to create one — it needs superuser permissions once, not on every run."@,
            EvdiError::NeverModeSet(cause) =>
                "compositor never mode-set the evdi output — is wlr-randr enabling it after this call returns?: "@
                    + cause@,
            EvdiError::UpdateFailed(cause) => "evdi frame update failed: "@ + cause@,
            EvdiError::BufferMissing => "evdi buffer missing — was it unregistered?"@,
            EvdiError::StrideTooLarge(_) => "buffer stride out of range: out of range integral type conversion attempted"@,
        }
    }

    pub fn to_string(&self) -> (r: String)
        ensures
            r@ == self.message(),
    {
        match self {
            EvdiError::NoDevice => copy_text(
                "no evdi device node available. Run the evdi one-time setup (see docs/) to create one — it needs superuser permissions once, not on every run.",
            ),
            EvdiError::NeverModeSet(cause) => {
                let mut r = copy_text(
                    "compositor never mode-set the evdi output — is wlr-randr enabling it after this call returns?: ",
                );
                r.append(cause.as_str());
                r
            },
            EvdiError::UpdateFailed(cause) => {
                let mut r = copy_text("evdi frame update failed: ");
                r.append(cause.as_str());
                r
            },
            EvdiError::BufferMissing => copy_text("evdi buffer missing — was it unregistered?"),
            EvdiError::StrideTooLarge(_) => copy_text("buffer stride out of range: out of range integral type conversion attempted"),
        }
    }
}

/// What the compositor set the device to.
#[derive(Debug, Clone, Copy, PartialEq, Eq, Structural)]
pub struct Mode {
    pub width: u32,
    pub height: u32,
}

/// What a device is connected with.
pub struct Connection {
    pub edid: Vec<u8>,
    pub width: u32,
    pub height: u32,
}

/// Timing of one captured frame.
#[derive(Debug, Clone, Copy, PartialEq, Eq, Structural)]
pub struct EvdiFrameTiming {
    /// From the request to the frame, in nanoseconds.
    pub latency_ns: u128,
}

/// How a request for a frame ended.
pub enum Update {
    /// A frame arrived, this many nanoseconds after the request.
    Fresh(u128),
    /// Nothing new in time.
    TimedOut,
    /// The driver failed.
    Failed(String),
}

/// A device that is connected and mode-set and has no buffer yet.
///
/// The caller still has to find out what the connector is called and to place
/// it, and that can itself cause a mode-set, which invalidates buffers that were
/// registered before.
pub struct PendingEvdiOutput {
    mode: Mode,
}

/// A live device with a buffer for its mode.
pub struct EvdiOutput {
    mode: Mode,
}

impl PendingEvdiOutput {
    pub closed spec fn current_mode(self) -> Mode {
        self.mode
    }

    /// The device after the compositor answered the connection, or with how the
    /// wait for that ended.
    pub fn connected(awaited: Result<Mode, String>) -> (r: Result<PendingEvdiOutput, EvdiError>)
        ensures
            match awaited {
                Ok(mode) => r is Ok && r->Ok_0.current_mode() == mode,
                Err(cause) => r is Err && r->Err_0 == EvdiError::NeverModeSet(cause),
            },
    {
        match awaited {
            Ok(mode) => Ok(PendingEvdiOutput { mode }),
            Err(cause) => Err(EvdiError::NeverModeSet(cause)),
        }
    }

    /// The device once it has been placed. A mode that was set meanwhile is the
    /// one that counts; without one, the last mode still stands.
    pub fn finish(self, awaited: Option<Mode>) -> (r: EvdiOutput)
        ensures
            r.current_mode() == (match awaited {
                Some(mode) => mode,
                None => self.current_mode(),
            }),
    {
        EvdiOutput {
            mode: match awaited {
                Some(mode) => mode,
                None => self.mode,
            },
        }
    }
}

impl EvdiOutput {
    pub closed spec fn current_mode(self) -> Mode {
        self.mode
    }

    /// What to connect a device with so that it offers exactly this mode.
    pub fn connect(width: u32, height: u32, refresh_hz: u32) -> (r: Connection)
        requires
            has_timing(width as int, height as int, refresh_hz as int),
        ensures
            r.edid@ == ({
                let body = edid_body(timing_of(width as int, height as int, refresh_hz as int));
                body.push(checksum(body))
            }),
            r.width == width,
            r.height == height,
    {
        Connection { edid: build_edid(width, height, refresh_hz), width, height }
    }

    pub fn width(&self) -> (r: u32)
        ensures
            r == self.current_mode().width,
    {
        self.mode.width
    }

    pub fn height(&self) -> (r: u32)
        ensures
            r == self.current_mode().height,
    {
        self.mode.height
    }

    /// What a request for a frame gave. Nothing new in time is no failure: the
    /// driver reports damage only, and an idle desktop goes quiet.
    pub fn capture_frame(&mut self, update: Update) -> (r: Result<
        Option<EvdiFrameTiming>,
        EvdiError,
    >)
        ensures
            final(self).current_mode() == old(self).current_mode(),
            match update {
                Update::Fresh(latency_ns) => r is Ok && r->Ok_0 == Some(
                    EvdiFrameTiming { latency_ns },
                ),
                Update::TimedOut => r is Ok && r->Ok_0 is None,
                Update::Failed(cause) => r is Err && r->Err_0 == EvdiError::UpdateFailed(cause),
            },
    {
        match update {
            Update::Fresh(latency_ns) => Ok(Some(EvdiFrameTiming { latency_ns })),
            Update::TimedOut => Ok(None),
            Update::Failed(cause) => Err(EvdiError::UpdateFailed(cause)),
        }
    }

    /// The pixels of the last frame, out of the buffer if it is still there.
    pub fn bytes<'a>(&self, buffer: Option<&'a [u8]>) -> (r: Result<&'a [u8], EvdiError>)
        ensures
            match buffer {
                Some(bytes) => r is Ok && r->Ok_0@ == bytes@,
                None => r is Err && r->Err_0 is BufferMissing,
            },
    {
        match buffer {
            Some(bytes) => Ok(bytes),
            None => Err(EvdiError::BufferMissing),
        }
    }

    /// The bytes from one row to the next, out of the buffer if it is still
    /// there.
    pub fn stride(&self, buffer: Option<usize>) -> (r: Result<u32, EvdiError>)
        ensures
            match buffer {
                Some(stride) => if stride <= u32::MAX {
                    r is Ok && r->Ok_0 == stride
                } else {
                    r is Err && r->Err_0 == EvdiError::StrideTooLarge(stride)
                },
                None => r is Err && r->Err_0 is BufferMissing,
            },
    {
        match buffer {
            Some(stride) => {
                if stride <= u32::MAX as usize {
                    Ok(stride as u32)
                } else {
                    Err(EvdiError::StrideTooLarge(stride))
                }
            },
            None => Err(EvdiError::BufferMissing),
        }
    }
}

} // verus!
