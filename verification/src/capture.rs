//! The capture loop: framing of the chunks that are read from the microphone
//! and fed to the acoustic front end, and what the loop does next.

use vstd::prelude::*;

verus! {

/// How long one read from the microphone may take, in milliseconds.
pub const READ_TIMEOUT_MS: u32 = 100;

/// The length in bytes of one chunk: two bytes for each sample of each
/// channel.
pub open spec fn chunk_bytes(chunk_size: int, channel_num: int) -> int {
    2 * chunk_size * channel_num
}

/// The length in bytes of the buffer for one chunk of `chunk_size` samples on
/// each of `channel_num` channels. There is none for a negative count, nor
/// for a length beyond what can be addressed.
pub fn feed_buffer_len(chunk_size: i32, channel_num: i32) -> (len: Option<usize>)
    ensures
        match len {
            Some(n) => chunk_size >= 0 && channel_num >= 0 && n == chunk_bytes(
                chunk_size as int,
                channel_num as int,
            ),
            None => chunk_size < 0 || channel_num < 0 || chunk_bytes(
                chunk_size as int,
                channel_num as int,
            ) > usize::MAX,
        },
{
    if chunk_size < 0 || channel_num < 0 {
        return None;
    }
    let samples: u64 = chunk_size as u64;
    let channels: u64 = channel_num as u64;
    assert(samples * channels <= 0x7fff_ffff * 0x7fff_ffff) by (nonlinear_arith)
        requires
            samples <= 0x7fff_ffff,
            channels <= 0x7fff_ffff,
    ;
    let total: u64 = 2 * (samples * channels);
    assert(total == chunk_bytes(chunk_size as int, channel_num as int)) by (nonlinear_arith)
        requires
            total == 2 * (samples * channels),
            samples == chunk_size,
            channels == channel_num,
    ;
    if total > usize::MAX as u64 {
        None
    } else {
        Some(total as usize)
    }
}

/// The number of whole samples in `byte_size` bytes; none for a size that is
/// not positive.
pub fn sample_count(byte_size: i32) -> (n: usize)
    ensures
        n == (if byte_size > 0 {
            byte_size as int / 2
        } else {
            0
        }),
{
    if byte_size > 0 {
        (byte_size / 2) as usize
    } else {
        0
    }
}

/// What the capture loop did last, and how it went.
#[derive(Debug, Clone, Copy, PartialEq, Eq, Structural)]
pub enum CaptureEvent {
    /// The loop starts.
    Started,
    /// A chunk was read from the microphone, or the read failed.
    Read { ok: bool },
    /// The chunk was fed to the engine, or the engine refused it.
    Fed { ok: bool },
}

/// Why the capture loop ends.
#[derive(Debug, Clone, Copy, PartialEq, Eq, Structural)]
pub enum CaptureFailure {
    /// The microphone could not be read.
    ReadFailed,
    /// The engine did not take the chunk.
    FeedFailed,
}

/// What the capture loop does next.
#[derive(Debug, Clone, Copy, PartialEq, Eq, Structural)]
pub enum CaptureAction {
    /// Read one chunk from the microphone within the timeout.
    Read { timeout_ms: u32 },
    /// Feed the chunk that was read to the engine.
    Feed,
    /// End the task: capture has no degraded mode.
    Stop { failure: CaptureFailure },
}

/// What follows an event of the capture loop: a chunk that was read is fed,
/// a chunk that was fed is followed by the next read, and any failure ends
/// the loop.
pub open spec fn capture_spec(event: CaptureEvent) -> CaptureAction {
    match event {
        CaptureEvent::Started => CaptureAction::Read { timeout_ms: READ_TIMEOUT_MS },
        CaptureEvent::Read { ok } => if ok {
            CaptureAction::Feed
        } else {
            CaptureAction::Stop { failure: CaptureFailure::ReadFailed }
        },
        CaptureEvent::Fed { ok } => if ok {
            CaptureAction::Read { timeout_ms: READ_TIMEOUT_MS }
        } else {
            CaptureAction::Stop { failure: CaptureFailure::FeedFailed }
        },
    }
}

/// What the capture loop does next.
pub fn capture_next(event: CaptureEvent) -> (action: CaptureAction)
    ensures
        action == capture_spec(event),
{
    match event {
        CaptureEvent::Started => CaptureAction::Read { timeout_ms: READ_TIMEOUT_MS },
        CaptureEvent::Read { ok } => if ok {
            CaptureAction::Feed
        } else {
            CaptureAction::Stop { failure: CaptureFailure::ReadFailed }
        },
        CaptureEvent::Fed { ok } => if ok {
            CaptureAction::Read { timeout_ms: READ_TIMEOUT_MS }
        } else {
            CaptureAction::Stop { failure: CaptureFailure::FeedFailed }
        },
    }
}

} // verus!
