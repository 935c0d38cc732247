//! The trigger loop's decision logic: one poll cycle consults the
//! cancellation flag, classifies what the bounded-timeout read produced, and
//! either exits, keeps waiting, or asks for a fixed-count burst of the
//! configured response frame.

use vstd::prelude::*;

use crate::settings::AppSettings;
use crate::settings::max_id;

verus! {

/// Number of frames transmitted per observed trigger.
pub const BURST_COUNT: usize = 100;

/// Bound, in seconds, on one blocking read of the bus. It is what makes the
/// cancellation flag be consulted periodically rather than never: the worst
/// case latency between cancellation and loop exit is one such period.
pub const POLL_TIMEOUT_SECS: u64 = 1;

/// A CAN frame held as plain values: identifier, identifier space, and the
/// valid prefix of an 8-byte payload buffer.
pub struct CanFrameData {
    /// Frame identifier.
    pub id: u32,
    /// The identifier lives in the 29-bit (extended) space, else the 11-bit
    /// (standard) one.
    pub extended: bool,
    /// Payload buffer; only the first `len` bytes are meaningful.
    pub data: [u8; 8],
    /// Number of valid bytes at the start of `data`.
    pub len: usize,
}

impl CanFrameData {
    /// The identifier fits its identifier space and the payload prefix fits
    /// the buffer.
    pub open spec fn wf(self) -> bool {
        self.id <= max_id(self.extended) && self.len <= 8
    }
}

/// The outbound frame a descriptor describes: the response identifier in the
/// configured identifier space, carrying the configured payload prefix.
pub open spec fn frame_of(settings: AppSettings) -> CanFrameData {
    CanFrameData {
        id: settings.can_id,
        extended: settings.extended,
        data: settings.data,
        len: settings.len,
    }
}

/// Builds the outbound frame from a validated descriptor.
pub fn create_frame(settings: &AppSettings) -> (f: CanFrameData)
    requires
        settings.wf(),
    ensures
        f == frame_of(*settings),
        f.wf(),
{
    CanFrameData {
        id: settings.can_id,
        extended: settings.extended,
        data: settings.data,
        len: settings.len,
    }
}

/// What one bounded-timeout poll of the bus produced.
pub enum ReadEvent {
    /// A frame arrived; only its raw identifier matters for triggering.
    Frame { id: u32 },
    /// The timeout elapsed with no frame.
    Timeout,
    /// The read failed for a transport reason.
    ReadError,
}

/// What the loop asks its driver to do after one poll cycle.
pub enum LoopAction {
    /// Cancellation was observed: leave the loop cleanly.
    Exit,
    /// Not triggered: poll again.
    Idle,
    /// The trigger identifier was observed: transmit `frame` exactly `times`
    /// times, back to back, ignoring individual transmit failures.
    Burst { frame: CanFrameData, times: usize },
}

/// `event` arms a burst: a frame arrived bearing the trigger identifier.
/// Timeouts, read errors and foreign identifiers do not.
pub open spec fn triggered(settings: AppSettings, event: ReadEvent) -> bool {
    event matches ReadEvent::Frame { id } && id == settings.trigger_can_id
}

/// The trigger loop's state: the descriptor it owns, fixed for the life of
/// the process, and a monotonic (wrapping) count of completed bursts kept
/// only for observability.
pub struct TriggerLoop {
    /// The validated frame descriptor.
    pub settings: AppSettings,
    /// Number of bursts performed so far, wrapping on overflow.
    pub count: u64,
}

impl TriggerLoop {
    /// The owned descriptor is well formed.
    pub open spec fn wf(self) -> bool {
        self.settings.wf()
    }

    /// Takes ownership of a validated descriptor; no burst has happened yet.
    pub fn new(settings: AppSettings) -> (l: TriggerLoop)
        requires
            settings.wf(),
        ensures
            l.settings == settings,
            l.count == 0,
            l.wf(),
    {
        TriggerLoop { settings, count: 0 }
    }

    /// One poll cycle. The cancellation flag, read once at the top, wins over
    /// everything else. Otherwise only a frame bearing the trigger identifier
    /// arms a burst of exactly `BURST_COUNT` copies of the configured frame
    /// and bumps the burst counter; timeouts, transport errors and foreign
    /// identifiers leave the loop waiting, with nothing changed.
    pub fn step(&mut self, running: bool, event: ReadEvent) -> (a: LoopAction)
        requires
            old(self).wf(),
        ensures
            final(self).settings == old(self).settings,
            final(self).wf(),
            !running ==> a == LoopAction::Exit && final(self).count == old(self).count,
            running && triggered(old(self).settings, event) ==> ({
                &&& a matches LoopAction::Burst { frame, times } && frame == frame_of(
                    old(self).settings,
                ) && times == BURST_COUNT
                &&& final(self).count == old(self).count.wrapping_add(1)
            }),
            running && !triggered(old(self).settings, event) ==> a == LoopAction::Idle
                && final(self).count == old(self).count,
    {
        if !running {
            return LoopAction::Exit;
        }
        let is_trigger = match event {
            ReadEvent::Frame { id } => id == self.settings.trigger_can_id,
            _ => false,
        };
        if !is_trigger {
            return LoopAction::Idle;
        }
        let frame = create_frame(&self.settings);
        self.count = self.count.wrapping_add(1);
        LoopAction::Burst { frame, times: BURST_COUNT }
    }
}

} // verus!
