//! The tracker life cycle of the Antilatency source: when to look for the
//! tagged device, create a tracker for it, read poses, and drop a lost
//! tracker. The driver calls are the application's, which reports each
//! outcome as an event.

use vstd::prelude::*;

verus! {

/// What the loop keeps between passes.
#[derive(Clone, Copy, Debug, PartialEq, Eq, Structural)]
pub struct TrackerState {
    /// A tracker exists.
    pub has_tracker: bool,
    /// The device network update seen when the device was last looked for.
    pub last_update_id: u32,
    /// Poses read so far.
    pub frame_number: i32,
}

/// An outcome of a driver call.
#[derive(Clone, Copy, Debug, PartialEq, Eq, Structural)]
pub enum TrackerEvent {
    /// The device network's update id, or none when reading it failed.
    UpdateId(Option<u32>),
    /// Whether the search found a device with the source's tag.
    DeviceFound(bool),
    /// Whether a tracker was created for the found device.
    TrackerCreated(bool),
    /// A pose was read, and whether it is tracked; none when the read
    /// failed.
    PoseRead(Option<bool>),
}

/// What the loop asks the application to do next.
#[derive(Clone, Copy, Debug, PartialEq, Eq, Structural)]
pub enum TrackerAction {
    /// Sleep that many milliseconds, then read the update id again.
    Sleep(u64),
    /// Look for the device with the source's tag.
    SearchDevice,
    /// Create a tracker for the found device.
    CreateTracker,
    /// Read a pose from the tracker.
    ReadPose,
    /// Destroy the lost tracker, then read the update id again.
    DestroyTracker,
    /// Publish the pose as optical data numbered `frame_number`, of full
    /// quality when `tracking`, if `publish`; then sleep 2 ms.
    Publish { frame_number: i32, tracking: bool, publish: bool },
}

impl TrackerState {
    /// Before the first pass: no tracker, no update seen, no pose read.
    pub fn new() -> (r: Self)
        ensures
            r == (TrackerState { has_tracker: false, last_update_id: 0, frame_number: 0 }),
    {
        TrackerState { has_tracker: false, last_update_id: 0, frame_number: 0 }
    }
}

/// The next state and action, from the state, the event and whether the
/// source is enabled:
///
/// - without a tracker, a new update id of the device network (or any,
///   before the first) starts a search; another waits 100 ms; with a
///   tracker, the loop reads a pose; a failed read of the id waits 100 ms;
/// - a search that finds nothing waits 500 ms; one that finds the device
///   creates a tracker; a tracker that could not be created waits 100 ms;
/// - a failed pose read loses the tracker; a pose read counts a frame and
///   is published when enabled.
pub open spec fn tracker_transition(s: TrackerState, event: TrackerEvent, enabled: bool) -> (
    TrackerState,
    TrackerAction,
) {
    match event {
        TrackerEvent::UpdateId(None) => (s, TrackerAction::Sleep(100)),
        TrackerEvent::UpdateId(Some(id)) => if !s.has_tracker && (id != s.last_update_id
            || s.last_update_id == 0) {
            (TrackerState { last_update_id: id, ..s }, TrackerAction::SearchDevice)
        } else if !s.has_tracker {
            (s, TrackerAction::Sleep(100))
        } else {
            (s, TrackerAction::ReadPose)
        },
        TrackerEvent::DeviceFound(found) => if found {
            (s, TrackerAction::CreateTracker)
        } else {
            (s, TrackerAction::Sleep(500))
        },
        TrackerEvent::TrackerCreated(ok) => if ok {
            (TrackerState { has_tracker: true, ..s }, TrackerAction::ReadPose)
        } else {
            (TrackerState { has_tracker: false, ..s }, TrackerAction::Sleep(100))
        },
        TrackerEvent::PoseRead(None) => (
            TrackerState { has_tracker: false, ..s },
            TrackerAction::DestroyTracker,
        ),
        TrackerEvent::PoseRead(Some(tracking)) => (
            TrackerState { frame_number: (s.frame_number + 1) as i32, ..s },
            TrackerAction::Publish {
                frame_number: (s.frame_number + 1) as i32,
                tracking,
                publish: enabled,
            },
        ),
    }
}

/// One decision of the tracker loop. The frame count must not overflow,
/// as counting past `i32::MAX` panics.
pub fn tracker_step(s: TrackerState, event: TrackerEvent, enabled: bool) -> (r: (
    TrackerState,
    TrackerAction,
))
    requires
        event matches TrackerEvent::PoseRead(Some(_)) ==> s.frame_number < i32::MAX,
    ensures
        r == tracker_transition(s, event, enabled),
{
    match event {
        TrackerEvent::UpdateId(None) => (s, TrackerAction::Sleep(100)),
        TrackerEvent::UpdateId(Some(id)) => {
            if !s.has_tracker && (id != s.last_update_id || s.last_update_id == 0) {
                (TrackerState { last_update_id: id, ..s }, TrackerAction::SearchDevice)
            } else if !s.has_tracker {
                (s, TrackerAction::Sleep(100))
            } else {
                (s, TrackerAction::ReadPose)
            }
        },
        TrackerEvent::DeviceFound(found) => {
            if found {
                (s, TrackerAction::CreateTracker)
            } else {
                (s, TrackerAction::Sleep(500))
            }
        },
        TrackerEvent::TrackerCreated(ok) => {
            if ok {
                (TrackerState { has_tracker: true, ..s }, TrackerAction::ReadPose)
            } else {
                (TrackerState { has_tracker: false, ..s }, TrackerAction::Sleep(100))
            }
        },
        TrackerEvent::PoseRead(None) => (
            TrackerState { has_tracker: false, ..s },
            TrackerAction::DestroyTracker,
        ),
        TrackerEvent::PoseRead(Some(tracking)) => {
            let n = s.frame_number + 1;
            (
                TrackerState { frame_number: n, ..s },
                TrackerAction::Publish { frame_number: n, tracking, publish: enabled },
            )
        },
    }
}

/// Poses are only read with a tracker, and a lost tracker is searched for
/// again: after a failed read the next update id starts a search whenever
/// it differs from the last one seen or none was seen.
pub proof fn law_lost_tracker_is_searched_again(s: TrackerState, enabled: bool, id: u32)
    ensures
        ({
            let (lost, _) = tracker_transition(s, TrackerEvent::PoseRead(None), enabled);
            let (_, a) = tracker_transition(lost, TrackerEvent::UpdateId(Some(id)), enabled);
            &&& !lost.has_tracker
            &&& (id != s.last_update_id || s.last_update_id == 0) ==> a == TrackerAction::SearchDevice
            &&& a != TrackerAction::ReadPose
        }),
{
}

} // verus!
