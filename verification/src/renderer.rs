//! The renderer's frame counter and the handling of its websocket to the
//! controller.

use vstd::prelude::*;

verus! {

/// Counts the style updates received during the current second and keeps
/// the count of the last full second for display.
pub struct FrameCounter {
    count: i32,
    last_count: i32,
}

impl FrameCounter {
    pub closed spec fn count_view(&self) -> i32 {
        self.count
    }

    pub closed spec fn last_count_view(&self) -> i32 {
        self.last_count
    }

    /// Counts one more update in the current second.
    pub fn inc(&mut self)
        requires
            old(self).count_view() < i32::MAX,
        ensures
            final(self).count_view() == old(self).count_view() + 1,
            final(self).last_count_view() == old(self).last_count_view(),
    {
        self.count += 1;
    }

    /// Whether one more update can be counted without overflow.
    pub fn can_inc(&self) -> (r: bool)
        ensures
            r == (self.count_view() < i32::MAX),
    {
        self.count < i32::MAX
    }

    /// The second timer finished: the count of this second is kept for
    /// display and counting starts again.
    pub fn end_second(&mut self)
        ensures
            final(self).last_count_view() == old(self).count_view(),
            final(self).count_view() == 0,
    {
        self.last_count = self.count;
        self.count = 0;
    }

    /// The count of the last full second, which the display shows.
    pub fn last_count(&self) -> (r: i32)
        ensures
            r == self.last_count_view(),
    {
        self.last_count
    }
}

impl Default for FrameCounter {
    fn default() -> (r: Self)
        ensures
            r.count_view() == 0,
            r.last_count_view() == 0,
    {
        FrameCounter { count: 0, last_count: 0 }
    }
}

/// The kinds of event that the websocket to the controller delivers.
#[derive(Clone, Copy, Debug, PartialEq, Eq, Structural)]
pub enum WsEventKind {
    Opened,
    BinaryMessage,
    OtherMessage,
    Error,
    Closed,
}

/// What the renderer does about a websocket event.
#[derive(Clone, Copy, Debug, PartialEq, Eq, Structural)]
pub enum WsReaction {
    /// Tell the controller that the connection is open.
    SendOpened,
    /// Decode the binary message and hand it to the renderer.
    Deliver,
    /// Only log the event.
    Log,
}

/// The connection flag after an event and what to do about the event: an
/// open connection is announced, binary messages are delivered, a closed
/// socket is marked disconnected, anything else is logged.
pub fn on_ws_event(connected: bool, event: WsEventKind) -> (r: (bool, WsReaction))
    ensures
        r == match event {
            WsEventKind::Opened => (true, WsReaction::SendOpened),
            WsEventKind::BinaryMessage => (connected, WsReaction::Deliver),
            WsEventKind::OtherMessage => (connected, WsReaction::Log),
            WsEventKind::Error => (connected, WsReaction::Log),
            WsEventKind::Closed => (false, WsReaction::Log),
        },
{
    match event {
        WsEventKind::Opened => (true, WsReaction::SendOpened),
        WsEventKind::BinaryMessage => (connected, WsReaction::Deliver),
        WsEventKind::OtherMessage => (connected, WsReaction::Log),
        WsEventKind::Error => (connected, WsReaction::Log),
        WsEventKind::Closed => (false, WsReaction::Log),
    }
}

} // verus!
