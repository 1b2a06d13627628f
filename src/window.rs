use vstd::prelude::*;

verus! {

/// Length of a market window, in seconds.
pub const WINDOW_SECS: u64 = 300;

/// Start of the window containing `now` (unix seconds).
pub open spec fn window_of(now: u64) -> u64 {
    (now / WINDOW_SECS * WINDOW_SECS) as u64
}

/// Start of the window containing `now`.
pub fn window_start(now: u64) -> (r: u64)
    ensures
        r == window_of(now),
        r <= now < r + WINDOW_SECS,
        r % WINDOW_SECS == 0,
{
    now / WINDOW_SECS * WINDOW_SECS
}

/// Seconds left before the window containing `now` resolves.
pub fn seconds_remaining(now: u64) -> (r: u64)
    ensures
        r == window_of(now) + WINDOW_SECS - now,
        0 < r <= WINDOW_SECS,
{
    let w = window_start(now);
    WINDOW_SECS - (now - w)
}

/// What a rollover asks for, in order: note the skipped window, resolve the
/// pending position, record the completed window's move.
#[derive(Clone, Copy, Debug, PartialEq, Eq, Structural)]
pub struct Rollover {
    /// The window that just ended (0 at startup).
    pub previous_window: u64,
    /// Its start price (0 if unknown).
    pub previous_start: u64,
    /// The ended window produced no trade and should be noted as skipped.
    pub log_skip: bool,
    /// The ended window's move should be recorded.
    pub record_move: bool,
}

/// Per-window bookkeeping of the engine.
#[derive(Clone, Copy, Debug, PartialEq, Eq, Structural)]
pub struct WindowState {
    pub current_window: u64,
    pub start_price: u64,
    pub traded_this_window: bool,
}

impl WindowState {
    /// The state before the first tick.
    pub fn new() -> (r: WindowState)
        ensures
            r == (WindowState { current_window: 0, start_price: 0, traded_this_window: false }),
    {
        WindowState { current_window: 0, start_price: 0, traded_this_window: false }
    }

    /// Takes a tick at `now` with the current price. When `now` falls in a new
    /// window, moves to it (start price snapshot, no trade yet) and says what
    /// the rollover asks for; otherwise changes nothing.
    pub fn advance(&mut self, now: u64, price: u64) -> (r: Option<Rollover>)
        ensures
            window_of(now) == old(self).current_window ==> r is None && *final(self) == *old(self),
            window_of(now) != old(self).current_window ==> {
                &&& r == Some(
                    Rollover {
                        previous_window: old(self).current_window,
                        previous_start: old(self).start_price,
                        log_skip: old(self).current_window > 0 && !old(self).traded_this_window,
                        record_move: old(self).current_window > 0 && old(self).start_price > 0,
                    },
                )
                &&& *final(self) == (WindowState {
                    current_window: window_of(now),
                    start_price: price,
                    traded_this_window: false,
                })
            },
    {
        let w = window_start(now);
        if w == self.current_window {
            return None;
        }
        let r = Rollover {
            previous_window: self.current_window,
            previous_start: self.start_price,
            log_skip: self.current_window > 0 && !self.traded_this_window,
            record_move: self.current_window > 0 && self.start_price > 0,
        };
        self.current_window = w;
        self.start_price = price;
        self.traded_this_window = false;
        Some(r)
    }

    /// Whether an entry may be attempted at `now`: no trade yet in this
    /// window, a known start price, and at most `entry_seconds` left.
    pub fn may_enter(&self, now: u64, entry_seconds: u64) -> (r: bool)
        ensures
            r == (!self.traded_this_window && self.start_price > 0 && window_of(now)
                + WINDOW_SECS - now <= entry_seconds),
    {
        !self.traded_this_window && self.start_price > 0 && seconds_remaining(now)
            <= entry_seconds
    }

    /// Notes that the window's one trade was taken.
    pub fn mark_traded(&mut self)
        ensures
            *final(self) == (WindowState { traded_this_window: true, ..*old(self) }),
    {
        self.traded_this_window = true;
    }
}

} // verus!
