//! What the program around the machine decides: the window's size, the
//! keyboard layout and the pacing of frames.

use vstd::prelude::*;

verus! {

/// Nanoseconds in a second.
pub const NANOS_IN_SECOND: u64 = 1_000_000_000;

/// The longest time that one frame is taken to have lasted.
pub const LONGEST_FRAME_NANOS: u64 = 100_000_000;

/// By how much a sleep is cut short, since sleeping is inexact.
pub const SLEEP_MARGIN_NANOS: u64 = 1_020_000;

/// The keyboard character that stands for each key of the keypad.
pub const KEY_LAYOUT: [char; 16] = [
    'x', '1', '2', '3', 'q', 'w', 'e', 'a', 's', 'd', 'z', 'c', '4', 'r', 'f', 'v',
];

/// The size of the window: as asked for in pixels, or the display scaled
/// by the factor asked for, or else half of the largest whole multiple of
/// the display that fits the screen.
pub open spec fn window_dimensions_spec(
    window_size: Option<Result<(u32, u32), u32>>,
    screen_width: u32,
    screen_height: u32,
) -> (int, int) {
    match window_size {
        None => (screen_width / 64 * 32, screen_height / 32 * 16),
        Some(Err(scale)) => (64 * scale, 32 * scale),
        Some(Ok(size)) => (size.0 as int, size.1 as int),
    }
}

/// Computes the size of the window on a screen of the given size.
pub fn window_dimensions(
    window_size: Option<Result<(u32, u32), u32>>,
    screen_width: u32,
    screen_height: u32,
) -> (size: (u32, u32))
    requires
        window_size matches Some(Err(scale)) ==> 64 * scale <= u32::MAX,
    ensures
        (size.0 as int, size.1 as int) == window_dimensions_spec(
            window_size,
            screen_width,
            screen_height,
        ),
{
    match window_size {
        None => (screen_width / 64 * 32, screen_height / 32 * 16),
        Some(Err(scale)) => (64 * scale, 32 * scale),
        Some(Ok(size)) => size,
    }
}

/// Finds the key of the keypad that `character` stands for: the first in
/// `KEY_LAYOUT` that holds it.
pub fn keypad_key(character: char) -> (found: Option<u8>)
    ensures
        match found {
            Some(key) => {
                &&& key < 16
                &&& KEY_LAYOUT[key as int] == character
                &&& forall|lower: int| 0 <= lower < key ==> KEY_LAYOUT[lower] != character
            },
            None => forall|key: int| 0 <= key < 16 ==> KEY_LAYOUT[key] != character,
        },
{
    let mut key: u8 = 0;
    while key < 16
        invariant
            key <= 16,
            forall|k: int| 0 <= k < key ==> KEY_LAYOUT[k] != character,
        decreases 16 - key,
    {
        if KEY_LAYOUT[key as usize] == character {
            return Some(key);
        }
        key += 1;
    }
    None
}

/// `a / b` rounded towards zero.
pub open spec fn truncated_quotient(a: int, b: int) -> int {
    if a >= 0 {
        a / b
    } else {
        -((-a) / b)
    }
}

/// How the presentation of one frame went.
#[derive(Clone, Copy, Debug, PartialEq, Eq, Structural)]
pub struct Pace {
    /// The time that the frame is taken to have lasted, in nanoseconds.
    pub delta: u64,
    /// The time lived through but not yet accounted for, in nanoseconds.
    pub buffer: i64,
    /// Whether presentation should go on waiting for the screen.
    pub vsync: bool,
}

/// The pacing of a frame that waited for the screen. The time lived
/// through, `elapsed`, is added to `buffer`, and whole refresh periods are
/// taken out of it: one if that leaves less than a period owing or over,
/// more where frames were missed. Where two periods or more are owing,
/// the screen is not holding presentation back: the frame lasted `elapsed`,
/// and waiting for the screen is given up.
pub open spec fn paced(buffer: int, elapsed: int, refresh: int) -> (int, int, bool) {
    let total = buffer + elapsed;
    let frames = truncated_quotient(total, refresh);
    if frames < -1 {
        (elapsed, total - elapsed, false)
    } else if frames <= 0 {
        (refresh, total - refresh, true)
    } else {
        ((frames + 1) * refresh, total - (frames + 1) * refresh, true)
    }
}

/// Paces a frame that waited for the screen.
pub fn pace_vsync(buffer: i64, elapsed: u64, refresh: u64) -> (pace: Pace)
    requires
        0 < refresh <= i64::MAX,
        i64::MIN + refresh <= buffer + elapsed <= i64::MAX,
    ensures
        (pace.delta as int, pace.buffer as int, pace.vsync) == paced(
            buffer as int,
            elapsed as int,
            refresh as int,
        ),
{
    let total: i128 = buffer as i128 + elapsed as i128;
    let period: i128 = refresh as i128;
    if total < 0 {
        let owing: i128 = -total;
        let frames: i128 = owing / period;
        if frames > 1 {
            Pace { delta: elapsed, buffer, vsync: false }
        } else {
            Pace { delta: refresh, buffer: (total - period) as i64, vsync: true }
        }
    } else {
        let frames: i128 = total / period;
        if frames == 0 {
            Pace { delta: refresh, buffer: (total - period) as i64, vsync: true }
        } else {
            proof {
                vstd::arithmetic::div_mod::lemma_fundamental_div_mod(total as int, period as int);
                vstd::arithmetic::div_mod::lemma_mod_bound(total as int, period as int);
                assert((frames + 1) * period == period * frames + period) by (nonlinear_arith);
            }
            let delta: i128 = (frames + 1) * period;
            Pace { delta: delta as u64, buffer: (total - delta) as i64, vsync: true }
        }
    }
}

/// How long to sleep before spinning out the rest of a refresh period of
/// which `elapsed` has gone by: the time left less the margin, or nothing
/// if less than the margin is left.
pub open spec fn sleep_time_spec(elapsed: u64, refresh: u64) -> Option<u64> {
    if elapsed < refresh && refresh - elapsed >= SLEEP_MARGIN_NANOS {
        Some((refresh - elapsed - SLEEP_MARGIN_NANOS) as u64)
    } else {
        None
    }
}

/// Tells how long to sleep before spinning out the rest of a refresh period.
pub fn sleep_time(elapsed: u64, refresh: u64) -> (nanos: Option<u64>)
    ensures
        nanos == sleep_time_spec(elapsed, refresh),
{
    if elapsed < refresh && refresh - elapsed >= SLEEP_MARGIN_NANOS {
        Some(refresh - elapsed - SLEEP_MARGIN_NANOS)
    } else {
        None
    }
}

/// Limits the time that a frame is taken to have lasted to `LONGEST_FRAME_NANOS`.
pub fn cap_delta(delta: u64) -> (capped: u64)
    ensures
        capped == if delta > LONGEST_FRAME_NANOS {
            LONGEST_FRAME_NANOS
        } else {
            delta
        },
{
    if delta > LONGEST_FRAME_NANOS {
        LONGEST_FRAME_NANOS
    } else {
        delta
    }
}

/// The machine's frames that fall due when a frame of the screen lasted
/// `delta` nanoseconds, and what is carried over. `buffer` holds sixtieths
/// of a nanosecond carried over from earlier frames: the machine runs
/// sixty frames a second whatever the screen's refresh rate.
pub open spec fn ticks_due_spec(buffer: u64, delta: u64) -> (int, int) {
    ((buffer + 60 * delta) / (NANOS_IN_SECOND as int), (buffer + 60 * delta) % (NANOS_IN_SECOND as int))
}

/// Counts the machine's frames that fall due after `delta` nanoseconds.
pub fn ticks_due(buffer: u64, delta: u64) -> (due: (u64, u64))
    ensures
        (due.0 as int, due.1 as int) == ticks_due_spec(buffer, delta),
        due.1 < NANOS_IN_SECOND,
        due.0 * NANOS_IN_SECOND + due.1 == buffer + 60 * delta,
{
    let total: u128 = buffer as u128 + 60 * delta as u128;
    let second: u128 = NANOS_IN_SECOND as u128;
    ((total / second) as u64, (total % second) as u64)
}

} // verus!
