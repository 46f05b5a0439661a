//! Visual effects for the dialogs: caret blink, typewriter reveal, and a
//! moving scanline.
//!
//! Each effect advances on wall-clock time, which nothing can promise
//! anything about; the contracts state what holds of every outcome —
//! bounds, preserved fields, and the single step a tick may take.

use vstd::prelude::*;
use vstd::string::StrSliceExecFns;

verus! {

#[verifier::external_type_specification]
#[verifier::external_body]
pub struct ExInstant(std::time::Instant);

/// Relies on `std::time::Instant::now`: an opaque moment on the
/// monotonic clock. Nothing is promised of it.
#[verifier::external_body]
fn instant_now() -> std::time::Instant {
    std::time::Instant::now()
}

/// Relies on `std::time::Instant::elapsed`: the milliseconds since `t`.
/// Nothing is promised of the value.
#[verifier::external_body]
fn elapsed_millis(t: &std::time::Instant) -> u64 {
    t.elapsed().as_millis() as u64
}

/// A blinking block caret.
#[derive(Debug)]
pub struct BlinkingCursor {
    visible: bool,
    last_toggle: std::time::Instant,
    blink_rate_ms: u64,
}

impl BlinkingCursor {
    /// Whether the caret is currently shown.
    pub closed spec fn visible_spec(self) -> bool {
        self.visible
    }

    /// The blink period in milliseconds.
    pub closed spec fn rate_spec(self) -> u64 {
        self.blink_rate_ms
    }

    /// A caret that starts visible and blinks every 530 ms.
    pub fn new() -> (r: BlinkingCursor)
        ensures
            r.visible_spec(),
            r.rate_spec() == 530,
    {
        BlinkingCursor { visible: true, last_toggle: instant_now(), blink_rate_ms: 530 }
    }

    /// Advance the blink timer: when a blink period has passed, the caret
    /// toggles; otherwise it stays as it is.
    pub fn tick(&mut self)
        ensures
            final(self).rate_spec() == old(self).rate_spec(),
    {
        if elapsed_millis(&self.last_toggle) >= self.blink_rate_ms {
            self.visible = !self.visible;
            self.last_toggle = instant_now();
        }
    }

    /// The caret character: a block when visible, a blank otherwise.
    pub fn char(&self) -> (r: &'static str)
        ensures
            self.visible_spec() ==> r@ == "█"@,
            !self.visible_spec() ==> r@ == " "@,
    {
        if self.visible {
            "█"
        } else {
            " "
        }
    }

    /// Whether the caret is currently shown.
    pub fn is_visible(&self) -> (r: bool)
        ensures
            r == self.visible_spec(),
    {
        self.visible
    }

    /// Make the caret visible and restart its timer.
    pub fn reset(&mut self)
        ensures
            final(self).visible_spec(),
            final(self).rate_spec() == old(self).rate_spec(),
    {
        self.visible = true;
        self.last_toggle = instant_now();
    }
}

/// Text revealed character by character.
#[derive(Debug)]
pub struct TypewriterText {
    full_text: String,
    visible_chars: usize,
    last_update: std::time::Instant,
    char_delay_ms: u64,
    complete: bool,
}

impl TypewriterText {
    /// The full text being revealed.
    pub closed spec fn full_spec(self) -> Seq<char> {
        self.full_text@
    }

    /// How many characters are revealed.
    pub closed spec fn visible_spec(self) -> int {
        self.visible_chars as int
    }

    /// Whether the reveal has finished.
    pub closed spec fn complete_spec(self) -> bool {
        self.complete
    }

    /// The revealed count stays within the text, and a finished reveal
    /// shows all of it.
    pub closed spec fn wf(self) -> bool {
        &&& self.visible_chars <= self.full_text@.len()
        &&& (self.complete ==> self.visible_chars == self.full_text@.len())
    }

    /// A reveal of `text` at `chars_per_second` characters per second
    /// (zero means no delay), starting with nothing revealed.
    pub fn new(text: &str, chars_per_second: u32) -> (r: TypewriterText)
        ensures
            r.wf(),
            r.full_spec() == text@,
            r.visible_spec() == 0,
            r.complete_spec() == (text@.len() == 0),
    {
        let delay: u64 = if chars_per_second > 0 {
            1000 / (chars_per_second as u64)
        } else {
            0
        };
        TypewriterText {
            full_text: text.to_owned(),
            visible_chars: 0,
            last_update: instant_now(),
            char_delay_ms: delay,
            complete: text.is_empty(),
        }
    }

    /// A reveal that is already finished.
    pub fn instant(text: &str) -> (r: TypewriterText)
        ensures
            r.wf(),
            r.full_spec() == text@,
            r.visible_spec() == text@.len(),
            r.complete_spec(),
    {
        let n = text.unicode_len();
        TypewriterText {
            full_text: text.to_owned(),
            visible_chars: n,
            last_update: instant_now(),
            char_delay_ms: 0,
            complete: true,
        }
    }

    /// Advance the reveal: when the per-character delay has passed, one
    /// more character is revealed; a finished reveal stays finished.
    pub fn tick(&mut self)
        requires
            old(self).wf(),
        ensures
            final(self).wf(),
            final(self).full_spec() == old(self).full_spec(),
            old(self).visible_spec() <= final(self).visible_spec() <= old(self).visible_spec() + 1,
            old(self).complete_spec() ==> *final(self) == *old(self),
    {
        if self.complete {
            return ;
        }
        if elapsed_millis(&self.last_update) >= self.char_delay_ms {
            let total = self.full_text.as_str().unicode_len();
            if self.visible_chars < total {
                self.visible_chars = self.visible_chars + 1;
            }
            self.last_update = instant_now();
            if self.visible_chars >= total {
                self.complete = true;
            }
        }
    }

    /// The revealed prefix of the text.
    pub fn visible_text(&self) -> (r: &str)
        requires
            self.wf(),
        ensures
            r@ == self.full_spec().take(self.visible_spec()),
    {
        if self.complete {
            let r = self.full_text.as_str();
            proof {
                assert(r@ =~= self.full_spec().take(self.visible_spec()));
            }
            r
        } else {
            self.full_text.as_str().substring_char(0, self.visible_chars)
        }
    }

    /// Finish the reveal at once.
    pub fn skip(&mut self)
        ensures
            final(self).wf(),
            final(self).full_spec() == old(self).full_spec(),
            final(self).complete_spec(),
    {
        self.visible_chars = self.full_text.as_str().unicode_len();
        self.complete = true;
    }

    /// Whether the reveal has finished.
    pub fn is_complete(&self) -> (r: bool)
        ensures
            r == self.complete_spec(),
    {
        self.complete
    }

    /// The full text being revealed.
    pub fn full_text(&self) -> (r: &str)
        ensures
            r@ == self.full_spec(),
    {
        self.full_text.as_str()
    }
}

/// A highlight row that sweeps down the screen and wraps around.
#[derive(Debug)]
pub struct Scanline {
    position: u16,
    height: u16,
    last_update: std::time::Instant,
    speed_ms: u64,
    enabled: bool,
}

impl Scanline {
    /// The current row of the scanline.
    pub closed spec fn position_spec(self) -> u16 {
        self.position
    }

    /// The height it sweeps over.
    pub closed spec fn height_spec(self) -> u16 {
        self.height
    }

    /// Whether the effect is on.
    pub closed spec fn enabled_spec(self) -> bool {
        self.enabled
    }

    /// The scanline stays above the bottom whenever there is any height.
    pub closed spec fn wf(self) -> bool {
        self.height > 0 ==> self.position < self.height
    }

    /// A scanline at the top of an area of `height` rows, moving one row
    /// every `speed_ms` milliseconds.
    pub fn new(height: u16, speed_ms: u64) -> (r: Scanline)
        ensures
            r.wf(),
            r.position_spec() == 0,
            r.height_spec() == height,
            r.enabled_spec(),
    {
        Scanline {
            position: 0,
            height,
            last_update: instant_now(),
            speed_ms,
            enabled: true,
        }
    }

    /// Advance the sweep: when the step delay has passed, the scanline
    /// moves one row down, wrapping to the top; disabled or zero-height
    /// scanlines stay put.
    pub fn tick(&mut self)
        requires
            old(self).wf(),
        ensures
            final(self).wf(),
            final(self).height_spec() == old(self).height_spec(),
            final(self).enabled_spec() == old(self).enabled_spec(),
            final(self).position_spec() == old(self).position_spec() || final(self).position_spec()
                == ((old(self).position_spec() + 1) as int % old(self).height_spec() as int),
            !old(self).enabled_spec() || old(self).height_spec() == 0 ==> *final(self) == *old(
                self,
            ),
    {
        if !self.enabled || self.height == 0 {
            return ;
        }
        if elapsed_millis(&self.last_update) >= self.speed_ms {
            self.position = (self.position + 1) % self.height;
            self.last_update = instant_now();
        }
    }

    /// Whether `row` is the scanline's current row.
    pub fn is_scanline_row(&self, row: u16) -> (r: bool)
        ensures
            r == (self.enabled_spec() && row == self.position_spec()),
    {
        self.enabled && row == self.position
    }

    /// The current row.
    pub fn position(&self) -> (r: u16)
        ensures
            r == self.position_spec(),
    {
        self.position
    }

    /// Change the swept height, snapping the scanline back to the top
    /// when it would fall outside.
    pub fn set_height(&mut self, height: u16)
        ensures
            final(self).wf(),
            final(self).height_spec() == height,
            final(self).enabled_spec() == old(self).enabled_spec(),
            final(self).position_spec() == if old(self).position_spec() as int >= height as int {
                0
            } else {
                old(self).position_spec() as int
            },
    {
        self.height = height;
        if self.position >= height {
            self.position = 0;
        }
    }

    /// Switch the effect on or off.
    pub fn set_enabled(&mut self, enabled: bool)
        ensures
            final(self).enabled_spec() == enabled,
            final(self).position_spec() == old(self).position_spec(),
            final(self).height_spec() == old(self).height_spec(),
    {
        self.enabled = enabled;
    }

    /// Whether the effect is on.
    pub fn is_enabled(&self) -> (r: bool)
        ensures
            r == self.enabled_spec(),
    {
        self.enabled
    }
}

} // verus!
