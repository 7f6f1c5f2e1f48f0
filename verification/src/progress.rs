//! The liveness indicator that runs while a query is computed: a glyph
//! that changes from frame to frame until the query's signal is raised.

use vstd::prelude::*;
use crate::layout::Rect;

verus! {

/// Milliseconds from one frame of the indicator to the next.
pub const FRAME_MILLIS: u64 = 50;

/// Frames of one turn of the indicator.
pub const FRAMES: usize = 10;

/// The glyphs of one turn, in the order in which they are shown.
pub open spec fn glyphs() -> Seq<char> {
    seq!['⠋', '⠙', '⠹', '⠸', '⠼', '⠴', '⠦', '⠧', '⠇', '⠏']
}

/// The glyph of a frame.
pub fn glyph(frame: usize) -> (c: char)
    requires
        frame < FRAMES,
    ensures
        c == glyphs()[frame as int],
{
    match frame {
        0 => '⠋',
        1 => '⠙',
        2 => '⠹',
        3 => '⠸',
        4 => '⠼',
        5 => '⠴',
        6 => '⠦',
        7 => '⠧',
        8 => '⠇',
        _ => '⠏',
    }
}

/// What the task that shows the indicator does next.
#[derive(Debug, Clone, Copy, PartialEq, Eq, Structural)]
pub enum IndicatorAction {
    /// Draw the glyph, wait one frame and ask again.
    Draw(char),
    /// Blank the indicator's cell and end.
    Clear,
}

/// The indicator of one query.
#[derive(Debug, Clone, Copy, PartialEq, Eq, Structural)]
pub struct Indicator {
    /// The frame that is drawn next.
    pub frame: usize,
    /// Cleared once the indicator has ended.
    pub running: bool,
}

impl Indicator {
    pub open spec fn wf(self) -> bool {
        self.frame < FRAMES
    }

    /// The indicator after one poll of the signal, and what that poll
    /// leads to: once the signal is raised the indicator ends at the very
    /// poll that sees it; until then it draws its frames in turn.
    pub open spec fn polled(self, signalled: bool) -> (Indicator, IndicatorAction) {
        if signalled || !self.running {
            (Indicator { frame: self.frame, running: false }, IndicatorAction::Clear)
        } else {
            (
                Indicator { frame: ((self.frame + 1) % (FRAMES as int)) as usize, running: true },
                IndicatorAction::Draw(glyphs()[self.frame as int]),
            )
        }
    }

    /// An indicator at its first frame.
    pub fn start() -> (indicator: Indicator)
        ensures
            indicator.wf(),
            indicator.running,
            indicator.frame == 0,
    {
        Indicator { frame: 0, running: true }
    }

    /// One poll of the signal, made once per frame.
    pub fn tick(&mut self, signalled: bool) -> (action: IndicatorAction)
        requires
            old(self).wf(),
        ensures
            final(self).wf(),
            (*final(self), action) == old(self).polled(signalled),
    {
        if signalled || !self.running {
            self.running = false;
            IndicatorAction::Clear
        } else {
            let c = glyph(self.frame);
            self.frame = (self.frame + 1) % FRAMES;
            IndicatorAction::Draw(c)
        }
    }
}

/// A raised signal ends the indicator within one frame: the first poll
/// after it clears the glyph, and no later poll draws again.
pub proof fn lemma_signal_ends_indicator(indicator: Indicator, later: bool)
    ensures
        indicator.polled(true).1 == IndicatorAction::Clear,
        !indicator.polled(true).0.running,
        indicator.polled(true).0.polled(later).1 == IndicatorAction::Clear,
{
}

/// The cell of the indicator: the last column of the search box, on the
/// line below its text.
pub fn indicator_position(search_area: Rect) -> (at: (u16, u16))
    requires
        search_area.wf(),
        search_area.width > 0 || search_area.x > 0,
        search_area.y + 2 <= u16::MAX,
    ensures
        at.0 == search_area.x + search_area.width - 1,
        at.1 == search_area.y + 2,
{
    (search_area.x + search_area.width - 1, search_area.y + 2)
}

} // verus!
