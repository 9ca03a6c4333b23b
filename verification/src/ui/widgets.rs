//! Small widgets: the sync spinner.
use vstd::prelude::*;

verus! {

/// Number of frames in the spinner animation.
pub const SPINNER_LEN: usize = 10;

/// The spinner frame shown at frame index `i` (below ten).
pub open spec fn spinner_frame(i: int) -> Seq<char> {
    if i == 0 { "⠋"@ }
    else if i == 1 { "⠙"@ }
    else if i == 2 { "⠹"@ }
    else if i == 3 { "⠸"@ }
    else if i == 4 { "⠼"@ }
    else if i == 5 { "⠴"@ }
    else if i == 6 { "⠦"@ }
    else if i == 7 { "⠧"@ }
    else if i == 8 { "⠇"@ }
    else { "⠏"@ }
}

/// The spinner frame for animation tick `tick`; the frames repeat every ten
/// ticks.
pub fn get_spinner_frame(tick: usize) -> (r: &'static str)
    ensures
        r@ == spinner_frame(tick as int % SPINNER_LEN as int),
{
    let i = tick % SPINNER_LEN;
    if i == 0 { "⠋" }
    else if i == 1 { "⠙" }
    else if i == 2 { "⠹" }
    else if i == 3 { "⠸" }
    else if i == 4 { "⠼" }
    else if i == 5 { "⠴" }
    else if i == 6 { "⠦" }
    else if i == 7 { "⠧" }
    else if i == 8 { "⠇" }
    else { "⠏" }
}

/// The rows `start..end` of a list of `len` rows a pane `visible` rows tall
/// shows: scrolled from `scroll` just far enough to show the `selected` row.
pub open spec fn window_of(selected: int, scroll: int, visible: int, len: int) -> (int, int) {
    let start = if selected < scroll {
        selected
    } else if visible > 0 && selected >= scroll + visible {
        selected + 1 - visible
    } else {
        scroll
    };
    (start, if start + visible < len { start + visible } else { len })
}

/// The rows a list pane shows.
pub fn visible_window(selected: usize, scroll: usize, visible: usize, len: usize) -> (r: (usize, usize))
    requires
        scroll + visible <= usize::MAX,
        selected < usize::MAX,
    ensures
        (r.0 as int, r.1 as int) == window_of(selected as int, scroll as int, visible as int, len as int),
{
    let start = if selected < scroll {
        selected
    } else if visible > 0 && selected >= scroll + visible {
        selected + 1 - visible
    } else {
        scroll
    };
    let end = if start + visible < len { start + visible } else { len };
    (start, end)
}

/// The selected row is always among those shown, when it is a row of the
/// list and the pane has room for a row.
pub proof fn lemma_selected_visible(selected: int, scroll: int, visible: int, len: int)
    requires
        0 <= selected < len,
        0 <= scroll,
        visible > 0,
    ensures
        window_of(selected, scroll, visible, len).0 <= selected < window_of(selected, scroll, visible, len).1,
{
}

/// The padding a pane `width` cells wide gets for a configured `padding`:
/// at most half of what is left after one cell; and the text width left.
pub open spec fn padding_of(padding: int, width: int) -> (int, int) {
    let half = (if width >= 1 { width - 1 } else { 0 }) / 2;
    let pad = if padding < half { padding } else { half };
    (pad, if width >= 2 * pad { width - 2 * pad } else { 0 })
}

/// The padding and text width of a pane.
pub fn pane_padding(padding: u16, width: u16) -> (r: (u16, u16))
    ensures
        (r.0 as int, r.1 as int) == padding_of(padding as int, width as int),
        2 * r.0 <= width,
{
    let half = width.saturating_sub(1) / 2;
    let pad = if padding < half { padding } else { half };
    (pad, width - 2 * pad)
}

} // verus!
