//! Placement of the popups over the terminal.
use vstd::prelude::*;

verus! {

/// A rectangle of terminal cells.
#[derive(Debug, Clone, Copy, PartialEq, Eq, Structural)]
pub struct Rect {
    pub x: u16,
    pub y: u16,
    pub width: u16,
    pub height: u16,
}

impl Rect {
    pub fn new(x: u16, y: u16, width: u16, height: u16) -> (r: Rect)
        ensures
            r == (Rect { x, y, width, height }),
    {
        Rect { x, y, width, height }
    }

    /// Does the cell at (`col`, `row`) lie inside the rectangle?
    pub open spec fn contains_spec(self, col: int, row: int) -> bool {
        self.x <= col < self.x + self.width && self.y <= row < self.y + self.height
    }

    pub fn contains(&self, col: u16, row: u16) -> (r: bool)
        ensures
            r == self.contains_spec(col as int, row as int),
    {
        col >= self.x && (col - self.x) < self.width && row >= self.y && (row - self.y) < self.height
    }
}

/// Which page of the settings popup is showing.
#[derive(Debug, Clone, Copy, PartialEq, Eq, Structural)]
pub enum ConfigSubView {
    Main,
    Keybindings,
}

/// Popup geometry.
pub struct ModalHelper;

/// `a - b`, or zero when `b` is larger.
pub open spec fn sat_sub(a: int, b: int) -> int {
    if a > b { a - b } else { 0 }
}

/// A size that is `wanted`, raised to `floor` and then capped at `cap`.
pub open spec fn clamp_size(wanted: int, floor: int, cap: int) -> int {
    let raised = if wanted > floor { wanted } else { floor };
    if raised < cap { raised } else { cap }
}

/// The popup centred in `r`, `percent_x` of its width and `percent_y` of its
/// height, but at least 52 by 14 cells and always two cells smaller than `r`.
pub open spec fn centered_spec(percent_x: int, percent_y: int, r: Rect) -> Rect {
    let w = clamp_size(r.width * percent_x / 100, 52, sat_sub(r.width as int, 2));
    let h = clamp_size(r.height * percent_y / 100, 14, sat_sub(r.height as int, 2));
    Rect {
        x: (r.x + sat_sub(r.width as int, w) / 2) as u16,
        y: (r.y + sat_sub(r.height as int, h) / 2) as u16,
        width: w as u16,
        height: h as u16,
    }
}

/// The sheet along the bottom of `r`, `percent_w` of its width but at least 56
/// cells, `height_lines` tall, always two cells smaller than `r` and leaving
/// its last row free.
pub open spec fn bottom_sheet_spec(percent_w: int, height_lines: int, r: Rect) -> Rect {
    let w = clamp_size(r.width * percent_w / 100, 56, sat_sub(r.width as int, 2));
    let h = if height_lines < sat_sub(r.height as int, 2) {
        height_lines
    } else {
        sat_sub(r.height as int, 2)
    };
    Rect {
        x: (r.x + sat_sub(r.width as int, w) / 2) as u16,
        y: (r.y + sat_sub(r.height as int, h + 1)) as u16,
        width: w as u16,
        height: h as u16,
    }
}

impl ModalHelper {
    pub fn centered_rect(percent_x: u16, percent_y: u16, r: Rect) -> (res: Rect)
        requires
            r.width * percent_x <= u16::MAX,
            r.height * percent_y <= u16::MAX,
            r.x + r.width <= u16::MAX,
            r.y + r.height <= u16::MAX,
        ensures
            res == centered_spec(percent_x as int, percent_y as int, r),
            r.width >= 2 ==> res.x >= r.x && res.x + res.width <= r.x + r.width,
            r.height >= 2 ==> res.y >= r.y && res.y + res.height <= r.y + r.height,
    {
        let popup_width = {
            let w = r.width * percent_x / 100;
            let w = if w > 52 { w } else { 52 };
            let cap = r.width.saturating_sub(2);
            if w < cap { w } else { cap }
        };
        let popup_height = {
            let h = r.height * percent_y / 100;
            let h = if h > 14 { h } else { 14 };
            let cap = r.height.saturating_sub(2);
            if h < cap { h } else { cap }
        };
        let x = r.x + (r.width.saturating_sub(popup_width)) / 2;
        let y = r.y + (r.height.saturating_sub(popup_height)) / 2;
        Rect::new(x, y, popup_width, popup_height)
    }

    pub fn bottom_sheet_rect(percent_w: u16, height_lines: u16, r: Rect) -> (res: Rect)
        requires
            r.width * percent_w <= u16::MAX,
            r.x + r.width <= u16::MAX,
            r.y + r.height <= u16::MAX,
        ensures
            res == bottom_sheet_spec(percent_w as int, height_lines as int, r),
            r.width >= 2 ==> res.x >= r.x && res.x + res.width <= r.x + r.width,
            res.y >= r.y && res.y + res.height <= r.y + r.height,
    {
        let width = {
            let w = r.width * percent_w / 100;
            let w = if w > 56 { w } else { 56 };
            let cap = r.width.saturating_sub(2);
            if w < cap { w } else { cap }
        };
        let cap = r.height.saturating_sub(2);
        let height = if height_lines < cap { height_lines } else { cap };
        let x = r.x + (r.width.saturating_sub(width)) / 2;
        let y = r.y + r.height.saturating_sub(height + 1);
        Rect::new(x, y, width, height)
    }
}

} // verus!
