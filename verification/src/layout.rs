//! Where the panes of a preview are drawn: tmux's cell coordinates scaled
//! into the area the preview gets on screen.
use vstd::prelude::*;

use crate::tree::{PanePreviewView, TerminalPanePreview, TerminalPreview};

verus! {

/// A rectangle of terminal cells.
#[derive(Clone, Copy, Debug, PartialEq, Eq, Structural)]
pub struct Area {
    pub x: u16,
    pub y: u16,
    pub width: u16,
    pub height: u16,
}

pub open spec fn max16(a: u16, b: u16) -> u16 {
    if a >= b {
        a
    } else {
        b
    }
}

pub open spec fn min16(a: u16, b: u16) -> u16 {
    if a <= b {
        a
    } else {
        b
    }
}

/// `value * target / source` with the quotient cut to its low 16 bits, or 0
/// when `source` is 0.
pub open spec fn scaled(value: u16, source: u16, target: u16) -> u16 {
    if source == 0 {
        0
    } else {
        ((value as int * target as int) / source as int) as u16
    }
}

/// An area whose width and height are cut so that its right and bottom edges
/// stay within `u16`, as ratatui's `Rect::new` makes it.
pub open spec fn clamped(a: Area) -> Area {
    Area {
        x: a.x,
        y: a.y,
        width: min16(a.width, (0xffff - a.x) as u16),
        height: min16(a.height, (0xffff - a.y) as u16),
    }
}

/// Calls `ratatui::layout::Rect::new`, whose source cuts the width to
/// `u16::MAX - x` and the height to `u16::MAX - y` when they are larger and
/// keeps `x` and `y`; trusted to do exactly that.
#[verifier::external_body]
fn new_rect(x: u16, y: u16, width: u16, height: u16) -> (res: Area)
    ensures
        res == clamped(Area { x, y, width, height }),
{
    let r = ratatui::layout::Rect::new(x, y, width, height);
    Area { x: r.x, y: r.y, width: r.width, height: r.height }
}

/// The cells a pane covers once the source size is scaled into the area, or
/// `None` when the area is empty or the pane starts outside it. The result
/// is at least one cell wide and high and ends within the area.
pub open spec fn scaled_rect(area: Area, p: PanePreviewView, source_width: u16, source_height: u16) -> Option<
    Area,
> {
    if area.width == 0 || area.height == 0 {
        None
    } else {
        let left = scaled(p.left, source_width, area.width);
        let top = scaled(p.top, source_height, area.height);
        if left >= area.width || top >= area.height {
            None
        } else {
            let right = max16(
                scaled(p.left.saturating_add(p.width), source_width, area.width),
                left.saturating_add(1),
            );
            let bottom = max16(
                scaled(p.top.saturating_add(p.height), source_height, area.height),
                top.saturating_add(1),
            );
            let width = min16(max16(right.saturating_sub(left), 1), area.width.saturating_sub(left));
            let height = min16(
                max16(bottom.saturating_sub(top), 1),
                area.height.saturating_sub(top),
            );
            Some(
                clamped(
                    Area {
                        x: area.x.saturating_add(left),
                        y: area.y.saturating_add(top),
                        width,
                        height,
                    },
                ),
            )
        }
    }
}

/// The largest right edge of the panes (`left + width`, saturating), at
/// least 1.
pub open spec fn source_width_of(panes: Seq<PanePreviewView>) -> u16
    decreases panes.len(),
{
    if panes.len() == 0 {
        1
    } else {
        max16(source_width_of(panes.drop_last()), panes.last().left.saturating_add(panes.last().width))
    }
}

/// The largest bottom edge of the panes (`top + height`, saturating), at
/// least 1.
pub open spec fn source_height_of(panes: Seq<PanePreviewView>) -> u16
    decreases panes.len(),
{
    if panes.len() == 0 {
        1
    } else {
        max16(
            source_height_of(panes.drop_last()),
            panes.last().top.saturating_add(panes.last().height),
        )
    }
}

/// `value * target / source`, as the preview scales coordinates.
pub fn scale_coordinate(value: u16, source: u16, target: u16) -> (res: u16)
    ensures
        res == scaled(value, source, target),
{
    if source == 0 {
        0
    } else {
        assert(value as int * target as int <= 0xffff * 0xffff) by (nonlinear_arith)
            requires
                value <= 0xffff,
                target <= 0xffff,
        ;
        assert(0 <= value as int * target as int) by (nonlinear_arith)
            requires
                0 <= value,
                0 <= target,
        ;
        let product: u32 = value as u32 * target as u32;
        let q: u32 = product / source as u32;
        q as u16
    }
}

/// Where a pane of a preview is drawn in `area`, for a source of the given
/// size.
pub fn scaled_pane_rect(
    area: Area,
    pane: &TerminalPanePreview,
    source_width: u16,
    source_height: u16,
) -> (res: Option<Area>)
    ensures
        res == scaled_rect(area, pane@, source_width, source_height),
        res matches Some(r) ==> {
            &&& area.x <= r.x && area.y <= r.y
            &&& r.x + r.width <= 0xffff && r.y + r.height <= 0xffff
            &&& area.x + area.width <= 0xffff ==> 1 <= r.width && r.x + r.width <= area.x
                + area.width
            &&& area.y + area.height <= 0xffff ==> 1 <= r.height && r.y + r.height <= area.y
                + area.height
        },
{
    if area.width == 0 || area.height == 0 {
        return None;
    }
    let left = scale_coordinate(pane.left, source_width, area.width);
    let top = scale_coordinate(pane.top, source_height, area.height);
    if left >= area.width || top >= area.height {
        return None;
    }
    let r0 = scale_coordinate(pane.left.saturating_add(pane.width), source_width, area.width);
    let r1 = left.saturating_add(1);
    let right = if r0 >= r1 {
        r0
    } else {
        r1
    };
    let b0 = scale_coordinate(pane.top.saturating_add(pane.height), source_height, area.height);
    let b1 = top.saturating_add(1);
    let bottom = if b0 >= b1 {
        b0
    } else {
        b1
    };
    let w0 = right.saturating_sub(left);
    let w1 = if w0 >= 1 {
        w0
    } else {
        1
    };
    let w2 = area.width.saturating_sub(left);
    let width = if w1 <= w2 {
        w1
    } else {
        w2
    };
    let h0 = bottom.saturating_sub(top);
    let h1 = if h0 >= 1 {
        h0
    } else {
        1
    };
    let h2 = area.height.saturating_sub(top);
    let height = if h1 <= h2 {
        h1
    } else {
        h2
    };
    Some(new_rect(area.x.saturating_add(left), area.y.saturating_add(top), width, height))
}

/// The size of the source that a preview's panes are scaled from: the
/// largest right and bottom edges, at least 1 each.
pub fn preview_source_size(preview: &TerminalPreview) -> (res: (u16, u16))
    ensures
        res.0 == source_width_of(preview@.panes),
        res.1 == source_height_of(preview@.panes),
{
    let ghost ps = preview@.panes;
    let mut w: u16 = 1;
    let mut h: u16 = 1;
    let mut i: usize = 0;
    assert(ps.take(0) =~= Seq::<PanePreviewView>::empty());
    while i < preview.panes.len()
        invariant
            i <= preview.panes.len(),
            ps == preview@.panes,
            w == source_width_of(ps.take(i as int)),
            h == source_height_of(ps.take(i as int)),
        decreases preview.panes.len() - i,
    {
        let p = &preview.panes[i];
        assert(ps[i as int] == p@);
        assert(ps.take(i + 1).drop_last() =~= ps.take(i as int));
        assert(ps.take(i + 1).last() == ps[i as int]);
        let right = p.left.saturating_add(p.width);
        let bottom = p.top.saturating_add(p.height);
        if right > w {
            w = right;
        }
        if bottom > h {
            h = bottom;
        }
        i += 1;
    }
    assert(ps.take(preview.panes.len() as int) == ps);
    (w, h)
}

} // verus!
