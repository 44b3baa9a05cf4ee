// How the screen is shared out between the panes.

use crate::app::AppMode;
use vstd::prelude::*;

verus! {

/// The height of a pane that holds one line inside its borders.
pub const FRAMED_LINE: u16 = 3;

/// The sizes of the panes, in cells.
#[derive(Clone, Copy, Debug, PartialEq, Eq, Structural)]
pub struct PaneSizes {
    /// The height of the guidance at the top.
    pub guidance_height: u16,
    /// The height of what lies below the guidance.
    pub body_height: u16,
    /// The width of the trace view.
    pub debug_info_width: u16,
    /// The width of the visibility editor, 0 where it is closed.
    pub visibility_info_width: u16,
    /// The height of the search box of the visibility editor.
    pub search_box_height: u16,
    /// The height of the visibility list below the search box.
    pub visibility_list_height: u16,
}

/// `a - b`, or 0 where `b` is the larger.
pub open spec fn minus(a: int, b: int) -> int {
    if a >= b {
        a - b
    } else {
        0
    }
}

/// The height of the guidance: a framed line, and one line more for each
/// full width that the guidance text fills; at most the largest height.
pub open spec fn guidance_height(guidance_len: nat, width: nat) -> int {
    let wraps = if width == 0 {
        0
    } else {
        guidance_len as int / width as int
    };
    if FRAMED_LINE + wraps > u16::MAX {
        u16::MAX as int
    } else {
        FRAMED_LINE + wraps
    }
}

/// The sizes of the panes on a screen of `width` by `height` cells: the
/// guidance on top; below it the trace view, which shares the width
/// evenly with the visibility editor where that is open; in the editor
/// the search box above the list.
pub open spec fn pane_sizes(mode: AppMode, guidance_len: nat, width: u16, height: u16) -> PaneSizes {
    let top = guidance_height(guidance_len, width as nat);
    let editor = if mode == AppMode::ViewDebug {
        0
    } else {
        width as int / 2
    };
    PaneSizes {
        guidance_height: top as u16,
        body_height: minus(height as int, top) as u16,
        debug_info_width: (width - editor) as u16,
        visibility_info_width: editor as u16,
        search_box_height: FRAMED_LINE,
        visibility_list_height: minus(height as int, FRAMED_LINE as int) as u16,
    }
}

/// The sizes of the panes on a screen of `width` by `height` cells, for a
/// guidance text of `guidance_len` bytes.
pub fn layout(mode: AppMode, guidance_len: usize, width: u16, height: u16) -> (sizes: PaneSizes)
    ensures
        sizes == pane_sizes(mode, guidance_len as nat, width, height),
{
    let wraps: usize = if width == 0 {
        0
    } else {
        guidance_len / (width as usize)
    };
    let top: u16 = if wraps > (u16::MAX - FRAMED_LINE) as usize {
        u16::MAX
    } else {
        FRAMED_LINE + wraps as u16
    };
    let editor: u16 = match mode {
        AppMode::ViewDebug => 0,
        _ => width / 2,
    };
    PaneSizes {
        guidance_height: top,
        body_height: if height >= top {
            height - top
        } else {
            0
        },
        debug_info_width: width - editor,
        visibility_info_width: editor,
        search_box_height: FRAMED_LINE,
        visibility_list_height: if height >= FRAMED_LINE {
            height - FRAMED_LINE
        } else {
            0
        },
    }
}

} // verus!
