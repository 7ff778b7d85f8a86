//! How much room the window has, and the sizes that follow from it, in pixels.

use vstd::prelude::*;

verus! {

pub const COMPACT_BELOW: u32 = 1120;

pub const NARROW_BELOW: u32 = 900;

#[derive(Clone, Copy, Debug, PartialEq, Eq, Structural)]
pub struct Layout {
    pub compact: bool,
    pub narrow: bool,
}

/// One of three sizes: for a narrow window, a compact one and a wide one.
pub open spec fn pick(layout: Layout, narrow: u32, compact: u32, wide: u32) -> u32 {
    if layout.narrow {
        narrow
    } else if layout.compact {
        compact
    } else {
        wide
    }
}

impl Layout {
    /// The layout for a window of this many whole pixels.
    pub fn for_width(width: u32) -> (layout: Self)
        ensures
            layout == (Layout { compact: width < COMPACT_BELOW, narrow: width < NARROW_BELOW }),
            layout.narrow ==> layout.compact,
    {
        Layout { compact: width < COMPACT_BELOW, narrow: width < NARROW_BELOW }
    }

    pub fn pick(self, narrow: u32, compact: u32, wide: u32) -> (size: u32)
        ensures
            size == pick(self, narrow, compact, wide),
    {
        if self.narrow {
            narrow
        } else if self.compact {
            compact
        } else {
            wide
        }
    }
}

/// The width of the sidebar and its bounds.
#[derive(Clone, Copy, Debug, PartialEq, Eq, Structural)]
pub struct SidebarWidth {
    pub width: u32,
    pub min: u32,
    pub max: u32,
}

/// The width that the sidebar had, or the usual one, kept within its bounds.
pub open spec fn sidebar(layout: Layout, stored: Option<u32>) -> SidebarWidth {
    let min = pick(layout, 196, 220, 236);
    let max = pick(layout, 240, 300, 340);
    let wished = match stored {
        Some(width) => width,
        None => pick(layout, 216, 248, 272),
    };
    SidebarWidth {
        width: if wished < min {
            min
        } else if wished > max {
            max
        } else {
            wished
        },
        min,
        max,
    }
}

pub fn sidebar_width(layout: Layout, stored: Option<u32>) -> (width: SidebarWidth)
    ensures
        width == sidebar(layout, stored),
        width.min <= width.width <= width.max,
{
    let min: u32 = layout.pick(196, 220, 236);
    let max: u32 = layout.pick(240, 300, 340);
    let wished: u32 = match stored {
        Some(width) => width,
        None => layout.pick(216, 248, 272),
    };
    SidebarWidth {
        width: if wished < min {
            min
        } else if wished > max {
            max
        } else {
            wished
        },
        min,
        max,
    }
}

pub const DEFAULT_WINDOW_WIDTH: u32 = 1080;

pub const DEFAULT_WINDOW_HEIGHT: u32 = 760;

pub const MIN_WINDOW_WIDTH: u32 = 800;

pub const MIN_WINDOW_HEIGHT: u32 = 600;

pub open spec fn larger(a: u32, b: u32) -> u32 {
    if a >= b {
        a
    } else {
        b
    }
}

/// The size of a new window before the screen limits it: the one it had, but never
/// below the smallest.
pub open spec fn first_size(stored: Option<(u32, u32)>) -> (u32, u32) {
    match stored {
        Some((width, height)) => (
            larger(width, MIN_WINDOW_WIDTH),
            larger(height, MIN_WINDOW_HEIGHT),
        ),
        None => (DEFAULT_WINDOW_WIDTH, DEFAULT_WINDOW_HEIGHT),
    }
}

pub fn initial_window_size(stored: Option<(u32, u32)>) -> (size: (u32, u32))
    ensures
        size == first_size(stored),
        size.0 >= MIN_WINDOW_WIDTH,
        size.1 >= MIN_WINDOW_HEIGHT,
{
    match stored {
        Some((width, height)) => (
            if width >= MIN_WINDOW_WIDTH {
                width
            } else {
                MIN_WINDOW_WIDTH
            },
            if height >= MIN_WINDOW_HEIGHT {
                height
            } else {
                MIN_WINDOW_HEIGHT
            },
        ),
        None => (DEFAULT_WINDOW_WIDTH, DEFAULT_WINDOW_HEIGHT),
    }
}

/// A sidebar keeps its width within bounds that grow with the window; without one it has
/// the usual width.
pub proof fn sidebars_keep_within_bounds(layout: Layout, stored: Option<u32>)
    ensures
        ({
            let bar = sidebar(layout, stored);
            &&& bar.min <= bar.width <= bar.max
            &&& stored matches Some(width) ==> (bar.min <= width <= bar.max ==> bar.width == width)
                && (width < bar.min ==> bar.width == bar.min) && (width > bar.max ==> bar.width
                == bar.max)
            &&& layout.narrow ==> bar.min == 196 && bar.max == 240 && (stored is None ==> bar.width
                == 216)
            &&& !layout.narrow && layout.compact ==> bar.min == 220 && bar.max == 300 && (stored
                is None ==> bar.width == 248)
            &&& !layout.narrow && !layout.compact ==> bar.min == 236 && bar.max == 340 && (stored
                is None ==> bar.width == 272)
        }),
{
}

/// A new window has the size that it had, and at least 800 by 600; without one it has 1080
/// by 760.
pub proof fn windows_have_a_smallest_size(width: u32, height: u32)
    ensures
        first_size(None) == (1080u32, 760u32),
        first_size(Some((width, height))).0 >= 800 && first_size(Some((width, height))).1 >= 600,
        width >= 800 ==> first_size(Some((width, height))).0 == width,
        height >= 600 ==> first_size(Some((width, height))).1 == height,
        width < 800 ==> first_size(Some((width, height))).0 == 800,
        height < 600 ==> first_size(Some((width, height))).1 == 600,
{
}

} // verus!
