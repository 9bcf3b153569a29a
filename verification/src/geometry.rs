//! Page geometry and the layout cursor.
//!
//! All lengths are integers in micrometers (thousandths of a millimeter).
//! The cursor tracks the current page and the current vertical position,
//! the height above the page's bottom edge (so `y_um` starts at
//! `height_um - margin_um` and decreases as content flows down the page).

use vstd::prelude::*;

verus! {

/// Vertical advance per emitted text line: 12 mm.
pub const LINE_HEIGHT_UM: i64 = 12_000;

/// Vertical gap left below a placed image: 10 mm.
pub const IMAGE_GAP_UM: i64 = 10_000;

/// Upper bound on any page dimension: ten meters.
pub const MAX_DIM_UM: i64 = 10_000_000;

/// Default page width: 210 mm (A4 portrait).
pub const DEFAULT_PAGE_WIDTH_UM: i64 = 210_000;

/// Default page height: 297 mm (A4 portrait).
pub const DEFAULT_PAGE_HEIGHT_UM: i64 = 297_000;

/// Default page margin: 20 mm on every side.
pub const DEFAULT_MARGIN_UM: i64 = 20_000;

/// Maximum characters per emitted line, counted in bytes including the
/// single separating space after each word.
pub const WRAP_BUDGET: usize = 80;

/// Lowest cursor position the layout functions accept at entry.  The cursor
/// only drifts below zero by one blank-line advance per paragraph and one gap
/// per image, so this floor is never approached by inputs within
/// [`LAYOUT_BUDGET`](crate::engine::LAYOUT_BUDGET); it only serves to keep
/// the `i64` arithmetic of the engine free of overflow.
pub const CURSOR_Y_FLOOR: i64 = -0x1000_0000_0000_0000;

/// Fixed page dimensions used for every page of the output document.
#[derive(Clone, Copy, Debug, PartialEq, Eq, Structural)]
pub struct PageGeometry {
    /// Page width in micrometers.
    pub width_um: i64,
    /// Page height in micrometers.
    pub height_um: i64,
    /// Margin on all four sides, in micrometers.
    pub margin_um: i64,
}

impl PageGeometry {
    /// A page is well formed when both dimensions strictly exceed the two
    /// margins they contain and stay below [`MAX_DIM_UM`].
    pub open spec fn wf(self) -> bool {
        &&& 0 <= self.margin_um
        &&& 2 * self.margin_um < self.width_um
        &&& self.width_um <= MAX_DIM_UM
        &&& 2 * self.margin_um < self.height_um
        &&& self.height_um <= MAX_DIM_UM
    }

    /// Width of the area available to content: the page width minus the two
    /// side margins.
    pub open spec fn spec_printable_width_um(self) -> int {
        self.width_um - 2 * self.margin_um
    }

    /// The vertical position at which content starts on a fresh page.
    pub open spec fn top_y_um(self) -> int {
        self.height_um - self.margin_um
    }

    /// Builds a geometry, rejecting dimensions that leave no printable area.
    pub fn new(width_um: i64, height_um: i64, margin_um: i64) -> (r: Option<PageGeometry>)
        ensures
            r is Some <==> (PageGeometry { width_um, height_um, margin_um }).wf(),
            r is Some ==> r->Some_0 == (PageGeometry { width_um, height_um, margin_um }),
    {
        if 0 <= margin_um && margin_um <= MAX_DIM_UM / 2
            && 2 * margin_um < width_um && width_um <= MAX_DIM_UM
            && 2 * margin_um < height_um && height_um <= MAX_DIM_UM {
            Some(PageGeometry { width_um, height_um, margin_um })
        } else {
            None
        }
    }

    /// The default A4 geometry with a 20 mm margin.
    pub fn a4() -> (r: PageGeometry)
        ensures
            r == (PageGeometry {
                width_um: DEFAULT_PAGE_WIDTH_UM,
                height_um: DEFAULT_PAGE_HEIGHT_UM,
                margin_um: DEFAULT_MARGIN_UM,
            }),
            r.wf(),
    {
        PageGeometry {
            width_um: DEFAULT_PAGE_WIDTH_UM,
            height_um: DEFAULT_PAGE_HEIGHT_UM,
            margin_um: DEFAULT_MARGIN_UM,
        }
    }

    /// Executable printable width.
    pub fn printable_width_um(&self) -> (r: i64)
        requires
            self.wf(),
        ensures
            r == self.spec_printable_width_um(),
            r >= 1,
    {
        self.width_um - 2 * self.margin_um
    }
}

/// The mutable layout state: which page content is being placed on, and the
/// current vertical position on that page.
#[derive(Clone, Copy, Debug, PartialEq, Eq, Structural)]
pub struct Cursor {
    /// Index of the current page, starting at 0.
    pub page_index: u64,
    /// Current vertical position in micrometers, measured from the bottom of
    /// the page; content is placed at or below this height.
    pub y_um: i64,
}

/// Mathematical model of a [`Cursor`], with unbounded integers.
pub ghost struct CursorV {
    /// Index of the current page.
    pub page_index: int,
    /// Current vertical position in micrometers from the page bottom.
    pub y_um: int,
}

impl View for Cursor {
    type V = CursorV;

    open spec fn view(&self) -> CursorV {
        CursorV { page_index: self.page_index as int, y_um: self.y_um as int }
    }
}

/// The cursor a layout run starts from: page 0, at the top of the printable
/// area.
pub open spec fn start_cursor_v(g: PageGeometry) -> CursorV {
    CursorV { page_index: 0, y_um: g.top_y_um() }
}

/// The page-break rule: placing an item of height `h` with the bottom of the
/// printable area less than `h` away allocates a fresh page (the page index
/// grows by exactly one and the position resets to the top); otherwise the
/// cursor is unchanged.
pub open spec fn room_checked(c: CursorV, h: int, g: PageGeometry) -> CursorV {
    if c.y_um - h < g.margin_um {
        CursorV { page_index: c.page_index + 1, y_um: g.top_y_um() }
    } else {
        c
    }
}

/// Executable page-break check, applied before every placement.
pub fn ensure_room(c: Cursor, h: i64, g: &PageGeometry) -> (r: Cursor)
    requires
        g.wf(),
        c.page_index < u64::MAX,
        c.y_um >= CURSOR_Y_FLOOR,
        0 <= h,
        h <= 0x0100_0000_0000_0000,
    ensures
        r@ == room_checked(c@, h as int, *g),
        r.page_index >= c.page_index,
        r.y_um >= CURSOR_Y_FLOOR,
        c.y_um <= g.top_y_um() ==> r.y_um <= g.top_y_um(),
        r@.y_um - h >= g.margin_um || r@.y_um == g.top_y_um(),
{
    if c.y_um - h < g.margin_um {
        Cursor { page_index: c.page_index + 1, y_um: page_top(g) }
    } else {
        c
    }
}

/// Executable top-of-page position.
fn page_top(g: &PageGeometry) -> (r: i64)
    requires
        g.wf(),
    ensures
        r == g.top_y_um(),
{
    g.height_um - g.margin_um
}

/// The page-break policy in one statement: whenever placing the next item of
/// height `h` would put its bottom edge below the margin, the page index
/// grows by exactly one and the position resets to the top of the printable
/// area; otherwise the cursor is left untouched.
pub proof fn lemma_page_break_policy(c: CursorV, h: int, g: PageGeometry)
    ensures
        c.y_um - h < g.margin_um ==> room_checked(c, h, g) == (CursorV {
            page_index: c.page_index + 1,
            y_um: g.height_um - g.margin_um,
        }),
        c.y_um - h >= g.margin_um ==> room_checked(c, h, g) == c,
{
}

} // verus!
