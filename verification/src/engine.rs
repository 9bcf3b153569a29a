//! The layout engine: turns paragraphs of styled runs and a list of images
//! into an ordered sequence of page-relative placement commands.
//!
//! All paragraph text is laid out first, then all images, continuing on the
//! last page used by text.  Before every placement the page-break check of
//! [`room_checked`] runs, so a text line is never split across pages.  The
//! engine is total: any well-formed input yields a command sequence.
//!
//! The `*_v` spec functions are the mathematical definition of the layout;
//! each executable function is proved to produce exactly its `*_v` value, so
//! the engine is deterministic by construction.

use vstd::prelude::*;
use vstd::arithmetic::div_mod::{lemma_div_pos_is_pos, lemma_div_nonincreasing};
use crate::geometry::{Cursor, CursorV, PageGeometry, room_checked, start_cursor_v, CURSOR_Y_FLOOR,
    IMAGE_GAP_UM, LINE_HEIGHT_UM, WRAP_BUDGET};
use crate::model::{CmdView, ImageAsset, ImageView, Paragraph, ParagraphView, PlacementCommand,
    RunView, StyledRun, cmd_page, cmd_y, views_of, para_views, image_views};
use crate::style::{FontVariant, spec_font_of, font_of};
use crate::text::{split_words, word_views, words_of, lemma_words_count};
use crate::wrap::{wrap_lines, wrap_words, lemma_short_text_single_line};

verus! {

/// Ceiling on the size of one document: the total run text bytes plus one
/// per paragraph plus one per image.  Inputs within the budget keep the page
/// counter and the cursor position far inside the `u64` and `i64` ranges.
pub const LAYOUT_BUDGET: i64 = 0x2000_0000_0000;

/// Height of the area available to content between the two margins.
pub open spec fn spec_printable_height_um(g: PageGeometry) -> int {
    g.height_um - 2 * g.margin_um
}

/// The width-driven image scale in parts per million: the printable width
/// divided by the pixel width.  It depends only on the geometry and the
/// image, never on the cursor.
pub open spec fn spec_image_scale_ppm(g: PageGeometry, pixel_width: int) -> int {
    g.spec_printable_width_um() * 1000 / pixel_width
}

/// The on-page height of a width-fitted image: `pixel_height` times the
/// scale, exactly.
pub open spec fn spec_scaled_height_um(g: PageGeometry, pixel_width: int, pixel_height: int) -> int {
    pixel_height * g.spec_printable_width_um() / pixel_width
}

/// Whether a width-fitted image is no taller than the printable area.
/// Taller images are still placed (width-driven fit never scales down for
/// height), so only their placements can reach below the bottom margin.
pub open spec fn image_fits(img: ImageView, g: PageGeometry) -> bool {
    spec_scaled_height_um(g, img.pixel_width, img.pixel_height) <= spec_printable_height_um(g)
}

/// Placing a sequence of already-wrapped lines: each line is preceded by the
/// page-break check, emitted at the checked position, and followed by one
/// line-height advance.
pub open spec fn place_lines_v(
    lines: Seq<Seq<u8>>,
    font: FontVariant,
    c: CursorV,
    g: PageGeometry,
) -> (Seq<CmdView>, CursorV)
    decreases lines.len(),
{
    if lines.len() == 0 {
        (Seq::empty(), c)
    } else {
        let c1 = room_checked(c, LINE_HEIGHT_UM as int, g);
        let cmd = CmdView::TextLine {
            page_index: c1.page_index,
            x_um: g.margin_um as int,
            y_um: c1.y_um,
            font,
            text: lines[0],
        };
        let c2 = CursorV { page_index: c1.page_index, y_um: c1.y_um - LINE_HEIGHT_UM };
        let (rest, cf) = place_lines_v(lines.drop_first(), font, c2, g);
        (seq![cmd] + rest, cf)
    }
}

/// Laying out one styled run: split into words, wrap under the budget, and
/// place the lines in the run's font.
pub open spec fn run_v(r: RunView, c: CursorV, g: PageGeometry) -> (Seq<CmdView>, CursorV) {
    place_lines_v(wrap_lines(words_of(r.text), WRAP_BUDGET as int), spec_font_of(r.style), c, g)
}

/// Laying out a sequence of runs in order.
pub open spec fn runs_v(rs: Seq<RunView>, c: CursorV, g: PageGeometry) -> (Seq<CmdView>, CursorV)
    decreases rs.len(),
{
    if rs.len() == 0 {
        (Seq::empty(), c)
    } else {
        let (head, c1) = run_v(rs[0], c, g);
        let (tail, c2) = runs_v(rs.drop_first(), c1, g);
        (head + tail, c2)
    }
}

/// Laying out one paragraph: its runs in order, then one blank-line advance
/// that separates it from the next paragraph.
pub open spec fn paragraph_v(p: ParagraphView, c: CursorV, g: PageGeometry) -> (
    Seq<CmdView>,
    CursorV,
) {
    let (cmds, c1) = runs_v(p.runs, c, g);
    (cmds, CursorV { page_index: c1.page_index, y_um: c1.y_um - LINE_HEIGHT_UM })
}

/// Laying out a sequence of paragraphs in order.
pub open spec fn paragraphs_v(ps: Seq<ParagraphView>, c: CursorV, g: PageGeometry) -> (
    Seq<CmdView>,
    CursorV,
)
    decreases ps.len(),
{
    if ps.len() == 0 {
        (Seq::empty(), c)
    } else {
        let (head, c1) = paragraph_v(ps[0], c, g);
        let (tail, c2) = paragraphs_v(ps.drop_first(), c1, g);
        (head + tail, c2)
    }
}

/// Laying out one image: the page-break check with the scaled height, then
/// one placement anchored `scaled_height` below the checked position, then
/// an advance of the scaled height plus the image gap.
pub open spec fn image_v(img: ImageView, idx: int, c: CursorV, g: PageGeometry) -> (
    CmdView,
    CursorV,
) {
    let sh = spec_scaled_height_um(g, img.pixel_width, img.pixel_height);
    let c1 = room_checked(c, sh, g);
    let cmd = CmdView::ImagePlacement {
        page_index: c1.page_index,
        x_um: g.margin_um as int,
        y_um: c1.y_um - sh,
        scale_ppm: spec_image_scale_ppm(g, img.pixel_width),
        asset_index: idx,
    };
    (cmd, CursorV { page_index: c1.page_index, y_um: c1.y_um - sh - IMAGE_GAP_UM })
}

/// Laying out a sequence of images in order, numbering them from `idx`.
pub open spec fn images_v(imgs: Seq<ImageView>, idx: int, c: CursorV, g: PageGeometry) -> (
    Seq<CmdView>,
    CursorV,
)
    decreases imgs.len(),
{
    if imgs.len() == 0 {
        (Seq::empty(), c)
    } else {
        let (head, c1) = image_v(imgs[0], idx, c, g);
        let (tail, c2) = images_v(imgs.drop_first(), idx + 1, c1, g);
        (seq![head] + tail, c2)
    }
}

/// The whole layout: all paragraphs from the top of page 0, then all images
/// continuing from wherever the text ended.
pub open spec fn layout_v(
    ps: Seq<ParagraphView>,
    imgs: Seq<ImageView>,
    g: PageGeometry,
) -> Seq<CmdView> {
    let (text_cmds, c1) = paragraphs_v(ps, start_cursor_v(g), g);
    let (img_cmds, _c2) = images_v(imgs, 0, c1, g);
    text_cmds + img_cmds
}

/// Weight of a run sequence: total text bytes, an upper bound on the number
/// of lines (and hence page breaks) the runs can produce.
pub open spec fn runs_weight(rs: Seq<RunView>) -> int
    decreases rs.len(),
{
    if rs.len() == 0 {
        0
    } else {
        rs[0].text.len() + runs_weight(rs.drop_first())
    }
}

/// Weight of one paragraph.
pub open spec fn para_weight(p: ParagraphView) -> int {
    runs_weight(p.runs)
}

/// Weight of a paragraph sequence, counting one unit per paragraph on top
/// of its text.
pub open spec fn paras_weight(ps: Seq<ParagraphView>) -> int
    decreases ps.len(),
{
    if ps.len() == 0 {
        0
    } else {
        1 + para_weight(ps[0]) + paras_weight(ps.drop_first())
    }
}

/// A document the engine accepts: its total weight stays within
/// [`LAYOUT_BUDGET`].  This is a machine limit, not a policy: it keeps the
/// `u64` page counter and `i64` cursor arithmetic exact.
pub open spec fn within_budget(ps: Seq<ParagraphView>, imgs: Seq<ImageView>) -> bool {
    paras_weight(ps) + imgs.len() <= LAYOUT_BUDGET
}

/// Every command's vertical position lies in the printable band.
pub open spec fn in_bounds(cmds: Seq<CmdView>, g: PageGeometry) -> bool {
    forall|k: int|
        0 <= k < cmds.len() ==> g.margin_um <= cmd_y(#[trigger] cmds[k]) <= g.top_y_um()
}

/// Page indices never decrease along the command sequence.
pub open spec fn pages_monotone(cmds: Seq<CmdView>) -> bool {
    forall|j: int, k: int|
        0 <= j <= k < cmds.len() ==> cmd_page(#[trigger] cmds[j]) <= cmd_page(#[trigger] cmds[k])
}

/// Every command's page index lies between `lo` and `hi`.
pub open spec fn pages_within(cmds: Seq<CmdView>, lo: int, hi: int) -> bool {
    forall|k: int| 0 <= k < cmds.len() ==> lo <= cmd_page(#[trigger] cmds[k]) <= hi
}

/// Runs' weights are never negative.
pub proof fn lemma_runs_weight_nonneg(rs: Seq<RunView>)
    ensures
        runs_weight(rs) >= 0,
    decreases rs.len(),
{
    if rs.len() > 0 {
        lemma_runs_weight_nonneg(rs.drop_first());
    }
}

/// Paragraphs' weights are never negative.
pub proof fn lemma_paras_weight_nonneg(ps: Seq<ParagraphView>)
    ensures
        paras_weight(ps) >= 0,
    decreases ps.len(),
{
    if ps.len() > 0 {
        lemma_runs_weight_nonneg(ps[0].runs);
        lemma_paras_weight_nonneg(ps.drop_first());
    }
}

/// Pushing a command whose page continues the sequence preserves the three
/// page/bounds predicates.
proof fn lemma_bounds_push(s: Seq<CmdView>, x: CmdView, g: PageGeometry, lo: int, hi: int, hi2: int)
    requires
        pages_monotone(s),
        pages_within(s, lo, hi),
        hi <= hi2,
        lo <= hi,
        hi <= cmd_page(x) <= hi2,
    ensures
        pages_monotone(s.push(x)),
        pages_within(s.push(x), lo, hi2),
        in_bounds(s, g) && g.margin_um <= cmd_y(x) <= g.top_y_um() ==> in_bounds(s.push(x), g),
{
    let t = s.push(x);
    assert forall|j: int, k: int| 0 <= j <= k < t.len() implies cmd_page(#[trigger] t[j])
        <= cmd_page(#[trigger] t[k]) by {
        if k < s.len() {
            assert(t[j] == s[j] && t[k] == s[k]);
        } else {
            assert(t[k] == x);
            if j < s.len() {
                assert(t[j] == s[j]);
            }
        }
    }
    assert forall|k: int| 0 <= k < t.len() implies lo <= cmd_page(#[trigger] t[k]) <= hi2 by {
        if k < s.len() {
            assert(t[k] == s[k]);
        } else {
            assert(t[k] == x);
        }
    }
    if in_bounds(s, g) && g.margin_um <= cmd_y(x) <= g.top_y_um() {
        assert forall|k: int| 0 <= k < t.len() implies g.margin_um <= cmd_y(#[trigger] t[k])
            <= g.top_y_um() by {
            if k < s.len() {
                assert(t[k] == s[k]);
            } else {
                assert(t[k] == x);
            }
        }
    }
}

/// Executable width-driven scale in parts per million.
pub fn image_scale_ppm(g: &PageGeometry, pixel_width: u32) -> (r: i64)
    requires
        g.wf(),
        pixel_width >= 1,
    ensures
        r == spec_image_scale_ppm(*g, pixel_width as int),
        0 <= r <= 10_000_000_000,
{
    let pw = g.printable_width_um();
    let num: i64 = pw * 1000;
    proof {
        lemma_div_pos_is_pos(num as int, pixel_width as int);
        lemma_div_nonincreasing(num as int, pixel_width as int);
    }
    num / (pixel_width as i64)
}

/// Executable scaled height of a width-fitted image.
pub fn scaled_height_um(g: &PageGeometry, pixel_width: u32, pixel_height: u32) -> (r: i64)
    requires
        g.wf(),
        pixel_width >= 1,
    ensures
        r == spec_scaled_height_um(*g, pixel_width as int, pixel_height as int),
        0 <= r <= 0x0100_0000_0000_0000,
{
    let pw = g.printable_width_um();
    proof {
        assert(0 <= (pixel_height as int) * (pw as int) <= 0x0100_0000_0000_0000)
            by (nonlinear_arith)
            requires
                0 <= pixel_height < 0x1_0000_0000,
                0 <= pw <= 10_000_000,
        ;
    }
    let num: i64 = (pixel_height as i64) * pw;
    proof {
        lemma_div_pos_is_pos(num as int, pixel_width as int);
        lemma_div_nonincreasing(num as int, pixel_width as int);
    }
    num / (pixel_width as i64)
}

/// Places wrapped lines from the cursor on, returning the emitted commands
/// and the advanced cursor.
pub fn place_lines(
    lines: &Vec<Vec<u8>>,
    font: FontVariant,
    c: Cursor,
    g: &PageGeometry,
) -> (r: (Vec<PlacementCommand>, Cursor))
    requires
        g.wf(),
        c@.y_um <= g.top_y_um(),
        c@.y_um >= CURSOR_Y_FLOOR,
        c@.page_index + lines@.len() <= u64::MAX,
    ensures
        (views_of(r.0@), r.1@) == place_lines_v(word_views(lines@), font, c@, *g),
        r.0@.len() == lines@.len(),
        c@.page_index <= r.1@.page_index <= c@.page_index + lines@.len(),
        r.1@.y_um <= g.top_y_um(),
        lines@.len() == 0 ==> r.1 == c,
        lines@.len() > 0 ==> r.1@.y_um >= g.margin_um + 1 - LINE_HEIGHT_UM,
        in_bounds(views_of(r.0@), *g),
        pages_monotone(views_of(r.0@)),
        pages_within(views_of(r.0@), c@.page_index, r.1@.page_index),
{
    let n = lines.len();
    let mut out: Vec<PlacementCommand> = Vec::new();
    let mut cur = c;
    let mut i: usize = 0;
    proof {
        assert(word_views(lines@).skip(0) =~= word_views(lines@));
    }
    while i < n
        invariant
            i <= n,
            n == lines@.len(),
            g.wf(),
            out@.len() == i,
            cur@.y_um <= g.top_y_um(),
            cur@.y_um >= CURSOR_Y_FLOOR,
            c@.page_index <= cur@.page_index <= c@.page_index + i,
            c@.page_index + n <= u64::MAX,
            place_lines_v(word_views(lines@), font, c@, *g) == {
                let (rest, cf) = place_lines_v(word_views(lines@).skip(i as int), font, cur@, *g);
                (views_of(out@) + rest, cf)
            },
            i > 0 ==> cur@.y_um >= g.margin_um + 1 - LINE_HEIGHT_UM,
            i == 0 ==> cur == c,
            in_bounds(views_of(out@), *g),
            pages_monotone(views_of(out@)),
            pages_within(views_of(out@), c@.page_index, cur@.page_index),
        decreases n - i,
    {
        proof {
            assert(word_views(lines@).skip(i as int)[0] == word_views(lines@)[i as int]);
            assert(word_views(lines@)[i as int] == lines@[i as int]@);
            assert(word_views(lines@).skip(i as int).drop_first() =~= word_views(lines@).skip(
                i as int + 1,
            ));
        }
        let c1 = crate::geometry::ensure_room(cur, LINE_HEIGHT_UM, g);
        let text = crate::text::clone_bytes(&lines[i]);
        let cmd = PlacementCommand::TextLine {
            page_index: c1.page_index,
            x_um: g.margin_um,
            y_um: c1.y_um,
            font,
            text,
        };
        proof {
            assert(g.margin_um <= c1@.y_um <= g.top_y_um());
            assert(views_of(out@.push(cmd)) =~= views_of(out@).push(cmd@));
            lemma_bounds_push(
                views_of(out@),
                cmd@,
                *g,
                c@.page_index as int,
                cur@.page_index as int,
                c1@.page_index as int,
            );
            assert(views_of(out@).push(cmd@) + place_lines_v(
                word_views(lines@).skip(i as int + 1),
                font,
                CursorV { page_index: c1@.page_index, y_um: c1@.y_um - LINE_HEIGHT_UM },
                *g,
            ).0 =~= views_of(out@) + (seq![cmd@] + place_lines_v(
                word_views(lines@).skip(i as int + 1),
                font,
                CursorV { page_index: c1@.page_index, y_um: c1@.y_um - LINE_HEIGHT_UM },
                *g,
            ).0));
        }
        out.push(cmd);
        cur = Cursor { page_index: c1.page_index, y_um: c1.y_um - LINE_HEIGHT_UM };
        i = i + 1;
    }
    proof {
        assert(word_views(lines@).skip(i as int) =~= Seq::<Seq<u8>>::empty());
        assert(views_of(out@) + Seq::<CmdView>::empty() =~= views_of(out@));
    }
    (out, cur)
}

/// Concatenating two command sequences whose page ranges meet at `mid`
/// preserves the page/bounds predicates.
proof fn lemma_bounds_concat(
    a: Seq<CmdView>,
    b: Seq<CmdView>,
    g: PageGeometry,
    lo: int,
    mid: int,
    hi: int,
)
    requires
        pages_monotone(a),
        pages_monotone(b),
        pages_within(a, lo, mid),
        pages_within(b, mid, hi),
        lo <= mid <= hi,
    ensures
        pages_monotone(a + b),
        pages_within(a + b, lo, hi),
        in_bounds(a, g) && in_bounds(b, g) ==> in_bounds(a + b, g),
{
    let t = a + b;
    assert forall|j: int, k: int| 0 <= j <= k < t.len() implies cmd_page(#[trigger] t[j])
        <= cmd_page(#[trigger] t[k]) by {
        if j < a.len() {
            assert(t[j] == a[j]);
        } else {
            assert(t[j] == b[j - a.len()]);
        }
        if k < a.len() {
            assert(t[k] == a[k]);
        } else {
            assert(t[k] == b[k - a.len()]);
        }
    }
    assert forall|k: int| 0 <= k < t.len() implies lo <= cmd_page(#[trigger] t[k]) <= hi by {
        if k < a.len() {
            assert(t[k] == a[k]);
        } else {
            assert(t[k] == b[k - a.len()]);
        }
    }
    if in_bounds(a, g) && in_bounds(b, g) {
        assert forall|k: int| 0 <= k < t.len() implies g.margin_um <= cmd_y(#[trigger] t[k])
            <= g.top_y_um() by {
            if k < a.len() {
                assert(t[k] == a[k]);
            } else {
                assert(t[k] == b[k - a.len()]);
            }
        }
    }
}

/// Lays out one styled run from the cursor on: split, wrap, place.
pub fn layout_run(run: &StyledRun, c: Cursor, g: &PageGeometry) -> (r: (
    Vec<PlacementCommand>,
    Cursor,
))
    requires
        g.wf(),
        c@.y_um <= g.top_y_um(),
        c@.y_um >= CURSOR_Y_FLOOR,
        c@.page_index + run@.text.len() <= u64::MAX,
    ensures
        (views_of(r.0@), r.1@) == run_v(run@, c@, *g),
        c@.page_index <= r.1@.page_index <= c@.page_index + run@.text.len(),
        r.1@.y_um <= g.top_y_um(),
        r.0@.len() == 0 ==> r.1 == c,
        r.0@.len() > 0 ==> r.1@.y_um >= g.margin_um + 1 - LINE_HEIGHT_UM,
        in_bounds(views_of(r.0@), *g),
        pages_monotone(views_of(r.0@)),
        pages_within(views_of(r.0@), c@.page_index as int, r.1@.page_index as int),
{
    let words = split_words(&run.text);
    proof {
        lemma_words_count(run.text@);
    }
    let lines = wrap_words(&words, WRAP_BUDGET);
    let font = font_of(run.style);
    place_lines(&lines, font, c, g)
}

/// Lays out one paragraph: its runs in order, then the blank-line advance.
pub fn layout_paragraph(p: &Paragraph, c: Cursor, g: &PageGeometry) -> (r: (
    Vec<PlacementCommand>,
    Cursor,
))
    requires
        g.wf(),
        c@.y_um <= g.top_y_um(),
        c@.y_um >= CURSOR_Y_FLOOR,
        c@.page_index + para_weight(p@) <= u64::MAX,
    ensures
        (views_of(r.0@), r.1@) == paragraph_v(p@, c@, *g),
        c@.page_index <= r.1@.page_index <= c@.page_index + para_weight(p@),
        r.1@.y_um <= g.top_y_um(),
        r.1@.y_um >= (if c@.y_um < 0 { c@.y_um } else { 0 }) - 2 * LINE_HEIGHT_UM,
        in_bounds(views_of(r.0@), *g),
        pages_monotone(views_of(r.0@)),
        pages_within(views_of(r.0@), c@.page_index as int, r.1@.page_index as int),
{
    let n = p.runs.len();
    let mut out: Vec<PlacementCommand> = Vec::new();
    let mut cur = c;
    let mut i: usize = 0;
    proof {
        assert(p@.runs.skip(0) =~= p@.runs);
        assert(views_of(out@) =~= Seq::<CmdView>::empty());
        assert(views_of(out@) + runs_v(p@.runs, c@, *g).0 =~= runs_v(p@.runs, c@, *g).0);
        lemma_runs_weight_nonneg(p@.runs);
    }
    while i < n
        invariant
            i <= n,
            n == p.runs@.len(),
            p@.runs.len() == n,
            g.wf(),
            cur@.y_um <= g.top_y_um(),
            cur@.y_um >= (if c@.y_um < 0 { c@.y_um } else { 0 }) - LINE_HEIGHT_UM + 1,
            cur@.y_um >= CURSOR_Y_FLOOR,
            c@.page_index <= cur@.page_index,
            cur@.page_index + runs_weight(p@.runs.skip(i as int)) <= c@.page_index + para_weight(
                p@,
            ),
            c@.page_index + para_weight(p@) <= u64::MAX,
            runs_v(p@.runs, c@, *g) == {
                let (rest, cf) = runs_v(p@.runs.skip(i as int), cur@, *g);
                (views_of(out@) + rest, cf)
            },
            in_bounds(views_of(out@), *g),
            pages_monotone(views_of(out@)),
            pages_within(views_of(out@), c@.page_index as int, cur@.page_index as int),
        decreases n - i,
    {
        proof {
            assert(p@.runs[i as int] == p.runs@[i as int]@);
            assert(p@.runs.skip(i as int)[0] == p@.runs[i as int]);
            assert(p@.runs.skip(i as int).drop_first() =~= p@.runs.skip(i as int + 1));
            lemma_runs_weight_nonneg(p@.runs.skip(i as int + 1));
        }
        let run = &p.runs[i];
        let (mut rc, c2) = layout_run(run, cur, g);
        proof {
            assert(views_of(out@ + rc@) =~= views_of(out@) + views_of(rc@));
            assert(views_of(out@) + (views_of(rc@) + runs_v(
                p@.runs.skip(i as int + 1),
                c2@,
                *g,
            ).0) =~= (views_of(out@) + views_of(rc@)) + runs_v(
                p@.runs.skip(i as int + 1),
                c2@,
                *g,
            ).0);
            lemma_bounds_concat(
                views_of(out@),
                views_of(rc@),
                *g,
                c@.page_index as int,
                cur@.page_index as int,
                c2@.page_index as int,
            );
        }
        out.append(&mut rc);
        cur = c2;
        i = i + 1;
    }
    proof {
        assert(p@.runs.skip(i as int) =~= Seq::<RunView>::empty());
        assert(views_of(out@) + Seq::<CmdView>::empty() =~= views_of(out@));
    }
    let fin = Cursor { page_index: cur.page_index, y_um: cur.y_um - LINE_HEIGHT_UM };
    (out, fin)
}

/// Lays out all paragraphs from the cursor on.
pub fn layout_paragraphs(paragraphs: &Vec<Paragraph>, c: Cursor, g: &PageGeometry) -> (r: (
    Vec<PlacementCommand>,
    Cursor,
))
    requires
        g.wf(),
        c@.y_um <= g.top_y_um(),
        c@.y_um >= 0,
        paras_weight(para_views(paragraphs@)) <= LAYOUT_BUDGET,
        c@.page_index + paras_weight(para_views(paragraphs@)) <= u64::MAX,
    ensures
        (views_of(r.0@), r.1@) == paragraphs_v(para_views(paragraphs@), c@, *g),
        c@.page_index <= r.1@.page_index,
        r.1@.page_index <= c@.page_index + paras_weight(para_views(paragraphs@)),
        r.1@.y_um <= g.top_y_um(),
        r.1@.y_um >= CURSOR_Y_FLOOR + 0x0100_0000_0000_0000,
        in_bounds(views_of(r.0@), *g),
        pages_monotone(views_of(r.0@)),
        pages_within(views_of(r.0@), c@.page_index as int, r.1@.page_index as int),
{
    let ghost pv = para_views(paragraphs@);
    let n = paragraphs.len();
    let mut out: Vec<PlacementCommand> = Vec::new();
    let mut cur = c;
    let mut i: usize = 0;
    proof {
        assert(pv.len() == n);
        assert(pv.skip(0) =~= pv);
        assert(views_of(out@) =~= Seq::<CmdView>::empty());
        assert(views_of(out@) + paragraphs_v(pv, c@, *g).0 =~= paragraphs_v(pv, c@, *g).0);
        lemma_paras_weight_ge_len(pv);
    }
    while i < n
        invariant
            i <= n,
            n == paragraphs@.len(),
            pv == para_views(paragraphs@),
            pv.len() == n,
            g.wf(),
            cur@.y_um <= g.top_y_um(),
            cur@.y_um >= -2 * LINE_HEIGHT_UM * (i as int),
            c@.y_um >= 0,
            c@.page_index <= cur@.page_index,
            cur@.page_index + paras_weight(pv.skip(i as int)) <= c@.page_index + paras_weight(pv),
            c@.page_index + paras_weight(pv) <= u64::MAX,
            paras_weight(pv) <= LAYOUT_BUDGET,
            pv.len() <= paras_weight(pv),
            paragraphs_v(pv, c@, *g) == {
                let (rest, cf) = paragraphs_v(pv.skip(i as int), cur@, *g);
                (views_of(out@) + rest, cf)
            },
            in_bounds(views_of(out@), *g),
            pages_monotone(views_of(out@)),
            pages_within(views_of(out@), c@.page_index as int, cur@.page_index as int),
        decreases n - i,
    {
        proof {
            assert(pv[i as int] == paragraphs@[i as int]@);
            assert(pv.skip(i as int)[0] == pv[i as int]);
            assert(pv.skip(i as int).drop_first() =~= pv.skip(i as int + 1));
            lemma_paras_weight_nonneg(pv.skip(i as int + 1));
            lemma_runs_weight_nonneg(pv[i as int].runs);
            assert(cur@.y_um >= -2 * LINE_HEIGHT_UM * (n as int)) by (nonlinear_arith)
                requires
                    cur@.y_um >= -2 * LINE_HEIGHT_UM * (i as int),
                    0 <= i <= n,
            ;
            assert(-2 * LINE_HEIGHT_UM * (n as int) >= -2 * LINE_HEIGHT_UM * LAYOUT_BUDGET)
                by (nonlinear_arith)
                requires
                    0 <= n <= LAYOUT_BUDGET,
            ;
        }
        let p = &paragraphs[i];
        let (mut pc, c2) = layout_paragraph(p, cur, g);
        proof {
            assert(views_of(out@ + pc@) =~= views_of(out@) + views_of(pc@));
            assert(views_of(out@) + (views_of(pc@) + paragraphs_v(
                pv.skip(i as int + 1),
                c2@,
                *g,
            ).0) =~= (views_of(out@) + views_of(pc@)) + paragraphs_v(
                pv.skip(i as int + 1),
                c2@,
                *g,
            ).0);
            lemma_bounds_concat(
                views_of(out@),
                views_of(pc@),
                *g,
                c@.page_index as int,
                cur@.page_index as int,
                c2@.page_index as int,
            );
            assert(c2@.y_um >= -2 * LINE_HEIGHT_UM * (i as int + 1)) by (nonlinear_arith)
                requires
                    c2@.y_um >= (if cur@.y_um < 0 { cur@.y_um } else { 0 }) - 2 * LINE_HEIGHT_UM,
                    cur@.y_um >= -2 * LINE_HEIGHT_UM * (i as int),
                    i >= 0,
            ;
        }
        out.append(&mut pc);
        cur = c2;
        i = i + 1;
    }
    proof {
        assert(pv.skip(i as int) =~= Seq::<ParagraphView>::empty());
        assert(views_of(out@) + Seq::<CmdView>::empty() =~= views_of(out@));
        assert(cur@.y_um >= -2 * LINE_HEIGHT_UM * LAYOUT_BUDGET) by (nonlinear_arith)
            requires
                cur@.y_um >= -2 * LINE_HEIGHT_UM * (i as int),
                0 <= i,
                i <= LAYOUT_BUDGET,
        ;
    }
    (out, cur)
}

/// Paragraph weight counts at least one unit per paragraph.
pub proof fn lemma_paras_weight_ge_len(ps: Seq<ParagraphView>)
    ensures
        paras_weight(ps) >= ps.len(),
    decreases ps.len(),
{
    if ps.len() > 0 {
        lemma_runs_weight_nonneg(ps[0].runs);
        lemma_paras_weight_ge_len(ps.drop_first());
    }
}

/// Lays out one image: page-break check with the scaled height, one
/// placement, one advance of the scaled height plus the image gap.
pub fn layout_image(img: &ImageAsset, asset_index: usize, c: Cursor, g: &PageGeometry) -> (r: (
    PlacementCommand,
    Cursor,
))
    requires
        g.wf(),
        img.wf(),
        c@.y_um <= g.top_y_um(),
        c@.y_um >= CURSOR_Y_FLOOR,
        c@.page_index < u64::MAX,
    ensures
        (r.0@, r.1@) == image_v(img@, asset_index as int, c@, *g),
        c@.page_index <= r.1@.page_index <= c@.page_index + 1,
        r.1@.y_um <= g.top_y_um(),
        r.1@.y_um >= 0 - 0x0100_0000_0000_0000 - IMAGE_GAP_UM,
        cmd_page(r.0@) == r.1@.page_index,
        cmd_y(r.0@) <= g.top_y_um(),
        image_fits(img@, *g) ==> g.margin_um <= cmd_y(r.0@),
{
    let sh = scaled_height_um(g, img.pixel_width, img.pixel_height);
    let c1 = crate::geometry::ensure_room(c, sh, g);
    let scale = image_scale_ppm(g, img.pixel_width);
    let cmd = PlacementCommand::ImagePlacement {
        page_index: c1.page_index,
        x_um: g.margin_um,
        y_um: c1.y_um - sh,
        scale_ppm: scale,
        asset_index,
    };
    let fin = Cursor { page_index: c1.page_index, y_um: (c1.y_um - sh) - IMAGE_GAP_UM };
    (cmd, fin)
}

/// Lays out all images from the cursor on, numbering them from zero.
pub fn layout_images(images: &Vec<ImageAsset>, c: Cursor, g: &PageGeometry) -> (r: (
    Vec<PlacementCommand>,
    Cursor,
))
    requires
        g.wf(),
        forall|k: int| 0 <= k < images@.len() ==> (#[trigger] images@[k]).wf(),
        c@.y_um <= g.top_y_um(),
        c@.y_um >= CURSOR_Y_FLOOR + 0x0100_0000_0000_0000,
        c@.page_index + images@.len() <= u64::MAX,
    ensures
        (views_of(r.0@), r.1@) == images_v(image_views(images@), 0, c@, *g),
        c@.page_index <= r.1@.page_index <= c@.page_index + images@.len(),
        pages_monotone(views_of(r.0@)),
        pages_within(views_of(r.0@), c@.page_index as int, r.1@.page_index as int),
        (forall|k: int|
            0 <= k < images@.len() ==> image_fits(#[trigger] images@[k]@, *g)) ==> in_bounds(
            views_of(r.0@),
            *g,
        ),
{
    let ghost iv = image_views(images@);
    let m = images.len();
    let mut out: Vec<PlacementCommand> = Vec::new();
    let mut cur = c;
    let mut j: usize = 0;
    proof {
        assert(iv.len() == m);
        assert(iv.skip(0) =~= iv);
        assert(views_of(out@) =~= Seq::<CmdView>::empty());
        assert(views_of(out@) + images_v(iv, 0, c@, *g).0 =~= images_v(iv, 0, c@, *g).0);
    }
    while j < m
        invariant
            j <= m,
            m == images@.len(),
            iv == image_views(images@),
            iv.len() == m,
            g.wf(),
            forall|k: int| 0 <= k < images@.len() ==> (#[trigger] images@[k]).wf(),
            cur@.y_um <= g.top_y_um(),
            cur@.y_um >= CURSOR_Y_FLOOR,
            c@.page_index <= cur@.page_index <= c@.page_index + j,
            c@.page_index + m <= u64::MAX,
            images_v(iv, 0, c@, *g) == {
                let (rest, cf) = images_v(iv.skip(j as int), j as int, cur@, *g);
                (views_of(out@) + rest, cf)
            },
            pages_monotone(views_of(out@)),
            pages_within(views_of(out@), c@.page_index as int, cur@.page_index as int),
            (forall|k: int|
                0 <= k < images@.len() ==> image_fits(#[trigger] images@[k]@, *g)) ==> in_bounds(
                views_of(out@),
                *g,
            ),
        decreases m - j,
    {
        proof {
            assert(iv[j as int] == images@[j as int]@);
            assert(iv.skip(j as int)[0] == iv[j as int]);
            assert(iv.skip(j as int).drop_first() =~= iv.skip(j as int + 1));
            assert(images@[j as int].wf());
        }
        let img = &images[j];
        let (cmd, c2) = layout_image(img, j, cur, g);
        proof {
            assert(views_of(out@.push(cmd)) =~= views_of(out@).push(cmd@));
            lemma_bounds_push(
                views_of(out@),
                cmd@,
                *g,
                c@.page_index as int,
                cur@.page_index as int,
                c2@.page_index as int,
            );
            assert(views_of(out@).push(cmd@) + images_v(
                iv.skip(j as int + 1),
                j as int + 1,
                c2@,
                *g,
            ).0 =~= views_of(out@) + (seq![cmd@] + images_v(
                iv.skip(j as int + 1),
                j as int + 1,
                c2@,
                *g,
            ).0));
            if forall|k: int| 0 <= k < images@.len() ==> image_fits(#[trigger] images@[k]@, *g) {
                assert(image_fits(images@[j as int]@, *g));
                assert(g.margin_um <= cmd_y(cmd@) <= g.top_y_um());
            }
        }
        out.push(cmd);
        cur = c2;
        j = j + 1;
    }
    proof {
        assert(iv.skip(j as int) =~= Seq::<ImageView>::empty());
        assert(views_of(out@) + Seq::<CmdView>::empty() =~= views_of(out@));
    }
    (out, cur)
}

/// Lays out a whole document: every paragraph from the top of page 0, then
/// every image, continuing on the last page used by text.  The engine is
/// total over well-formed input; an empty document yields an empty sequence.
///
/// The command sequence equals the mathematical layout `layout_v`, its page
/// indices never decrease, and — provided every width-fitted image is no
/// taller than the printable area — every command's vertical position stays
/// inside the printable band.
pub fn layout_document(
    paragraphs: &Vec<Paragraph>,
    images: &Vec<ImageAsset>,
    g: &PageGeometry,
) -> (cmds: Vec<PlacementCommand>)
    requires
        g.wf(),
        forall|k: int| 0 <= k < images@.len() ==> (#[trigger] images@[k]).wf(),
        within_budget(para_views(paragraphs@), image_views(images@)),
    ensures
        views_of(cmds@) == layout_v(para_views(paragraphs@), image_views(images@), *g),
        pages_monotone(views_of(cmds@)),
        (forall|k: int|
            0 <= k < images@.len() ==> image_fits(#[trigger] images@[k]@, *g)) ==> in_bounds(
            views_of(cmds@),
            *g,
        ),
{
    proof {
        lemma_paras_weight_nonneg(para_views(paragraphs@));
    }
    let start = Cursor { page_index: 0, y_um: g.height_um - g.margin_um };
    proof {
        assert(start@ == start_cursor_v(*g));
    }
    let (mut text_cmds, c1) = layout_paragraphs(paragraphs, start, g);
    let (mut img_cmds, c2) = layout_images(images, c1, g);
    proof {
        assert(views_of(text_cmds@ + img_cmds@) =~= views_of(text_cmds@) + views_of(img_cmds@));
        lemma_bounds_concat(
            views_of(text_cmds@),
            views_of(img_cmds@),
            *g,
            0,
            c1@.page_index as int,
            c2@.page_index as int,
        );
    }
    let mut cmds = text_cmds;
    cmds.append(&mut img_cmds);
    cmds
}

/// The scale of a placed image is the width-driven scale of the geometry and
/// the image alone: two layouts of the same image from any two cursor
/// positions assign it the same scale.  Only placement reacts to the page
/// position, never the scale.
pub proof fn lemma_scale_independent_of_cursor(
    img: ImageView,
    idx: int,
    c1: CursorV,
    c2: CursorV,
    g: PageGeometry,
)
    ensures
        cmd_scale(image_v(img, idx, c1, g).0) == spec_image_scale_ppm(g, img.pixel_width),
        cmd_scale(image_v(img, idx, c1, g).0) == cmd_scale(image_v(img, idx, c2, g).0),
{
}

/// The scale carried by a command (zero for a text line).
pub open spec fn cmd_scale(c: CmdView) -> int {
    match c {
        CmdView::TextLine { .. } => 0,
        CmdView::ImagePlacement { scale_ppm, .. } => scale_ppm,
    }
}

/// The layout is a function of its input alone: two runs over equal
/// documents and equal geometry produce equal command sequences.  Together
/// with `layout_document`'s exact postcondition this makes the engine
/// idempotent: running it twice on identical input gives identical commands.
pub proof fn lemma_layout_deterministic(
    ps1: Seq<ParagraphView>,
    imgs1: Seq<ImageView>,
    g1: PageGeometry,
    ps2: Seq<ParagraphView>,
    imgs2: Seq<ImageView>,
    g2: PageGeometry,
)
    requires
        ps1 == ps2,
        imgs1 == imgs2,
        g1 == g2,
    ensures
        layout_v(ps1, imgs1, g1) == layout_v(ps2, imgs2, g2),
{
}

/// Placing lines emits exactly one command per line.
pub proof fn lemma_place_count(lines: Seq<Seq<u8>>, font: FontVariant, c: CursorV, g: PageGeometry)
    ensures
        place_lines_v(lines, font, c, g).0.len() == lines.len(),
    decreases lines.len(),
{
    if lines.len() > 0 {
        let c1 = room_checked(c, LINE_HEIGHT_UM as int, g);
        let c2 = CursorV { page_index: c1.page_index, y_um: c1.y_um - LINE_HEIGHT_UM };
        lemma_place_count(lines.drop_first(), font, c2, g);
    }
}

/// A run whose text is shorter than the wrap budget and holds at least one
/// word lays out as exactly one text line, wherever the cursor stands.
pub proof fn lemma_short_run_single_line(r: RunView, c: CursorV, g: PageGeometry)
    requires
        words_of(r.text).len() >= 1,
        r.text.len() < WRAP_BUDGET,
    ensures
        run_v(r, c, g).0.len() == 1,
{
    lemma_short_text_single_line(r.text, WRAP_BUDGET as int);
    lemma_place_count(
        wrap_lines(words_of(r.text), WRAP_BUDGET as int),
        spec_font_of(r.style),
        c,
        g,
    );
}

} // verus!
