//! Receipt layout: places eight receipts per page in a two-column,
//! four-row grid, separated by cut lines, each stamped with a logo.
//!
//! The engine is pure: it turns a period label and a member sequence
//! into an ordered sequence of drawing commands for an opaque rendering
//! surface. Coordinates are in hundredths of a length unit, measured
//! from the lower-left corner of the page, so the whole computation is
//! exact integer arithmetic.

use vstd::prelude::*;

use crate::extract::Member;

verus! {

/// Page width: 215.9 length units.
pub const PAGE_WIDTH: i64 = 21590;

/// Page height: 279.4 length units.
pub const PAGE_HEIGHT: i64 = 27940;

/// Horizontal midpoint of the page, where the vertical cut line runs.
pub const PAGE_MID: i64 = 10795;

/// Left margin of each receipt column, and the gap drawn after a block.
pub const MARGIN: i64 = 776;

/// Half of the margin; the first text line drops by one and a half
/// margins from the top of its receipt.
pub const HALF_MARGIN: i64 = 388;

/// Vertical distance between two successive text lines of a block.
pub const LINE_OFFSET: i64 = 720;

/// Inset of every cut line from the page edge it would otherwise touch.
pub const CUT_INSET: i64 = 100;

/// Full height consumed by one receipt block, gap included.
pub const RECEIPT_HEIGHT: i64 = 6980;

/// Horizontal offset of the logo from its receipt's left edge.
pub const LOGO_X_OFFSET: i64 = 5200;

/// Vertical offset of the logo above its receipt's bottom edge.
pub const LOGO_Y_OFFSET: i64 = 676;

/// Receipts placed on one page before a new page is started.
pub const RECEIPTS_PER_PAGE: usize = 8;

/// Receipts placed in each column of a page.
pub const RECEIPTS_PER_COLUMN: usize = 4;

/// Font size used for every text line of a receipt block.
pub const FONT_SIZE: i64 = 18;

/// One drawing command for the rendering surface. Commands apply to the
/// current page; `NewPage` replaces it with a fresh one.
#[derive(Debug, Clone, PartialEq)]
pub enum Cmd {
    /// Draw a straight cut line between two points.
    Line { x1: i64, y1: i64, x2: i64, y2: i64 },
    /// Place a text line with its left baseline origin at `(x, y)`.
    Text { content: String, x: i64, y: i64 },
    /// Place the logo image with its lower-left corner at `(x, y)`.
    Logo { x: i64, y: i64 },
    /// Start a fresh page and make it current.
    NewPage,
}

/// The mathematical value of one drawing command.
pub enum CmdV {
    Line { x1: int, y1: int, x2: int, y2: int },
    Text { content: Seq<char>, x: int, y: int },
    Logo { x: int, y: int },
    NewPage,
}

impl View for Cmd {
    type V = CmdV;

    open spec fn view(&self) -> CmdV {
        match self {
            Cmd::Line { x1, y1, x2, y2 } => CmdV::Line {
                x1: *x1 as int,
                y1: *y1 as int,
                x2: *x2 as int,
                y2: *y2 as int,
            },
            Cmd::Text { content, x, y } => CmdV::Text {
                content: content@,
                x: *x as int,
                y: *y as int,
            },
            Cmd::Logo { x, y } => CmdV::Logo { x: *x as int, y: *y as int },
            Cmd::NewPage => CmdV::NewPage,
        }
    }
}

impl DeepView for Cmd {
    type V = CmdV;

    open spec fn deep_view(&self) -> CmdV {
        self.view()
    }
}

/// The vertical cut line down the midpoint of a page, inset from the
/// top and bottom edges.
pub open spec fn vert_cut() -> CmdV {
    CmdV::Line {
        x1: PAGE_MID as int,
        y1: PAGE_HEIGHT - CUT_INSET,
        x2: PAGE_MID as int,
        y2: CUT_INSET as int,
    }
}

/// Position of receipt `i` within its page.
pub open spec fn page_slot(i: int) -> int {
    i % (RECEIPTS_PER_PAGE as int)
}

/// Row of receipt `i` within its column, counted from the page top.
pub open spec fn slot_row(i: int) -> int {
    if page_slot(i) < RECEIPTS_PER_COLUMN as int {
        page_slot(i)
    } else {
        page_slot(i) - RECEIPTS_PER_COLUMN as int
    }
}

/// Left edge of receipt `i`: the left margin for the first column of a
/// page, and the same margin past the midpoint for the second.
pub open spec fn origin_x(i: int) -> int {
    if page_slot(i) < RECEIPTS_PER_COLUMN as int {
        MARGIN as int
    } else {
        PAGE_MID + MARGIN
    }
}

/// Top edge of receipt `i`: the page top, dropped by one full receipt
/// height per row above it.
pub open spec fn origin_y(i: int) -> int {
    PAGE_HEIGHT as int - slot_row(i) * (RECEIPT_HEIGHT as int)
}

/// The page break emitted before receipt `i`: a fresh page with its
/// vertical cut line whenever a receipt starts a page other than the
/// first, and nothing otherwise.
pub open spec fn page_break_cmds(i: int) -> Seq<CmdV> {
    if i > 0 && page_slot(i) == 0 {
        seq![CmdV::NewPage, vert_cut()]
    } else {
        Seq::<CmdV>::empty()
    }
}

/// The six text lines and the logo of one receipt block. The vertical
/// steps are one line offset, doubled after the first and fourth lines,
/// and the logo sits near the block's bottom edge.
pub open spec fn block_cmds(p: Seq<char>, m: Member, i: int) -> Seq<CmdV> {
    let x = origin_x(i);
    let y0 = origin_y(i) - (MARGIN + HALF_MARGIN);
    let y1 = y0 - 2 * (LINE_OFFSET as int);
    let y2 = y1 - LINE_OFFSET as int;
    let y3 = y2 - LINE_OFFSET as int;
    let y4 = y3 - 2 * (LINE_OFFSET as int);
    let y5 = y4 - LINE_OFFSET as int;
    seq![
        CmdV::Text { content: "Mutual Fund"@, x: x, y: y0 },
        CmdV::Text { content: "Period: "@ + p, x: x, y: y1 },
        CmdV::Text {
            content: "Name: "@ + m.last_name@ + " "@ + m.first_name@,
            x: x,
            y: y2,
        },
        CmdV::Text { content: "Payment: $"@ + m.payment@, x: x, y: y3 },
        CmdV::Text { content: "Date:"@, x: x, y: y4 },
        CmdV::Text { content: "Signature:"@, x: x, y: y5 },
        CmdV::Logo {
            x: x + LOGO_X_OFFSET as int,
            y: origin_y(i) - RECEIPT_HEIGHT + LOGO_Y_OFFSET,
        },
    ]
}

/// The cut line emitted after receipt `i`: a horizontal line under the
/// block, spanning its half of the page, except under the last receipt
/// of each column, whose bottom edge needs no cut.
pub open spec fn trail_cmds(i: int) -> Seq<CmdV> {
    let k = page_slot(i);
    let y = origin_y(i) - RECEIPT_HEIGHT as int;
    if k < RECEIPTS_PER_COLUMN as int - 1 {
        seq![CmdV::Line { x1: CUT_INSET as int, y1: y, x2: PAGE_MID as int, y2: y }]
    } else if RECEIPTS_PER_COLUMN as int <= k < RECEIPTS_PER_PAGE as int - 1 {
        seq![CmdV::Line { x1: PAGE_MID as int, y1: y, x2: PAGE_WIDTH - CUT_INSET, y2: y }]
    } else {
        Seq::<CmdV>::empty()
    }
}

/// Every drawing command belonging to receipt `i`.
pub open spec fn receipt_cmds(p: Seq<char>, m: Member, i: int) -> Seq<CmdV> {
    page_break_cmds(i) + block_cmds(p, m, i) + trail_cmds(i)
}

/// The whole command sequence for the first `n` members: the first
/// page's vertical cut line, then each receipt's commands in order.
pub open spec fn cmds_upto(p: Seq<char>, ms: Seq<Member>, n: int) -> Seq<CmdV>
    decreases n,
{
    if n <= 0 {
        seq![vert_cut()]
    } else {
        cmds_upto(p, ms, n - 1) + receipt_cmds(p, ms[n - 1], n - 1)
    }
}

/// The whole command sequence for a period label and a member sequence.
pub open spec fn spec_layout(p: Seq<char>, ms: Seq<Member>) -> Seq<CmdV> {
    cmds_upto(p, ms, ms.len() as int)
}

/// Lays one receipt per member out on as many pages as needed and
/// returns the drawing commands in the order they are to be performed.
pub fn layout_receipts(period: &str, list: &Vec<Member>) -> (r: Vec<Cmd>)
    ensures
        r.deep_view() == spec_layout(period@, list@),
{
    let mut out: Vec<Cmd> = Vec::new();
    out.push(Cmd::Line {
        x1: PAGE_MID,
        y1: PAGE_HEIGHT - CUT_INSET,
        x2: PAGE_MID,
        y2: CUT_INSET,
    });
    proof {
        assert(out.deep_view() =~= cmds_upto(period@, list@, 0));
    }
    let n = list.len();
    let mut i: usize = 0;
    while i < n
        invariant
            i <= n,
            n == list@.len(),
            out.deep_view() == cmds_upto(period@, list@, i as int),
        decreases n - i,
    {
        if i > 0 && i % RECEIPTS_PER_PAGE == 0 {
            out.push(Cmd::NewPage);
            out.push(Cmd::Line {
                x1: PAGE_MID,
                y1: PAGE_HEIGHT - CUT_INSET,
                x2: PAGE_MID,
                y2: CUT_INSET,
            });
        }
        let k = i % RECEIPTS_PER_PAGE;
        let m = &list[i];
        let x: i64 = if k < RECEIPTS_PER_COLUMN {
            MARGIN
        } else {
            PAGE_MID + MARGIN
        };
        let row: i64 = if k < RECEIPTS_PER_COLUMN {
            k as i64
        } else {
            (k - RECEIPTS_PER_COLUMN) as i64
        };
        let oy: i64 = PAGE_HEIGHT - row * RECEIPT_HEIGHT;
        let mut y: i64 = oy - MARGIN - HALF_MARGIN;

        out.push(Cmd::Text { content: "Mutual Fund".to_owned(), x, y });
        y = y - 2 * LINE_OFFSET;

        let mut text = "Period: ".to_owned();
        text.append(period);
        out.push(Cmd::Text { content: text, x, y });
        y = y - LINE_OFFSET;

        let mut text = "Name: ".to_owned();
        text.append(m.last_name.as_str());
        text.append(" ");
        text.append(m.first_name.as_str());
        out.push(Cmd::Text { content: text, x, y });
        y = y - LINE_OFFSET;

        let mut text = "Payment: $".to_owned();
        text.append(m.payment.as_str());
        out.push(Cmd::Text { content: text, x, y });
        y = y - 2 * LINE_OFFSET;

        out.push(Cmd::Text { content: "Date:".to_owned(), x, y });
        y = y - LINE_OFFSET;

        out.push(Cmd::Text { content: "Signature:".to_owned(), x, y });

        out.push(Cmd::Logo {
            x: x + LOGO_X_OFFSET,
            y: oy - RECEIPT_HEIGHT + LOGO_Y_OFFSET,
        });

        let bottom: i64 = oy - RECEIPT_HEIGHT;
        if k < RECEIPTS_PER_COLUMN - 1 {
            out.push(Cmd::Line { x1: CUT_INSET, y1: bottom, x2: PAGE_MID, y2: bottom });
        } else if k >= RECEIPTS_PER_COLUMN && k < RECEIPTS_PER_PAGE - 1 {
            out.push(Cmd::Line {
                x1: PAGE_MID,
                y1: bottom,
                x2: PAGE_WIDTH - CUT_INSET,
                y2: bottom,
            });
        }
        proof {
            assert(out.deep_view() =~= cmds_upto(period@, list@, i as int + 1));
        }
        i += 1;
    }
    out
}

/// The layout is deterministic: for a six-member input and a fixed
/// period label, any two command sequences the engine may produce are
/// identical. No randomness, timestamp or other ambient state enters
/// the placement.
pub proof fn lemma_layout_deterministic(
    p: Seq<char>,
    ms: Seq<Member>,
    r1: Seq<CmdV>,
    r2: Seq<CmdV>,
)
    requires
        ms.len() == 6,
        r1 == spec_layout(p, ms),
        r2 == spec_layout(p, ms),
    ensures
        r1 == r2,
{
}

/// The commands for the first `n` members depend only on those members.
proof fn lemma_cmds_upto_prefix(p: Seq<char>, ms1: Seq<Member>, ms2: Seq<Member>, n: int)
    requires
        0 <= n <= ms1.len(),
        n <= ms2.len(),
        forall|j: int| 0 <= j < n ==> ms1[j] == ms2[j],
    ensures
        cmds_upto(p, ms1, n) == cmds_upto(p, ms2, n),
    decreases n,
{
    if n > 0 {
        lemma_cmds_upto_prefix(p, ms1, ms2, n - 1);
    }
}

/// No page break stands among the commands of the first `n` receipts
/// when they all fit on the first page.
proof fn lemma_cmds_upto_no_new_page(p: Seq<char>, ms: Seq<Member>, n: int)
    requires
        0 <= n <= RECEIPTS_PER_PAGE as int,
        n <= ms.len(),
    ensures
        forall|j: int|
            0 <= j < cmds_upto(p, ms, n).len() ==> !((#[trigger] cmds_upto(p, ms, n)[j])
                is NewPage),
    decreases n,
{
    if n == 0 {
    } else {
        lemma_cmds_upto_no_new_page(p, ms, n - 1);
        let prev = cmds_upto(p, ms, n - 1);
        let i = n - 1;
        assert(page_slot(i) == i);
        assert(receipt_cmds(p, ms[i], i) =~= block_cmds(p, ms[i], i) + trail_cmds(i));
        assert forall|j: int|
            0 <= j < cmds_upto(p, ms, n).len() implies !((#[trigger] cmds_upto(p, ms, n)[j])
            is NewPage) by {
            if j >= prev.len() {
                let jj = j - prev.len();
                assert(cmds_upto(p, ms, n)[j] == (block_cmds(p, ms[i], i) + trail_cmds(i))[jj]);
            }
        }
    }
}

/// Pagination boundary, full page: eight members fill exactly one page.
/// No page break is emitted, and the command sequence ends with the
/// eighth receipt's logo — no trailing cut line follows the last
/// receipt of a page.
pub proof fn lemma_eight_members_single_page(p: Seq<char>, ms: Seq<Member>)
    requires
        ms.len() == RECEIPTS_PER_PAGE,
    ensures
        forall|j: int|
            0 <= j < spec_layout(p, ms).len() ==> !((#[trigger] spec_layout(p, ms)[j])
                is NewPage),
        spec_layout(p, ms).last() is Logo,
{
    lemma_cmds_upto_no_new_page(p, ms, RECEIPTS_PER_PAGE as int);
    let i = RECEIPTS_PER_PAGE as int - 1;
    assert(page_slot(i) == i);
    assert(trail_cmds(i) =~= Seq::<CmdV>::empty());
    assert(receipt_cmds(p, ms[i], i) =~= block_cmds(p, ms[i], i));
    assert(spec_layout(p, ms).last() == block_cmds(p, ms[i], i).last());
}

/// Pagination boundary, overflow: with nine members the first eight lay
/// out exactly as they would alone, and the ninth receipt opens a fresh
/// page — a page break, the new page's vertical cut line, and then the
/// ninth block starting at the reset top-left position.
pub proof fn lemma_ninth_member_new_page(p: Seq<char>, ms: Seq<Member>)
    requires
        ms.len() == RECEIPTS_PER_PAGE + 1,
    ensures
        spec_layout(p, ms) == spec_layout(p, ms.take(RECEIPTS_PER_PAGE as int))
            + receipt_cmds(p, ms[RECEIPTS_PER_PAGE as int], RECEIPTS_PER_PAGE as int),
        receipt_cmds(p, ms[RECEIPTS_PER_PAGE as int], RECEIPTS_PER_PAGE as int)[0] is NewPage,
        receipt_cmds(p, ms[RECEIPTS_PER_PAGE as int], RECEIPTS_PER_PAGE as int)[1] == vert_cut(),
        receipt_cmds(p, ms[RECEIPTS_PER_PAGE as int], RECEIPTS_PER_PAGE as int)[2] == (CmdV::Text {
            content: "Mutual Fund"@,
            x: MARGIN as int,
            y: PAGE_HEIGHT - MARGIN - HALF_MARGIN,
        }),
{
    let full = RECEIPTS_PER_PAGE as int;
    lemma_cmds_upto_prefix(p, ms, ms.take(full), full);
    assert(page_slot(full) == 0);
    let rc = receipt_cmds(p, ms[full], full);
    assert(rc[0] == page_break_cmds(full)[0]);
    assert(rc[1] == page_break_cmds(full)[1]);
    assert(rc[2] == block_cmds(p, ms[full], full)[0]);
    assert(slot_row(full) == 0);
}

/// Whether one command stays within the left half of its page: text and
/// the logo at the left column's positions, and lines that do not cross
/// the midpoint. A page break never does.
pub open spec fn in_left_half(c: CmdV) -> bool {
    match c {
        CmdV::Line { x1, y1, x2, y2 } => x1 <= PAGE_MID as int && x2 <= PAGE_MID as int,
        CmdV::Text { content, x, y } => x == MARGIN as int,
        CmdV::Logo { x, y } => x == MARGIN + LOGO_X_OFFSET,
        CmdV::NewPage => false,
    }
}

/// The commands of the first `n` receipts of a page stay in the left
/// half while `n` is within the first column's capacity.
proof fn lemma_cmds_upto_left(p: Seq<char>, ms: Seq<Member>, n: int)
    requires
        0 <= n <= RECEIPTS_PER_COLUMN as int,
        n <= ms.len(),
    ensures
        forall|j: int|
            0 <= j < cmds_upto(p, ms, n).len() ==> in_left_half(
                #[trigger] cmds_upto(p, ms, n)[j],
            ),
    decreases n,
{
    if n == 0 {
    } else {
        lemma_cmds_upto_left(p, ms, n - 1);
        let prev = cmds_upto(p, ms, n - 1);
        let i = n - 1;
        assert(page_slot(i) == i);
        assert(receipt_cmds(p, ms[i], i) =~= block_cmds(p, ms[i], i) + trail_cmds(i));
        assert forall|j: int|
            0 <= j < cmds_upto(p, ms, n).len() implies in_left_half(
            #[trigger] cmds_upto(p, ms, n)[j],
        ) by {
            if j >= prev.len() {
                let jj = j - prev.len();
                assert(cmds_upto(p, ms, n)[j] == (block_cmds(p, ms[i], i) + trail_cmds(i))[jj]);
            }
        }
    }
}

/// Column-switch boundary: four members fill exactly the left column.
/// Every command of their layout stays in the left half of the single
/// page, so no right-column content exists.
pub proof fn lemma_four_members_left_column(p: Seq<char>, ms: Seq<Member>)
    requires
        ms.len() == RECEIPTS_PER_COLUMN,
    ensures
        forall|j: int|
            0 <= j < spec_layout(p, ms).len() ==> in_left_half(#[trigger] spec_layout(p, ms)[j]),
{
    lemma_cmds_upto_left(p, ms, RECEIPTS_PER_COLUMN as int);
}

} // verus!
