use receipts::extract::{extract_members, Member};
use receipts::layout::{layout_receipts, Cmd, CUT_INSET, LOGO_X_OFFSET, MARGIN, PAGE_HEIGHT, PAGE_MID, PAGE_WIDTH, RECEIPT_HEIGHT};

fn member(first: &str, last: &str, payment: &str) -> Member {
    Member {
        first_name: first.to_string(),
        last_name: last.to_string(),
        payment: payment.to_string(),
    }
}

fn members(n: usize) -> Vec<Member> {
    (0..n).map(|i| member(&format!("F{}", i), &format!("L{}", i), &format!("{}", i * 10))).collect()
}

#[test]
fn starts_with_vertical_cut_line() {
    let cmds = layout_receipts("May", &members(1));
    assert_eq!(
        cmds[0],
        Cmd::Line { x1: PAGE_MID, y1: PAGE_HEIGHT - CUT_INSET, x2: PAGE_MID, y2: CUT_INSET }
    );
}

#[test]
fn first_receipt_block_lines_in_order() {
    let list = vec![member("Jane", "Doe", "50")];
    let cmds = layout_receipts("March", &list);
    let texts: Vec<(&str, i64, i64)> = cmds
        .iter()
        .filter_map(|c| match c {
            Cmd::Text { content, x, y } => Some((content.as_str(), *x, *y)),
            _ => None,
        })
        .collect();
    let top = PAGE_HEIGHT;
    assert_eq!(
        texts,
        vec![
            ("Mutual Fund", MARGIN, top - 1164),
            ("Period: March", MARGIN, top - 2604),
            ("Name: Doe Jane", MARGIN, top - 3324),
            ("Payment: $50", MARGIN, top - 4044),
            ("Date:", MARGIN, top - 5484),
            ("Signature:", MARGIN, top - 6204),
        ]
    );
}

#[test]
fn one_member_draws_logo_and_trailing_cut() {
    let cmds = layout_receipts("May", &members(1));
    assert_eq!(cmds.len(), 9);
    assert_eq!(
        cmds[7],
        Cmd::Logo { x: MARGIN + LOGO_X_OFFSET, y: PAGE_HEIGHT - RECEIPT_HEIGHT + 676 }
    );
    let bottom = PAGE_HEIGHT - RECEIPT_HEIGHT;
    assert_eq!(
        cmds[8],
        Cmd::Line { x1: CUT_INSET, y1: bottom, x2: PAGE_MID, y2: bottom }
    );
}

#[test]
fn second_receipt_drops_by_one_receipt_height() {
    let cmds = layout_receipts("May", &members(2));
    let texts: Vec<(&str, i64, i64)> = cmds
        .iter()
        .filter_map(|c| match c {
            Cmd::Text { content, x, y } => Some((content.as_str(), *x, *y)),
            _ => None,
        })
        .collect();
    assert_eq!(texts[6], ("Mutual Fund", MARGIN, PAGE_HEIGHT - RECEIPT_HEIGHT - 1164));
}

#[test]
fn four_members_stay_in_left_column() {
    let cmds = layout_receipts("May", &members(4));
    for c in &cmds {
        match c {
            Cmd::Text { x, .. } => assert_eq!(*x, MARGIN),
            Cmd::Logo { x, .. } => assert_eq!(*x, MARGIN + LOGO_X_OFFSET),
            Cmd::Line { x1, x2, .. } => {
                assert!(*x1 <= PAGE_MID);
                assert!(*x2 <= PAGE_MID);
            }
            Cmd::NewPage => panic!("page break on a single-column layout"),
        }
    }
}

#[test]
fn fourth_receipt_has_no_trailing_cut() {
    let cmds = layout_receipts("May", &members(4));
    // Cut lines: the vertical one, then one under each of the first
    // three receipts; none under the fourth.
    let lines = cmds.iter().filter(|c| matches!(c, Cmd::Line { .. })).count();
    assert_eq!(lines, 4);
}

#[test]
fn fifth_receipt_starts_right_column_at_top() {
    let cmds = layout_receipts("May", &members(5));
    let texts: Vec<(&str, i64, i64)> = cmds
        .iter()
        .filter_map(|c| match c {
            Cmd::Text { content, x, y } => Some((content.as_str(), *x, *y)),
            _ => None,
        })
        .collect();
    assert_eq!(texts[24], ("Mutual Fund", PAGE_MID + MARGIN, PAGE_HEIGHT - 1164));
}

#[test]
fn right_column_cut_lines_span_right_half() {
    let cmds = layout_receipts("May", &members(6));
    let last = cmds.last().unwrap();
    // The sixth receipt stands in the second row of the right column.
    let bottom = PAGE_HEIGHT - 2 * RECEIPT_HEIGHT;
    assert_eq!(
        *last,
        Cmd::Line { x1: PAGE_MID, y1: bottom, x2: PAGE_WIDTH - CUT_INSET, y2: bottom }
    );
}

#[test]
fn eight_members_fill_one_page() {
    let cmds = layout_receipts("May", &members(8));
    assert!(cmds.iter().all(|c| !matches!(c, Cmd::NewPage)));
    assert!(matches!(cmds.last().unwrap(), Cmd::Logo { .. }));
}

#[test]
fn ninth_member_opens_second_page_at_top_left() {
    let cmds = layout_receipts("May", &members(9));
    let breaks: Vec<usize> = cmds
        .iter()
        .enumerate()
        .filter_map(|(i, c)| if matches!(c, Cmd::NewPage) { Some(i) } else { None })
        .collect();
    assert_eq!(breaks.len(), 1);
    let b = breaks[0];
    assert_eq!(
        cmds[b + 1],
        Cmd::Line { x1: PAGE_MID, y1: PAGE_HEIGHT - CUT_INSET, x2: PAGE_MID, y2: CUT_INSET }
    );
    assert_eq!(
        cmds[b + 2],
        Cmd::Text { content: "Mutual Fund".to_string(), x: MARGIN, y: PAGE_HEIGHT - 1164 }
    );
}

#[test]
fn layout_is_deterministic() {
    let list = members(6);
    let a = layout_receipts("March", &list);
    let b = layout_receipts("March", &list);
    assert_eq!(a, b);
}

#[test]
fn end_to_end_receipt_block() {
    let input: Vec<String> = vec![
        "Receipts export",
        "",
        "First Name,Last Name,Fee",
        "Jane,Doe,$ 50",
        "John,Smith,$ 75",
        "Mary,Major,$ 20",
        "Ann,Minor,$ 10",
        "Bob,Brown,$ 15",
        "Eve,Stone,$ 25",
    ]
    .iter()
    .map(|s| s.to_string())
    .collect();
    let list = extract_members(&input);
    let cmds = layout_receipts("March", &list);
    let texts: Vec<&str> = cmds
        .iter()
        .filter_map(|c| match c {
            Cmd::Text { content, .. } => Some(content.as_str()),
            _ => None,
        })
        .collect();
    let expected = ["Mutual Fund", "Period: March", "Name: Doe Jane", "Payment: $50", "Date:", "Signature:"];
    assert_eq!(&texts[0..6], &expected);
}
