use tmux_layout::config::{HSplitPart, Pane, Split, VSplitPart};
use tmux_layout::tmux::layout::{Layout, PaneGeom, Size};

fn pane(width: u32, height: u32) -> Layout {
    Layout::Pane(PaneGeom { size: Size { width, height }, x_offset: 0, y_offset: 0 })
}

fn group(width: u32, height: u32) -> PaneGeom {
    PaneGeom { size: Size { width, height }, x_offset: 0, y_offset: 0 }
}

fn plain() -> Box<Split> {
    Box::new(Split::Pane(Pane::default()))
}

fn count_panes(split: &Split) -> usize {
    let mut iter = split.pane_iter();
    let mut n = 0;
    while iter.next().is_some() {
        n += 1;
    }
    n
}

fn count_leaves(layout: &Layout) -> usize {
    match layout {
        Layout::Pane(_) => 1,
        Layout::H(_, members) | Layout::V(_, members) => members.iter().map(count_leaves).sum(),
    }
}

#[test]
fn two_columns_become_a_split_with_a_sized_right_side() {
    let layout = Layout::parse("abcd,80x24,0,0{40x24,0,0,1,39x24,41,0,2}").unwrap();
    assert_eq!(
        Split::from_layout(&layout),
        Split::H {
            left: HSplitPart { width: None, split: plain() },
            right: HSplitPart { width: Some("50%".to_string()), split: plain() },
        }
    );
}

#[test]
fn a_pane_becomes_the_plain_pane() {
    assert_eq!(Split::from_layout(&pane(80, 24)), Split::default());
}

#[test]
fn an_empty_group_becomes_the_plain_pane() {
    assert_eq!(Split::from_layout(&Layout::H(group(80, 24), Vec::new())), Split::default());
    assert_eq!(Split::from_layout(&Layout::V(group(80, 24), Vec::new())), Split::default());
}

#[test]
fn three_rows_nest_to_the_bottom() {
    let layout = Layout::V(group(80, 50), vec![pane(80, 10), pane(80, 19), pane(80, 19)]);
    // The lower two rows are 19 of 19 + 19 - 1 = 37 cells: 51%.
    // Together they are 37 of 37 + 10 - 1 = 46 cells: 80%.
    assert_eq!(
        Split::from_layout(&layout),
        Split::V {
            top: VSplitPart { height: None, split: plain() },
            bottom: VSplitPart {
                height: Some("80%".to_string()),
                split: Box::new(Split::V {
                    top: VSplitPart { height: None, split: plain() },
                    bottom: VSplitPart { height: Some("51%".to_string()), split: plain() },
                }),
            },
        }
    );
}

#[test]
fn percentages_round_to_the_nearest() {
    // 1 of 1 + 2 - 1 = 2 cells is one half.
    let half = Split::from_layout(&Layout::H(group(3, 1), vec![pane(2, 1), pane(1, 1)]));
    assert_eq!(
        half,
        Split::H {
            left: HSplitPart { width: None, split: plain() },
            right: HSplitPart { width: Some("50%".to_string()), split: plain() },
        }
    );
    // 1 of 1 + 8 - 1 = 8 cells is 12.5%, which rounds up.
    let eighth = Split::from_layout(&Layout::H(group(9, 1), vec![pane(8, 1), pane(1, 1)]));
    assert_eq!(
        eighth,
        Split::H {
            left: HSplitPart { width: None, split: plain() },
            right: HSplitPart { width: Some("13%".to_string()), split: plain() },
        }
    );
    // 200 of 200 + 200 - 1 = 399 cells is 50.1%.
    let wide = Split::from_layout(&Layout::H(group(401, 1), vec![pane(200, 1), pane(200, 1)]));
    assert_eq!(
        wide,
        Split::H {
            left: HSplitPart { width: None, split: plain() },
            right: HSplitPart { width: Some("50%".to_string()), split: plain() },
        }
    );
}

#[test]
fn a_whole_of_no_cells_has_no_percentage() {
    let split = Split::from_layout(&Layout::H(group(0, 1), vec![pane(1, 1), pane(0, 1)]));
    assert_eq!(
        split,
        Split::H {
            left: HSplitPart { width: None, split: plain() },
            right: HSplitPart { width: None, split: plain() },
        }
    );
}

#[test]
fn the_largest_widths_are_counted_exactly() {
    let split =
        Split::from_layout(&Layout::H(group(0, 1), vec![pane(4294967295, 1), pane(4294967295, 1)]));
    assert_eq!(
        split,
        Split::H {
            left: HSplitPart { width: None, split: plain() },
            right: HSplitPart { width: Some("50%".to_string()), split: plain() },
        }
    );
}

#[test]
fn nested_groups_keep_their_axis() {
    let layout = Layout::parse(
        "4264,401x112,0,0{200x112,0,0[200x56,0,0,546,200x55,0,57,798],200x112,201,0,795}",
    )
    .unwrap();
    assert_eq!(
        Split::from_layout(&layout),
        Split::H {
            left: HSplitPart {
                width: None,
                split: Box::new(Split::V {
                    top: VSplitPart { height: None, split: plain() },
                    bottom: VSplitPart { height: Some("50%".to_string()), split: plain() },
                }),
            },
            right: HSplitPart { width: Some("50%".to_string()), split: plain() },
        }
    );
}

#[test]
fn conversion_keeps_the_number_of_panes() {
    let descriptor = "4264,401x112,0,0{200x112,0,0[200x56,0,0,546,200x55,0,57,798],200x112,201,0[200x56,201,0,795,200x55,201,57{100x55,201,57,796,99x55,302,57[99x27,302,57,797,99x27,302,85,799]}]}";
    let layout = Layout::parse(descriptor).unwrap();
    let split = Split::from_layout(&layout);
    assert_eq!(count_leaves(&layout), 6);
    assert_eq!(count_panes(&split), 6);
    assert_eq!(split.pane_count(), Some(6));
}
