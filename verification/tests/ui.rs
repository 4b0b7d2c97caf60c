use llama_specs::ui::{osc8_label_cells, HyperlinkCells};

#[test]
fn label_is_right_aligned_inside_the_border() {
    // An 80-column header at (0, 0): a 15-cell label ends one cell before the
    // right border, in columns 64..=78.
    assert_eq!(
        osc8_label_cells(0, 0, 80, 3, 15),
        Some(HyperlinkCells { row: 0, open_col: 64, close_col: Some(78) })
    );
    // Offsets carry over.
    assert_eq!(
        osc8_label_cells(10, 5, 40, 3, 15),
        Some(HyperlinkCells { row: 5, open_col: 34, close_col: Some(48) })
    );
}

#[test]
fn empty_area_gets_no_link() {
    assert_eq!(osc8_label_cells(0, 0, 0, 3, 15), None);
    assert_eq!(osc8_label_cells(0, 0, 80, 0, 15), None);
}

#[test]
fn narrow_area_starts_at_zero() {
    // Too narrow for the label: it starts at column 0 and its end lies
    // outside the area, so no closing sequence.
    assert_eq!(
        osc8_label_cells(0, 0, 10, 3, 15),
        Some(HyperlinkCells { row: 0, open_col: 0, close_col: None })
    );
    // Exactly wide enough for label and border.
    assert_eq!(
        osc8_label_cells(0, 0, 16, 3, 15),
        Some(HyperlinkCells { row: 0, open_col: 0, close_col: Some(14) })
    );
}

#[test]
fn empty_label_closes_before_it_opens() {
    assert_eq!(
        osc8_label_cells(0, 0, 80, 3, 0),
        Some(HyperlinkCells { row: 0, open_col: 79, close_col: Some(78) })
    );
    assert_eq!(
        osc8_label_cells(0, 0, 2, 1, 0),
        Some(HyperlinkCells { row: 0, open_col: 1, close_col: Some(0) })
    );
    assert_eq!(osc8_label_cells(0, 0, 0, 1, 0), None);
}
