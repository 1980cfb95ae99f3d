use navipod::ui::keyboard::{
    kb_col_of, kb_key, kb_nav_down, kb_nav_left, kb_nav_right, kb_nav_up, kb_row_of, type_key,
    KB_BACKSPACE, KB_SUBMIT, KB_TOTAL,
};

#[test]
fn keys_in_row_order() {
    let labels: Vec<&str> = (0..KB_TOTAL).map(|i| kb_key(i).unwrap()).collect();
    assert_eq!(labels.concat(), "QWERTYUIOPASDFGHJKLZXCVBNM⌫ ✓");
    assert_eq!(kb_key(-1), None);
    assert_eq!(kb_key(29), None);
    assert_eq!(kb_key(KB_BACKSPACE), Some("⌫"));
    assert_eq!(kb_key(KB_SUBMIT), Some("✓"));
}

#[test]
fn rows_and_columns_of_keys() {
    for (idx, row, col) in [(0, 0, 0), (9, 0, 9), (10, 1, 0), (18, 1, 8), (19, 2, 0), (25, 2, 6), (26, 3, 0), (28, 3, 2)] {
        assert_eq!((kb_row_of(idx), kb_col_of(idx)), (row, col), "{idx}");
    }
    assert_eq!(kb_row_of(-5), 0);
    assert_eq!(kb_col_of(40), 14);
}

#[test]
fn left_and_right_stop_at_the_ends() {
    assert_eq!(kb_nav_right(0), 1);
    assert_eq!(kb_nav_right(9), 10);
    assert_eq!(kb_nav_right(28), 28);
    assert_eq!(kb_nav_left(28), 27);
    assert_eq!(kb_nav_left(0), 0);
    for idx in 0..KB_TOTAL - 1 {
        assert_eq!(kb_nav_left(kb_nav_right(idx)), idx);
    }
}

#[test]
fn up_and_down_keep_the_column_where_they_can() {
    assert_eq!(kb_nav_down(0), 10);
    assert_eq!(kb_nav_down(9), 18);
    assert_eq!(kb_nav_down(18), 25);
    assert_eq!(kb_nav_down(25), 28);
    assert_eq!(kb_nav_down(27), 27);
    assert_eq!(kb_nav_up(27), 20);
    assert_eq!(kb_nav_up(10), 0);
    assert_eq!(kb_nav_up(5), 5);
    for idx in 10..KB_TOTAL {
        assert_eq!(kb_nav_down(kb_nav_up(idx)), idx);
    }
}

#[test]
fn moves_stay_on_the_keyboard() {
    for idx in 0..KB_TOTAL {
        for next in [kb_nav_left(idx), kb_nav_right(idx), kb_nav_up(idx), kb_nav_down(idx)] {
            assert!((0..KB_TOTAL).contains(&next));
        }
    }
}

#[test]
fn typing_and_taking_back() {
    assert_eq!(type_key("AB", 2), "ABE");
    assert_eq!(type_key("AB", 27), "AB ");
    assert_eq!(type_key("AB", KB_BACKSPACE), "A");
    assert_eq!(type_key("é✓", KB_BACKSPACE), "é");
    assert_eq!(type_key("", KB_BACKSPACE), "");
    assert_eq!(type_key("AB", 99), "AB");
    assert_eq!(type_key(&type_key("AB", 0), KB_BACKSPACE), "AB");
}
