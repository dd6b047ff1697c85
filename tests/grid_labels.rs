use cursor_mover::grid::{
    primary_label, resolve_primary, resolve_primary_pair, resolve_sub, resolve_sub_pair,
    sub_label, Cell, GRID_COLS, GRID_ROWS, SUB_COLS, SUB_ROWS,
};

#[test]
fn every_primary_code_names_its_own_cell() {
    let mut seen = std::collections::HashSet::new();
    for row in 0..GRID_ROWS {
        for col in 0..GRID_COLS {
            let cell = Cell { row, col };
            let code = primary_label(cell);
            assert_eq!(code.chars().count(), 2);
            assert!(seen.insert(code.clone()), "duplicate code {}", code);
            assert_eq!(resolve_primary(&code), Some(cell));
        }
    }
    assert_eq!(seen.len(), 169);
}

#[test]
fn every_sub_code_names_its_own_cell() {
    let mut seen = std::collections::HashSet::new();
    for row in 0..SUB_ROWS {
        for col in 0..SUB_COLS {
            let cell = Cell { row, col };
            let code = sub_label(cell);
            assert!(seen.insert(code.clone()), "duplicate code {}", code);
            assert_eq!(resolve_sub(&code), Some(cell));
        }
    }
    assert_eq!(seen.len(), 24);
}

#[test]
fn labels_are_the_expected_letters() {
    assert_eq!(primary_label(Cell { row: 0, col: 0 }), "aa");
    assert_eq!(primary_label(Cell { row: 4, col: 3 }), "ed");
    assert_eq!(primary_label(Cell { row: 12, col: 12 }), "mm");
    assert_eq!(sub_label(Cell { row: 0, col: 0 }), "ed");
    assert_eq!(sub_label(Cell { row: 1, col: 2 }), "ff");
    assert_eq!(sub_label(Cell { row: 3, col: 5 }), "hi");
}

#[test]
fn primary_lookup_examples() {
    assert_eq!(resolve_primary("ed"), Some(Cell { row: 4, col: 3 }));
    assert_eq!(resolve_primary("ma"), Some(Cell { row: 12, col: 0 }));
    assert_eq!(resolve_primary_pair('a', 'm'), Some(Cell { row: 0, col: 12 }));
}

#[test]
fn primary_lookup_rejects_other_codes() {
    assert_eq!(resolve_primary("an"), None);
    assert_eq!(resolve_primary("na"), None);
    assert_eq!(resolve_primary("Aa"), None);
    assert_eq!(resolve_primary("a"), None);
    assert_eq!(resolve_primary("aaa"), None);
    assert_eq!(resolve_primary(""), None);
    assert_eq!(resolve_primary("1a"), None);
    assert_eq!(resolve_primary_pair('é', 'a'), None);
}

#[test]
fn sub_lookup_examples() {
    assert_eq!(resolve_sub("ff"), Some(Cell { row: 1, col: 2 }));
    assert_eq!(resolve_sub("ed"), Some(Cell { row: 0, col: 0 }));
    assert_eq!(resolve_sub_pair('h', 'i'), Some(Cell { row: 3, col: 5 }));
}

#[test]
fn sub_lookup_rejects_other_codes() {
    assert_eq!(resolve_sub("aa"), None);
    assert_eq!(resolve_sub("ec"), None);
    assert_eq!(resolve_sub("ej"), None);
    assert_eq!(resolve_sub("id"), None);
    assert_eq!(resolve_sub("f"), None);
    assert_eq!(resolve_sub_pair('d', 'd'), None);
}
