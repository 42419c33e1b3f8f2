//! The focus-navigation engine: wrapping movement, nested layouts, and
//! the clamping behavior on edge states.

use gierm::layout::{TuiLayout, BlockType, block_type, block_type_to_u8};
use gierm::tui::create_layout;

fn standard() -> TuiLayout {
    let mut lo = TuiLayout::new();
    create_layout(&mut lo);
    lo
}

fn active_type(lo: &TuiLayout) -> BlockType {
    lo.active_block().expect("an active panel").block_type()
}

#[test]
fn tag_roundtrip() {
    for i in 0u8..9u8 {
        let bt = block_type(i);
        assert_eq!(block_type_to_u8(bt), i);
    }
    assert_eq!(block_type_to_u8(block_type(200)), 8);
}

#[test]
fn next_panel_k_times_returns_to_start() {
    let mut lo = standard();
    assert_eq!(active_type(&lo), BlockType::Profile);
    lo.next_block();
    assert_eq!(active_type(&lo), BlockType::Repos);
    lo.next_block();
    assert_eq!(active_type(&lo), BlockType::Search);
    lo.next_block();
    assert_eq!(active_type(&lo), BlockType::Profile);
}

#[test]
fn next_panel_cycles_from_any_start() {
    let mut lo = standard();
    lo.next_block();
    assert_eq!(active_type(&lo), BlockType::Repos);
    lo.next_block();
    lo.next_block();
    lo.next_block();
    assert_eq!(active_type(&lo), BlockType::Repos);
}

#[test]
fn prev_panel_wraps_backwards() {
    let mut lo = standard();
    lo.prev_block();
    assert_eq!(active_type(&lo), BlockType::Search);
    lo.prev_block();
    assert_eq!(active_type(&lo), BlockType::Repos);
    lo.prev_block();
    assert_eq!(active_type(&lo), BlockType::Profile);
}

#[test]
fn prev_column_at_zero_is_a_no_op() {
    let mut lo = standard();
    let before = lo.active_block_pos().col;
    assert_eq!(before, 0);
    lo.prev_col();
    assert_eq!(lo.active_block_pos().col, 0);
    assert_eq!(active_type(&lo), BlockType::Profile);
}

#[test]
fn next_column_and_back() {
    let mut lo = standard();
    lo.next_col();
    assert_eq!(lo.active_block_pos().col, 1);
    assert_eq!(active_type(&lo), BlockType::Info);
    lo.prev_col();
    assert_eq!(lo.active_block_pos().col, 0);
}

#[test]
fn column_cycles_around() {
    let mut lo = standard();
    lo.next_col();
    lo.next_col();
    assert_eq!(lo.active_block_pos().col, 0);
}

#[test]
fn entering_a_nested_layout_delegates_movement() {
    let mut lo = standard();
    lo.next_block();
    lo.next_block();
    assert_eq!(active_type(&lo), BlockType::Search);
    lo.select_layout();
    assert_eq!(active_type(&lo), BlockType::SearchUser);
    lo.next_block();
    assert_eq!(active_type(&lo), BlockType::SearchRepo);
    lo.next_block();
    assert_eq!(active_type(&lo), BlockType::SearchUser);
    assert!(lo.unselect_layout());
    assert_eq!(active_type(&lo), BlockType::Search);
    assert!(!lo.unselect_layout());
}

#[test]
fn select_layout_without_a_sublayout_is_a_no_op() {
    let mut lo = standard();
    assert_eq!(active_type(&lo), BlockType::Profile);
    lo.select_layout();
    assert_eq!(active_type(&lo), BlockType::Profile);
    assert!(!lo.unselect_layout());
}

#[test]
fn empty_layout_clamps_instead_of_panicking() {
    let mut lo = TuiLayout::new();
    lo.next_block();
    lo.prev_block();
    lo.next_col();
    lo.prev_col();
    lo.select_layout();
    assert!(lo.active_block().is_none());
    let mut one_col = TuiLayout::new();
    one_col.add_col();
    one_col.next_block();
    assert!(one_col.active_block().is_none());
}

#[test]
fn add_block_ignores_out_of_range_columns() {
    let mut lo = TuiLayout::new();
    lo.add_col();
    lo.add_block(BlockType::Profile, 5);
    assert!(lo.active_block().is_none());
    lo.add_block(BlockType::Profile, 0);
    assert_eq!(active_type(&lo), BlockType::Profile);
}

#[test]
fn print_status_reports_the_position() {
    let mut lo = standard();
    assert_eq!(lo.print_status(), "Row: 0, Col: 0");
    lo.next_block();
    assert_eq!(lo.print_status(), "Row: 1, Col: 0");
    lo.next_col();
    assert_eq!(lo.print_status(), "Row: 1, Col: 1");
}
