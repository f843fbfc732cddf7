use rev::widget_list::{SelectableWidgetList, WidgetListItem, WidgetListState};

fn state_at(offset_sel: Option<usize>) -> WidgetListState {
    let mut st = WidgetListState::new();
    st.select(offset_sel);
    st
}

#[test]
fn viewport_visibility_without_truncation() {
    let mut st = state_at(Some(4));
    assert_eq!(st.offset, 0);
    let heights: Vec<u16> = vec![3, 3, 3, 3, 3];
    let view = st.update_view_port(&heights, 7, false);
    assert_eq!(st.offset, 3);
    assert_eq!(view, vec![3, 3]);
    let total: u16 = view.iter().sum();
    assert!(total <= 7);
    assert!(st.offset <= 4 && 4 < st.offset + view.len());
}

#[test]
fn viewport_truncation_fills_exactly() {
    let mut st = state_at(Some(4));
    let heights: Vec<u16> = vec![3, 3, 3, 3, 3];
    let view = st.update_view_port(&heights, 7, true);
    assert_eq!(st.offset, 2);
    assert_eq!(view, vec![1, 3, 3]);
    let total: u16 = view.iter().sum();
    assert_eq!(total, 7);
    assert!(view[0] < 3);
}

#[test]
fn viewport_forward_truncation() {
    let mut st = state_at(Some(0));
    let heights: Vec<u16> = vec![3, 3, 3];
    let view = st.update_view_port(&heights, 7, true);
    assert_eq!(st.offset, 0);
    assert_eq!(view, vec![3, 3, 1]);
}

#[test]
fn viewport_whole_list_fits() {
    let mut st = state_at(Some(2));
    let heights: Vec<u16> = vec![2, 2, 2];
    let view = st.update_view_port(&heights, 10, true);
    assert_eq!(st.offset, 0);
    assert_eq!(view, vec![2, 2, 2]);
}

#[test]
fn viewport_empty_heights() {
    let mut st = WidgetListState::new();
    let heights: Vec<u16> = vec![];
    let view = st.update_view_port(&heights, 5, true);
    assert_eq!(st.offset, 0);
    assert!(view.is_empty());
}

#[test]
fn viewport_item_taller_than_view() {
    let mut st = state_at(Some(1));
    let heights: Vec<u16> = vec![10, 10];
    let view = st.update_view_port(&heights, 5, false);
    assert_eq!(st.offset, 2);
    assert!(view.is_empty());

    let mut st2 = state_at(Some(1));
    let view2 = st2.update_view_port(&heights, 5, true);
    assert_eq!(st2.offset, 1);
    assert_eq!(view2, vec![5]);
}

#[test]
fn viewport_selection_above_offset_rolls_up() {
    let mut st = WidgetListState::new();
    st.select(Some(4));
    let heights: Vec<u16> = vec![2, 2, 2, 2, 2];
    let view = st.update_view_port(&heights, 4, false);
    assert_eq!(st.offset, 4);
    assert_eq!(view, vec![2]);
    st.select(Some(0));
    let view = st.update_view_port(&heights, 4, false);
    assert_eq!(st.offset, 0);
    assert_eq!(view, vec![2, 2]);
}

#[test]
fn select_none_resets_offset() {
    let mut st = state_at(Some(4));
    let heights: Vec<u16> = vec![3, 3, 3, 3, 3];
    let _ = st.update_view_port(&heights, 7, false);
    assert_eq!(st.offset, 3);
    st.select(None);
    assert_eq!(st.offset, 0);
    assert_eq!(st.selected(), None);
}

#[test]
fn circular_navigation_wraps() {
    let mut list = SelectableWidgetList::new(vec![10u16, 20, 30]);
    list.next();
    assert_eq!(list.state.selected(), Some(0));
    list.next();
    assert_eq!(list.state.selected(), Some(1));
    list.next();
    assert_eq!(list.state.selected(), Some(2));
    list.next();
    assert_eq!(list.state.selected(), Some(0));
}

#[test]
fn non_circular_navigation_clamps() {
    let mut list = SelectableWidgetList::new(vec![10u16, 20, 30]).circular(false);
    list.next();
    list.next();
    list.next();
    assert_eq!(list.state.selected(), Some(2));
    list.next();
    assert_eq!(list.state.selected(), Some(2));
}

#[test]
fn previous_navigation_wraps_and_clamps() {
    let mut list = SelectableWidgetList::new(vec![1u16, 2, 3]);
    list.previous();
    assert_eq!(list.state.selected(), Some(0));
    list.previous();
    assert_eq!(list.state.selected(), Some(2));
    let mut clamped = SelectableWidgetList::new(vec![1u16, 2, 3]).circular(false);
    clamped.previous();
    clamped.previous();
    assert_eq!(clamped.state.selected(), Some(0));
}

#[test]
fn navigation_on_empty_list_is_a_no_op() {
    let mut list: SelectableWidgetList<u16> = SelectableWidgetList::new(vec![]);
    list.next();
    assert_eq!(list.state.selected(), None);
    list.previous();
    assert_eq!(list.state.selected(), None);
}

#[test]
fn get_selected_returns_the_item() {
    let mut list = SelectableWidgetList::new(vec![10u16, 20, 30]);
    assert_eq!(list.get_selected(), None);
    list.next();
    list.next();
    assert_eq!(list.get_selected(), Some(&20));
}

#[test]
fn widget_list_item_holds_content_and_height() {
    let item = WidgetListItem::new("a widget", 4u16);
    assert_eq!(item.content, "a widget");
    assert_eq!(item.height, 4);
}

#[test]
fn viewport_selection_on_empty_list() {
    let mut st = WidgetListState::new();
    st.select(Some(0));
    let heights: Vec<u16> = vec![];
    let view = st.update_view_port(&heights, 5, false);
    assert!(view.is_empty());
    assert_eq!(st.offset, 0);
    assert_eq!(st.selected(), Some(0));
}
