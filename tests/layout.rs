use n_tetris::color::{Color, NColor};
use n_tetris::frame::{apply_input, InputEvent};
use n_tetris::geometry::{NLocalPosition, NPosition, NSize, WindowSize};
use n_tetris::layout::LayoutError;
use n_tetris::store::{WidgetId, WidgetStore};
use n_tetris::ui::{ButtonBundle, LabelBundle, Padding, Spacing, VBoxBundle};

fn boxed(store: &mut WidgetStore, at: (u16, u16), padding: u16, spacing: u16) -> WidgetId {
    let vbox = VBoxBundle::new(NPosition::new(at.0, at.1))
        .with_padding(Padding(padding))
        .with_spacing(Spacing(spacing));
    store.spawn(vbox.into_widget())
}

fn leaf(store: &mut WidgetStore, parent: WidgetId, text: &str) -> WidgetId {
    let label = LabelBundle::new_text(text.to_string());
    store.spawn_child(parent, label.into_widget()).unwrap()
}

fn position(store: &WidgetStore, id: WidgetId) -> NPosition {
    store.get(id).unwrap().position
}

fn size(store: &WidgetStore, id: WidgetId) -> NSize {
    store.get(id).unwrap().size
}

#[test]
fn container_stacks_two_children() {
    let mut store = WidgetStore::new();
    let c = boxed(&mut store, (10, 10), 1, 1);
    let a = leaf(&mut store, c, "first");
    let b = leaf(&mut store, c, "other");
    assert_eq!(size(&store, a), NSize::new(5, 1));
    assert_eq!(store.resolve_layout(), Ok(()));
    assert_eq!(position(&store, a), NPosition::new(11, 11));
    assert_eq!(position(&store, b), NPosition::new(11, 13));
    assert_eq!(size(&store, c), NSize::new(6, 4));
    assert_eq!(position(&store, c), NPosition::new(10, 10));
}

#[test]
fn children_keep_their_local_offsets() {
    let mut store = WidgetStore::new();
    let c = boxed(&mut store, (0, 0), 2, 3);
    let a = leaf(&mut store, c, "ab");
    let b = leaf(&mut store, c, "abcd");
    assert!(store.set_local_position(a, NLocalPosition::new(1, 1)));
    assert!(store.set_local_position(b, NLocalPosition::new(4, 2)));
    assert_eq!(store.resolve_layout(), Ok(()));
    assert_eq!(position(&store, a), NPosition::new(3, 3));
    // cursor: padding 2, then height 1 and spacing 3 of the first child
    assert_eq!(position(&store, b), NPosition::new(6, 8));
    // the offsets are not part of the width: child width plus padding
    assert_eq!(size(&store, c), NSize::new(6, 10));
}

#[test]
fn stacked_rows_grow_by_height_and_spacing() {
    let mut store = WidgetStore::new();
    let c = boxed(&mut store, (5, 7), 0, 2);
    let ids: Vec<WidgetId> = ["a", "bb", "ccc", "dddd"].iter().map(|t| leaf(&mut store, c, t)).collect();
    assert_eq!(store.resolve_layout(), Ok(()));
    for pair in ids.windows(2) {
        let upper = position(&store, pair[0]);
        let lower = position(&store, pair[1]);
        assert_eq!(lower.y, upper.y + 1 + 2);
        assert!(upper.x >= 5 && upper.y >= 7);
    }
    assert_eq!(size(&store, c), NSize::new(4, 9));
}

#[test]
fn resolving_twice_changes_nothing() {
    let mut store = WidgetStore::new();
    let c = boxed(&mut store, (3, 2), 1, 0);
    let a = leaf(&mut store, c, "one");
    let b = leaf(&mut store, c, "three");
    assert_eq!(store.resolve_layout(), Ok(()));
    let first = (position(&store, a), position(&store, b), size(&store, c));
    assert_eq!(store.resolve_layout(), Ok(()));
    let second = (position(&store, a), position(&store, b), size(&store, c));
    assert_eq!(first, second);
}

#[test]
fn nested_container_settles_one_frame_later() {
    let mut store = WidgetStore::new();
    let outer = boxed(&mut store, (2, 1), 0, 0);
    let inner_bundle = VBoxBundle::default().with_local_position(NLocalPosition::new(10, 10));
    let inner = store.spawn_child(outer, inner_bundle.into_widget()).unwrap();
    let label = leaf(&mut store, inner, "Hello world");
    assert_eq!(store.resolve_layout(), Ok(()));
    assert_eq!(position(&store, inner), NPosition::new(12, 11));
    // the label was placed against the inner container's previous position
    assert_eq!(position(&store, label), NPosition::new(0, 0));
    assert_eq!(store.resolve_layout(), Ok(()));
    assert_eq!(position(&store, label), NPosition::new(12, 11));
}

#[test]
fn label_size_follows_text_changes() {
    let mut store = WidgetStore::new();
    let id = store.spawn(LabelBundle::new("Hi".to_string(), NPosition::new(0, 0)).into_widget());
    assert_eq!(size(&store, id), NSize::new(2, 1));
    assert!(store.set_text(id, "Hello".to_string()));
    assert!(store.is_changed(id));
    store.update_label_size();
    assert_eq!(size(&store, id), NSize::new(5, 1));
    assert!(!store.is_changed(id));
}

#[test]
fn text_change_resizes_before_layout() {
    let mut store = WidgetStore::new();
    let c = boxed(&mut store, (0, 0), 1, 0);
    let a = leaf(&mut store, c, "Hi");
    assert!(store.update_frame().is_ok());
    assert_eq!(size(&store, c), NSize::new(3, 2));
    assert!(store.set_text(a, "Hello".to_string()));
    assert!(store.update_frame().is_ok());
    assert_eq!(size(&store, a), NSize::new(5, 1));
    assert_eq!(size(&store, c), NSize::new(6, 2));
}

#[test]
fn set_text_attaches_text() {
    let mut store = WidgetStore::new();
    let c = boxed(&mut store, (0, 0), 0, 0);
    let plain = store.spawn(VBoxBundle::default().into_widget());
    assert!(store.get(plain).unwrap().label.is_none());
    assert!(store.set_text(plain, "abc".to_string()));
    assert_eq!(store.get(plain).unwrap().label.as_ref().unwrap().text, "abc");
    store.update_label_size();
    assert_eq!(size(&store, plain), NSize::new(3, 1));
    assert!(!store.set_text(99, "x".to_string()));
    assert!(store.contains(c));
}

#[test]
fn text_and_color_can_be_removed() {
    let mut store = WidgetStore::new();
    let c = boxed(&mut store, (0, 0), 0, 0);
    let a = leaf(&mut store, c, "a");
    let b = leaf(&mut store, c, "b");
    assert_eq!(store.update_frame().unwrap().len(), 2);
    assert!(store.remove_text(a));
    assert!(store.get(a).unwrap().label.is_none());
    assert!(store.remove_color(b));
    assert!(store.get(b).unwrap().color.is_none());
    assert_eq!(store.update_frame().unwrap().len(), 0);
    assert!(!store.remove_text(42));
    assert!(!store.remove_color(42));
}

#[test]
fn changed_label_gets_height_one() {
    let mut store = WidgetStore::new();
    let mut widget = LabelBundle::new_text("Hi".to_string()).into_widget();
    widget.size = NSize::new(2, 2);
    let id = store.spawn(widget);
    store.update_label_size();
    assert_eq!(size(&store, id), NSize::new(2, 1));
    assert!(store.set_text(id, "Hello".to_string()));
    store.update_label_size();
    assert_eq!(size(&store, id), NSize::new(5, 1));
}

#[test]
fn childless_container_is_at_least_its_padding() {
    let mut store = WidgetStore::new();
    let c = boxed(&mut store, (4, 4), 2, 1);
    assert_eq!(store.resolve_layout(), Ok(()));
    assert_eq!(size(&store, c), NSize::new(2, 2));
    let wide = store.spawn(VBoxBundle::new(NPosition::new(0, 0)).with_padding(Padding(1)).into_widget());
    assert_eq!(store.resolve_layout(), Ok(()));
    assert_eq!(size(&store, wide), NSize::new(1, 1));
    assert_eq!(size(&store, c), NSize::new(2, 2));
}

#[test]
fn overflow_elsewhere_still_places_this_container() {
    let mut store = WidgetStore::new();
    let far = boxed(&mut store, (65535, 0), 1, 0);
    let lost = leaf(&mut store, far, "x");
    let c = boxed(&mut store, (10, 10), 1, 1);
    let a = leaf(&mut store, c, "first");
    let b = leaf(&mut store, c, "other");
    assert_eq!(store.resolve_layout(), Err(LayoutError::Overflow));
    assert_eq!(position(&store, a), NPosition::new(11, 11));
    assert_eq!(position(&store, b), NPosition::new(11, 13));
    // the container that cannot fit its child places none of them
    assert_eq!(position(&store, lost), NPosition::new(0, 0));
}

#[test]
fn click_hits_the_widget_under_the_pointer() {
    let mut store = WidgetStore::new();
    store.spawn(LabelBundle::new("plain".to_string(), NPosition::new(11, 11)).into_widget());
    let button = store.spawn(ButtonBundle::new("press".to_string(), NPosition::new(11, 11)).into_widget());
    assert_eq!(size(&store, button), NSize::new(5, 1));
    assert_eq!(store.dispatch_click(12, 11), Some(button));
    assert_eq!(store.dispatch_click(16, 11), None);
    assert_eq!(store.dispatch_click(11, 12), None);
    assert_eq!(store.dispatch_click(11, 11), Some(button));
}

#[test]
fn overlapping_clickables_go_to_the_first_created() {
    let mut store = WidgetStore::new();
    let first = store.spawn(ButtonBundle::new("aaaa".to_string(), NPosition::new(0, 0)).into_widget());
    let second = store.spawn(ButtonBundle::new("bb".to_string(), NPosition::new(1, 0)).into_widget());
    assert_eq!(store.dispatch_click(1, 0), Some(first));
    assert_eq!(store.dispatch_click(4, 0), None);
    assert!(store.set_clickable(first, false));
    assert_eq!(store.dispatch_click(1, 0), Some(second));
}

#[test]
fn input_events_update_window_or_route_clicks() {
    let mut store = WidgetStore::new();
    let button = store.spawn(ButtonBundle::new("press".to_string(), NPosition::new(11, 11)).into_widget());
    let mut window = WindowSize { width: 80, height: 24 };
    assert_eq!(apply_input(&mut window, &store, InputEvent::PointerClick { x: 12, y: 11 }), Some(button));
    assert_eq!(apply_input(&mut window, &store, InputEvent::PointerClick { x: 16, y: 11 }), None);
    assert_eq!(apply_input(&mut window, &store, InputEvent::PointerLost), None);
    assert_eq!(apply_input(&mut window, &store, InputEvent::Other), None);
    assert_eq!(window, WindowSize { width: 80, height: 24 });
    assert_eq!(apply_input(&mut window, &store, InputEvent::Resize { width: 100, height: 30 }), None);
    assert_eq!(window, WindowSize { width: 100, height: 30 });
}

#[test]
fn removed_container_leaves_orphans_that_fail_layout() {
    let mut store = WidgetStore::new();
    let c = boxed(&mut store, (10, 10), 1, 1);
    let a = leaf(&mut store, c, "child");
    assert!(store.despawn(c));
    assert!(!store.contains(c));
    assert!(store.contains(a));
    assert_eq!(store.parent_of(a), Some(c));
    assert_eq!(store.find_orphan(), Some(a));
    let other = boxed(&mut store, (3, 3), 0, 0);
    let b = leaf(&mut store, other, "kept");
    assert_eq!(store.resolve_layout(), Err(LayoutError::MissingParent(a)));
    // placing still happened for the live container
    assert_eq!(position(&store, b), NPosition::new(3, 3));
    assert_eq!(position(&store, a), NPosition::new(0, 0));
    assert!(matches!(store.update_frame(), Err(LayoutError::MissingParent(_))));
}

#[test]
fn removed_child_leaves_its_parent() {
    let mut store = WidgetStore::new();
    let c = boxed(&mut store, (0, 0), 0, 0);
    let a = leaf(&mut store, c, "a");
    let b = leaf(&mut store, c, "b");
    let d = leaf(&mut store, c, "d");
    assert!(store.despawn(b));
    assert_eq!(store.children_of(c), vec![a, d]);
    assert!(!store.despawn(b));
    assert_eq!(store.resolve_layout(), Ok(()));
    assert_eq!(position(&store, d), NPosition::new(0, 1));
    assert_eq!(store.children_of(b), Vec::<WidgetId>::new());
}

#[test]
fn only_containers_take_children() {
    let mut store = WidgetStore::new();
    let label = store.spawn(LabelBundle::new_text("x".to_string()).into_widget());
    assert_eq!(store.spawn_child(label, LabelBundle::new_text("y".to_string()).into_widget()), None);
    assert_eq!(store.spawn_child(7, LabelBundle::new_text("y".to_string()).into_widget()), None);
    assert_eq!(store.len(), 1);
}

#[test]
fn children_are_not_placed_by_hand() {
    let mut store = WidgetStore::new();
    let c = boxed(&mut store, (0, 0), 0, 0);
    let a = leaf(&mut store, c, "a");
    assert!(!store.set_position(a, NPosition::new(5, 5)));
    assert!(store.set_position(c, NPosition::new(5, 5)));
    assert_eq!(store.resolve_layout(), Ok(()));
    assert_eq!(position(&store, a), NPosition::new(5, 5));
}

#[test]
fn layout_beyond_the_grid_is_refused() {
    let mut store = WidgetStore::new();
    let c = boxed(&mut store, (65535, 0), 1, 0);
    leaf(&mut store, c, "x");
    assert_eq!(store.resolve_layout(), Err(LayoutError::Overflow));

    let mut store = WidgetStore::new();
    let c = boxed(&mut store, (0, 65530), 2, 3);
    leaf(&mut store, c, "x");
    leaf(&mut store, c, "y");
    assert_eq!(store.resolve_layout(), Err(LayoutError::Overflow));
}

#[test]
fn container_grows_above_its_row() {
    let mut store = WidgetStore::new();
    let outer = boxed(&mut store, (0, 20), 0, 0);
    let c = store.spawn_child(outer, VBoxBundle::default().with_padding(Padding(1)).into_widget()).unwrap();
    assert!(store.set_padding(c, Padding(2)));
    assert!(store.set_spacing(c, Spacing(0)));
    // the child is placed against the inner container's old row 0, at row 2,
    // while the container itself moves to row 20
    let a = leaf(&mut store, c, "abc");
    assert_eq!(store.resolve_layout(), Ok(()));
    assert_eq!(position(&store, a), NPosition::new(2, 2));
    assert_eq!(position(&store, c), NPosition::new(0, 20));
    // the height bounds the distance up to the child's row, plus the padding
    assert_eq!(size(&store, c), NSize::new(5, 20));
    // next frame the child follows; a container never shrinks
    assert_eq!(store.resolve_layout(), Ok(()));
    assert_eq!(position(&store, a), NPosition::new(2, 22));
    assert_eq!(size(&store, c), NSize::new(5, 20));
}

#[test]
fn draw_list_holds_painted_widgets_in_order() {
    let mut store = WidgetStore::new();
    let c = boxed(&mut store, (1, 1), 0, 0);
    let a = leaf(&mut store, c, "top");
    let red = NColor::new(Color::Red, Color::White);
    assert!(store.set_color(a, red));
    leaf(&mut store, c, "low");
    let draws = store.update_frame().unwrap();
    assert_eq!(draws.len(), 2);
    assert_eq!((draws[0].x, draws[0].y, draws[0].text.as_str()), (1, 1, "top"));
    assert_eq!(draws[0].color, red.color);
    assert!(!draws[0].bold);
    assert_eq!((draws[1].x, draws[1].y, draws[1].text.as_str()), (1, 2, "low"));
    assert_eq!(draws[1].color, 0);
}
