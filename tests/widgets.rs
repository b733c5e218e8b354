use n_tetris::color::{Color, NColor};
use n_tetris::geometry::{check_bounds, NLocalPosition, NPosition, NSize};
use n_tetris::ui::{text_width, ButtonBundle, Label, LabelBundle, Padding, Spacing, VBoxBundle};

#[test]
fn hit_test_half_open_rectangle() {
    let pos = NPosition::new(11, 11);
    let size = NSize::new(5, 1);
    assert!(check_bounds((11, 11), &pos, &size));
    assert!(check_bounds((12, 11), &pos, &size));
    assert!(check_bounds((15, 11), &pos, &size));
    assert!(!check_bounds((16, 11), &pos, &size));
    assert!(!check_bounds((11, 12), &pos, &size));
    assert!(!check_bounds((10, 11), &pos, &size));
    assert!(!check_bounds((-1, -1), &pos, &size));
}

#[test]
fn hit_test_empty_rectangle_never_matches() {
    let pos = NPosition::new(3, 4);
    assert!(!check_bounds((3, 4), &pos, &NSize::new(0, 1)));
    assert!(!check_bounds((3, 4), &pos, &NSize::new(2, 0)));
}

#[test]
fn hit_test_at_the_far_corner_of_the_grid() {
    let pos = NPosition::new(65535, 65535);
    let size = NSize::new(65535, 65535);
    assert!(check_bounds((65535, 65535), &pos, &size));
    assert!(check_bounds((131069, 131069), &pos, &size));
    assert!(!check_bounds((131070, 65535), &pos, &size));
}

#[test]
fn label_is_sized_from_its_text() {
    let label = LabelBundle::new("Hi".to_string(), NPosition::new(2, 3));
    assert_eq!(label.size, NSize::new(2, 1));
    assert_eq!(label.position, NPosition::new(2, 3));
    assert_eq!(label.label.text, "Hi");
    let label = label.with_text("Hello".to_string());
    assert_eq!(label.size, NSize::new(5, 1));
    assert_eq!(label.position, NPosition::new(2, 3));
}

#[test]
fn text_width_counts_characters() {
    assert_eq!(text_width(&"".to_string()), 0);
    assert_eq!(text_width(&"h\u{e9}llo".to_string()), 5);
}

#[test]
fn label_builders_set_each_attribute() {
    let label = LabelBundle::new_text("abc".to_string())
        .with_color(NColor::new(Color::Red, Color::White))
        .with_position(NPosition::new(4, 5));
    assert_eq!(label.color.color, 0b1111_0001);
    assert_eq!(label.position, NPosition::new(4, 5));
    assert_eq!(label.local_position, NLocalPosition::new(0, 0));
    assert_eq!(label.size, NSize::new(3, 1));
    assert_eq!(Label::new("x".to_string()).text, "x");
}

#[test]
fn button_is_a_clickable_label() {
    let button = ButtonBundle::new("OK".to_string(), NPosition::new(1, 2))
        .with_color(NColor::new(Color::Green, Color::Black));
    assert_eq!(button.label.size, NSize::new(2, 1));
    assert_eq!(button.label.color.colors(), (Color::Green, Color::Black));
    let widget = button.into_widget();
    assert!(widget.clickable);
    assert!(!widget.vbox);
    let plain = ButtonBundle::new_with(LabelBundle::new_text("go".to_string()));
    assert_eq!(plain.label.label.text, "go");
    assert_eq!(ButtonBundle::new_text("go".to_string()).label.size, NSize::new(2, 1));
}

#[test]
fn vbox_builders_set_each_attribute() {
    let vbox = VBoxBundle::new(NPosition::new(2, 1))
        .with_padding(Padding(3))
        .with_spacing(Spacing(2))
        .with_local_position(NLocalPosition::new(10, 10));
    assert_eq!(vbox.position, NPosition::new(2, 1));
    assert_eq!(vbox.padding, Padding(3));
    assert_eq!(vbox.spacing, Spacing(2));
    assert_eq!(vbox.local_position, NLocalPosition::new(10, 10));
    assert_eq!(vbox.size, NSize::new(0, 0));
    let widget = vbox.with_position(NPosition::new(0, 9)).into_widget();
    assert!(widget.vbox);
    assert_eq!(widget.padding, 3);
    assert_eq!(widget.spacing, 2);
    assert_eq!(widget.position, NPosition::new(0, 9));
}

#[test]
fn default_label_is_empty_at_origin() {
    let label = LabelBundle::default();
    assert_eq!(label.label.text, "");
    assert_eq!(label.position, NPosition::new(0, 0));
    assert_eq!(label.size, NSize::new(0, 0));
    assert_eq!(label.color.color, 0);
}
