use n_tetris::color::{Color, NColor};
use n_tetris::geometry::{NLocalPosition, NPosition, NSize};
use n_tetris::ui::{Label, Padding, Spacing};

#[test]
fn pairs_become_coordinates() {
    let p: NPosition = (3, 4).into();
    assert_eq!((p.x, p.y), (3, 4));
    let l: NLocalPosition = (10, 10).into();
    assert_eq!((l.x, l.y), (10, 10));
    let s: NSize = (5, 1).into();
    assert_eq!((s.x, s.y), (5, 1));
}

#[test]
fn colors_convert_both_ways() {
    let index: u8 = Color::Magenta.into();
    assert_eq!(index, 5);
    let token: NColor = (Color::Red, Color::White).into();
    assert_eq!(token.color, 241);
    let byte: u8 = token.into();
    assert_eq!(byte, 241);
    let pair: (Color, Color) = token.into();
    assert_eq!(pair, (Color::Red, Color::White));
}

#[test]
fn counts_convert_both_ways() {
    let p: Padding = 2u16.into();
    assert_eq!(p, Padding(2));
    let n: u16 = Spacing(7).into();
    assert_eq!(n, 7);
    let s: Spacing = 1u16.into();
    assert_eq!(s, Spacing(1));
    let m: u16 = Padding(4).into();
    assert_eq!(m, 4);
    let label: Label = "text".to_string().into();
    assert_eq!(label.text, "text");
}
