use n_tetris::color::{color_num, color_pairs, is_bold, Color, NColor};

const ALL: [Color; 8] = [
    Color::Black,
    Color::Red,
    Color::Green,
    Color::Yellow,
    Color::Blue,
    Color::Magenta,
    Color::Cyan,
    Color::White,
];

#[test]
fn decode_inverts_encode_for_every_pair() {
    for fg in ALL {
        for bg in ALL {
            let token = NColor::new(fg, bg);
            assert_eq!(token.colors(), (fg, bg));
        }
    }
}

#[test]
fn encode_packs_mark_background_and_foreground() {
    assert_eq!(NColor::new(Color::Red, Color::White).color, 0b1111_0001);
    assert_eq!(NColor::new(Color::Black, Color::Black).color, 0b1000_0000);
    assert_eq!(NColor::new(Color::White, Color::Blue).color, 0b1100_0111);
}

#[test]
fn color_num_keeps_three_bits_of_each_index() {
    assert_eq!(color_num(9, 10), 128 + 2 * 16 + 1);
    assert_eq!(color_num(7, 7), 247);
}

#[test]
fn color_indices_round_trip() {
    for (k, c) in ALL.iter().enumerate() {
        assert_eq!(c.index() as usize, k);
        assert_eq!(Color::from_index(k as u8), *c);
    }
}

#[test]
fn emphasis_bit_is_tested_for_non_zero() {
    assert!(is_bold(0b0000_1000));
    assert!(is_bold(0b1000_1111));
    assert!(!is_bold(0b1111_0111));
    assert!(!NColor::new(Color::Red, Color::Green).is_bold());
}

#[test]
fn default_token_is_unset() {
    let token = NColor::default();
    assert_eq!(token.color, 0);
    assert_eq!(token.colors(), (Color::Black, Color::Black));
    assert!(!token.is_bold());
}

#[test]
fn color_pairs_cover_every_combination() {
    let pairs = color_pairs();
    assert_eq!(pairs.len(), 64);
    assert_eq!(pairs[0], (128, 0, 0));
    assert_eq!(pairs[1], (129, 1, 0));
    assert_eq!(pairs[8 * 7 + 1], (128 + 7 * 16 + 1, 1, 7));
    assert_eq!(pairs[63], (247, 7, 7));
}
