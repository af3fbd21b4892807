use tetris::color::Color;

#[test]
fn only_empty_is_empty() {
    assert!(Color::Empty.is_empty());
    let others = [
        Color::Gray,
        Color::White,
        Color::Red,
        Color::Cyan,
        Color::Yellow,
        Color::Green,
        Color::Purple,
    ];
    for color in others {
        assert!(!color.is_empty());
    }
}

#[test]
fn default_color_is_empty() {
    assert_eq!(Color::default(), Color::Empty);
}

#[test]
fn each_roll_picks_its_color() {
    assert_eq!(Color::of_roll(1), Color::White);
    assert_eq!(Color::of_roll(2), Color::Red);
    assert_eq!(Color::of_roll(3), Color::Cyan);
    assert_eq!(Color::of_roll(4), Color::Yellow);
    assert_eq!(Color::of_roll(5), Color::Green);
    assert_eq!(Color::of_roll(6), Color::Purple);
    assert_eq!(Color::PLAYABLE, 6);
}

#[test]
fn random_colors_are_never_reserved() {
    for _ in 0..500 {
        let color = Color::rand();
        assert_ne!(color, Color::Empty);
        assert_ne!(color, Color::Gray);
    }
}

#[test]
fn random_colors_vary() {
    let first = Color::rand();
    let mut varied = false;
    for _ in 0..500 {
        if Color::rand() != first {
            varied = true;
        }
    }
    assert!(varied);
}

#[test]
fn random_colors_reach_both_ends_of_the_palette() {
    let mut white = false;
    let mut purple = false;
    for _ in 0..2000 {
        match Color::rand() {
            Color::White => white = true,
            Color::Purple => purple = true,
            _ => {}
        }
    }
    assert!(white);
    assert!(purple);
}
