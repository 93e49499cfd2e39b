use azool::TileColor;

#[test]
fn integer_encoding_round_trips() {
    for i in 0..5 {
        let c = TileColor::from_integer(i);
        assert_eq!(c.to_integer(), i);
        assert_eq!(TileColor::from(i), c);
        assert_eq!(TileColor::into(&c), i);
    }
    assert_eq!(TileColor::from_integer(7), TileColor::NOCOLOR);
    assert_eq!(TileColor::from_integer(-1), TileColor::NOCOLOR);
    assert_eq!(TileColor::NOCOLOR.to_integer(), 99);
    assert_eq!(TileColor::into(&TileColor::NOCOLOR), -1);
    assert_eq!(TileColor::from(99), TileColor::NOCOLOR);
}

#[test]
fn color_names_decode() {
    assert_eq!(TileColor::from_string("RED"), TileColor::RED);
    assert_eq!(TileColor::from_string("BLUE"), TileColor::BLUE);
    assert_eq!(TileColor::from_string("GREEN"), TileColor::GREEN);
    assert_eq!(TileColor::from_string("YELLOW"), TileColor::YELLOW);
    assert_eq!(TileColor::from_string("WHITE"), TileColor::WHITE);
    assert_eq!(TileColor::from_string("mauve"), TileColor::NOCOLOR);
    assert_eq!(TileColor::from_string(""), TileColor::NOCOLOR);
}

#[test]
fn color_strings_render() {
    assert_eq!(TileColor::RED.color_string(), "\x1B[1;41mR\x1B[0m");
    assert_eq!(TileColor::YELLOW.color_string(), "\x1B[1;30;103mY\x1B[0m");
    assert_eq!(TileColor::NOCOLOR.color_string(), " ");
    assert_eq!(TileColor::int_to_color_string(1), "\x1B[1;44mB\x1B[0m");
    assert_eq!(TileColor::int_to_color_string(42), " ");
}

#[test]
fn char_symbols() {
    assert_eq!(TileColor::RED.to_char_symbol(), "r");
    assert_eq!(TileColor::BLUE.to_char_symbol(), "b");
    assert_eq!(TileColor::GREEN.to_char_symbol(), "g");
    assert_eq!(TileColor::YELLOW.to_char_symbol(), "y");
    assert_eq!(TileColor::WHITE.to_char_symbol(), "w");
    assert_eq!(TileColor::NOCOLOR.to_char_symbol(), "-");
}
