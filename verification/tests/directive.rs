use matrix_clock::color::Color;
use matrix_clock::directive::ParseColorErr;

#[test]
fn words_name_their_colours() {
    assert_eq!(Color::from_str("rgb"), Ok(Color::RGB));
    assert_eq!(Color::from_str("rainbow"), Ok(Color::Rainbow));
    assert_eq!(Color::from_str("black"), Ok(Color::Black));
}

#[test]
fn three_channels_make_a_raw_colour() {
    assert_eq!(Color::from_str("255,0,0"), Ok(Color::Raw(255, 0, 0)));
    assert_eq!(Color::from_str("0,128,255"), Ok(Color::Raw(0, 128, 255)));
    assert_eq!(Color::from_str("0,0,0"), Ok(Color::Raw(0, 0, 0)));
    assert_eq!(Color::from_str("007,08,9"), Ok(Color::Raw(7, 8, 9)));
}

#[test]
fn a_piece_that_is_no_channel_spoils_the_list() {
    for text in [
        "a,1,2,3",
        "255,abc,0,128",
        "1,,2",
        "1,x,3",
        "1, 2,3",
        " 1,2,3",
        "1,2,3 ",
        "1.5,2,3",
        "-1,2,3",
        "+1,2,3",
        "1,2,0x10",
    ] {
        assert_eq!(Color::from_str(text), Err(ParseColorErr));
    }
}

#[test]
fn a_channel_above_255_spoils_the_list() {
    assert_eq!(Color::from_str("300,0,0"), Err(ParseColorErr));
    assert_eq!(Color::from_str("300,1,2,3"), Err(ParseColorErr));
    assert_eq!(Color::from_str("0,256,0"), Err(ParseColorErr));
    assert_eq!(Color::from_str("256,256,256"), Err(ParseColorErr));
    let long = "4".repeat(40);
    assert_eq!(Color::from_str(&format!("{long},1,2")), Err(ParseColorErr));
    assert_eq!(Color::from_str(&format!("1,2,{long}")), Err(ParseColorErr));
}

#[test]
fn a_list_has_exactly_three_pieces() {
    for text in ["", "1", "1,2", "1,2,", ",1,2", "1,2,3,4", "1,2,3,", ",1,2,3", ",,", ",,,", ","] {
        assert_eq!(Color::from_str(text), Err(ParseColorErr));
    }
}

#[test]
fn other_words_name_no_colour() {
    for text in ["white", "RGB", "rgb ", " rgb", "Rainbow", "blac", "blackk", "red"] {
        assert_eq!(Color::from_str(text), Err(ParseColorErr));
    }
}

#[test]
fn directives_are_read_from_bytes_alike() {
    assert_eq!(Color::from_bytes(b"rainbow"), Ok(Color::Rainbow));
    assert_eq!(Color::from_bytes(b"9,8,7"), Ok(Color::Raw(9, 8, 7)));
    assert_eq!(Color::from_bytes(&[0xff, 0x2c, 0x31, 0x2c, 0x32]), Err(ParseColorErr));
    assert_eq!(Color::from_bytes(&[]), Err(ParseColorErr));
}
