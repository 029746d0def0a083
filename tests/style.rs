use yes::style::{emphasis_at, hue_at, plain, reset_bytes, set_bytes, style_from_draws, Emphasis, Hue, Style};

#[test]
fn palette_order() {
    assert_eq!(hue_at(0), Hue::Black);
    assert_eq!(hue_at(1), Hue::White);
    assert_eq!(hue_at(2), Hue::Red);
    assert_eq!(hue_at(7), Hue::Magenta);
}

#[test]
fn emphasis_draws() {
    assert_eq!(emphasis_at(0), Emphasis::Plain);
    assert_eq!(emphasis_at(1), Emphasis::Dim);
    assert_eq!(emphasis_at(2), Emphasis::Intense);
}

#[test]
fn draws_select_style() {
    let s = style_from_draws(4, true, false, true, 2);
    assert_eq!(s, Style { fg: Hue::Blue, bold: true, italic: false, underline: true, emphasis: Emphasis::Intense });
}

#[test]
fn reset_sequence_bytes() {
    assert_eq!(reset_bytes(), b"\x1b[0m".to_vec());
}

#[test]
fn plain_red_sequence() {
    assert_eq!(set_bytes(&plain(Hue::Red)), b"\x1b[0m\x1b[31m".to_vec());
}

#[test]
fn attributes_sequence() {
    let s = Style { fg: Hue::Green, bold: true, italic: true, underline: true, emphasis: Emphasis::Dim };
    assert_eq!(set_bytes(&s), b"\x1b[0m\x1b[1m\x1b[2m\x1b[3m\x1b[4m\x1b[32m".to_vec());
}

#[test]
fn intense_sequence() {
    let s = Style { fg: Hue::Cyan, bold: false, italic: false, underline: false, emphasis: Emphasis::Intense };
    assert_eq!(set_bytes(&s), b"\x1b[0m\x1b[38;5;14m".to_vec());
}
