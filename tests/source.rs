use yes::config::Config;
use yes::emission::render;
use yes::source::{get_default, get_messages, split_words};
use yes::style::Color;

fn config(random: bool, strings: &[&str], max_lines: Option<usize>) -> Config {
    Config {
        std_err: false,
        random,
        max_lines,
        strings: strings.iter().map(|s| s.as_bytes().to_vec()).collect(),
        color: Color::Disabled,
    }
}

#[test]
fn defaults() {
    assert_eq!(get_default(&config(false, &[], None)), vec![b"y".to_vec()]);
    assert_eq!(get_default(&config(true, &[], None)), vec![b"y".to_vec(), b"n".to_vec()]);
}

#[test]
fn given_strings_win() {
    let c = config(false, &["a", "b c"], None);
    assert_eq!(get_messages(&c, Some(b"x y\n".to_vec())), vec![b"a".to_vec(), b"b c".to_vec()]);
}

#[test]
fn piped_line_is_split() {
    let c = config(true, &[], None);
    assert_eq!(get_messages(&c, Some(b"yes no\n".to_vec())), vec![b"yes".to_vec(), b"no".to_vec()]);
    assert_eq!(get_messages(&c, Some(b"a  b".to_vec())), vec![b"a".to_vec(), b"".to_vec(), b"b".to_vec()]);
}

#[test]
fn bare_terminator_gives_defaults() {
    assert_eq!(get_messages(&config(true, &[], None), Some(b"\n".to_vec())), vec![b"y".to_vec(), b"n".to_vec()]);
    assert_eq!(get_messages(&config(false, &[], None), None), vec![b"y".to_vec()]);
}

#[test]
fn split_without_spaces() {
    assert_eq!(split_words(b"word"), vec![b"word".to_vec()]);
    assert_eq!(split_words(b""), vec![b"".to_vec()]);
}

#[test]
fn random_defaults_end_to_end() {
    let c = config(true, &[], Some(2));
    let messages = get_messages(&c, None);
    let out = render(&c, messages).unwrap();
    assert_eq!(out.len(), 4);
    for line in out.chunks(2) {
        assert!(line == b"y\n" || line == b"n\n");
    }
}
