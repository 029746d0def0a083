use yes::config::Config;
use yes::emission::{classify, render, Emission, IoFailure, StartError, Step, StopReason};
use yes::style::{Color, Hue};

fn config(random: bool, max_lines: Option<usize>, color: Color) -> Config {
    Config { std_err: false, random, max_lines, strings: Vec::new(), color }
}

fn msgs(list: &[&str]) -> Vec<Vec<u8>> {
    list.iter().map(|s| s.as_bytes().to_vec()).collect()
}

#[test]
fn classification() {
    assert_eq!(classify(IoFailure::BrokenPipe), StopReason::StreamClosed);
    assert_eq!(classify(IoFailure::UnexpectedEof), StopReason::StreamClosed);
    assert_eq!(classify(IoFailure::Interrupted), StopReason::StreamClosed);
    assert_eq!(classify(IoFailure::Other), StopReason::Failed);
}

#[test]
fn no_messages_is_an_error() {
    let r = Emission::start(&config(false, Some(3), Color::Disabled), Vec::new());
    assert!(matches!(r, Err(StartError::MissingMessages)));
    assert!(matches!(render(&config(true, Some(3), Color::Disabled), Vec::new()), Err(StartError::MissingMessages)));
}

#[test]
fn hello_three_times() {
    let out = render(&config(false, Some(3), Color::Disabled), msgs(&["hello"])).unwrap();
    assert_eq!(out, b"hello\nhello\nhello\n".to_vec());
}

#[test]
fn limit_zero_writes_nothing() {
    let out = render(&config(false, Some(0), Color::Disabled), msgs(&["hello"])).unwrap();
    assert!(out.is_empty());
    let out = render(&config(true, Some(0), Color::Disabled), msgs(&["y", "n"])).unwrap();
    assert!(out.is_empty());
    let mut e = Emission::start(&config(false, Some(0), Color::Disabled), msgs(&["y"])).unwrap();
    assert!(matches!(e.next_unit(false), Step::Stop(StopReason::LimitReached)));
}

#[test]
fn bounded_run_emits_exact_lines() {
    for limit in [1usize, 2, 7, 4096, 4097, 10000] {
        let out = render(&config(false, Some(limit), Color::Disabled), msgs(&["y"])).unwrap();
        assert_eq!(out.len(), 2 * limit);
        assert!(out.chunks(2).all(|c| c == b"y\n"));
    }
}

#[test]
fn batches_then_single_lines() {
    let mut e = Emission::start(&config(false, Some(5000), Color::Disabled), msgs(&["y"])).unwrap();
    let mut sizes = Vec::new();
    loop {
        match e.next_unit(false) {
            Step::Write(bytes) => {
                sizes.push(bytes.len() / 2);
                e.record(Ok(()));
            }
            Step::Stop(reason) => {
                assert_eq!(reason, StopReason::LimitReached);
                break;
            }
        }
    }
    assert_eq!(sizes[0], 4096);
    assert_eq!(sizes.len(), 1 + 904);
    assert!(sizes[1..].iter().all(|&s| s == 1));
    assert_eq!(sizes.iter().sum::<usize>(), 5000);
}

#[test]
fn shutdown_before_start_writes_nothing() {
    let mut e = Emission::start(&config(false, Some(10), Color::Disabled), msgs(&["y"])).unwrap();
    assert!(matches!(e.next_unit(true), Step::Stop(StopReason::ShutdownRequested)));
    assert!(matches!(e.next_unit(false), Step::Stop(StopReason::ShutdownRequested)));
    let mut u = Emission::start(&config(false, None, Color::Disabled), msgs(&["y"])).unwrap();
    assert!(matches!(u.next_unit(true), Step::Stop(StopReason::ShutdownRequested)));
}

#[test]
fn unbounded_run_stops_on_request() {
    let mut e = Emission::start(&config(false, None, Color::Disabled), msgs(&["y"])).unwrap();
    for _ in 0..3 {
        match e.next_unit(false) {
            Step::Write(bytes) => assert_eq!(bytes.len(), 8192),
            Step::Stop(_) => panic!("stopped early"),
        }
        e.record(Ok(()));
    }
    assert!(matches!(e.next_unit(true), Step::Stop(StopReason::ShutdownRequested)));
}

#[test]
fn closed_stream_and_failure() {
    let mut e = Emission::start(&config(false, None, Color::Disabled), msgs(&["y"])).unwrap();
    assert!(matches!(e.next_unit(false), Step::Write(_)));
    e.record(Err(IoFailure::BrokenPipe));
    assert!(matches!(e.next_unit(false), Step::Stop(StopReason::StreamClosed)));
    let mut f = Emission::start(&config(true, None, Color::Disabled), msgs(&["y"])).unwrap();
    assert!(matches!(f.next_unit(false), Step::Write(_)));
    f.record(Err(IoFailure::Other));
    assert!(matches!(f.next_unit(false), Step::Stop(StopReason::Failed)));
}

#[test]
fn random_run_two_lines() {
    let out = render(&config(true, Some(2), Color::Disabled), msgs(&["y", "n"])).unwrap();
    assert_eq!(out.len(), 4);
    for line in out.chunks(2) {
        assert!(line == b"y\n" || line == b"n\n");
    }
}

#[test]
fn random_frequencies_are_even() {
    let out = render(&config(true, Some(20000), Color::Disabled), msgs(&["y", "n"])).unwrap();
    let ys = out.chunks(2).filter(|c| *c == b"y\n").count();
    let ns = out.chunks(2).filter(|c| *c == b"n\n").count();
    assert_eq!(ys + ns, 20000);
    assert!(ys > 9400 && ys < 10600, "y appeared {} times", ys);
}

#[test]
fn fixed_color_frames_each_unit() {
    let out = render(&config(false, Some(2), Color::Fixed(Hue::Red)), msgs(&["a"])).unwrap();
    assert_eq!(out, b"\x1b[0m\x1b[31ma\na\n\x1b[0m\x1b[0m".to_vec());
}

#[test]
fn random_color_frames_each_line() {
    let out = render(&config(false, Some(3), Color::Random), msgs(&["a"])).unwrap();
    let text: Vec<u8> = out.iter().copied().filter(|&c| c == b'a' || c == b'\n').collect();
    assert_eq!(text, b"a\na\na\n".to_vec());
    assert!(out.ends_with(b"a\n\x1b[0m\x1b[0m"));
}
