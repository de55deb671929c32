use rstiny_core::spawn_info::{program_extra, CONSOLE_EP, DEP_EP_BASE};
use rstiny_core::init::spawn::ChildCap;
use rstiny_core::shell::command::{parse_command, program_file, split_words, Command};
use rstiny_core::shell::line::{LineEditor, LineStep, LINE_MAX};
use rstiny_core::shell::program::{
    child_step, chunk_len, exit_code, listing_count, loadable, padded_len, program_caps, ChildMessage, ChildStep,
};

fn feed_all(e: &mut LineEditor, bytes: &[u8]) -> (Vec<u8>, LineStep) {
    let mut echoed = Vec::new();
    let mut last = LineStep::More;
    for b in bytes {
        let (echo, step) = e.feed(Some(*b));
        echoed.extend_from_slice(&echo);
        last = step;
    }
    (echoed, last)
}

#[test]
fn typing_echoes_and_enter_completes() {
    let mut e = LineEditor::new();
    let (echo, step) = feed_all(&mut e, b"ls\r");
    assert_eq!(echo, b"ls\n".to_vec());
    assert!(step == LineStep::Done);
    assert_eq!(e.line(), b"ls");
    e.clear();
    assert_eq!(e.line(), b"");
}

#[test]
fn backspace_erases_and_is_quiet_on_an_empty_line() {
    let mut e = LineEditor::new();
    let (echo, _) = feed_all(&mut e, &[b'a', b'b', 0x7f, 0x08, 0x08]);
    assert_eq!(echo, vec![b'a', b'b', 8, b' ', 8, 8, b' ', 8]);
    assert_eq!(e.line(), b"");
}

#[test]
fn control_characters() {
    let mut e = LineEditor::new();
    feed_all(&mut e, b"abc");
    let (echo, step) = e.feed(Some(3));
    assert_eq!(echo, b"^C\n".to_vec());
    assert!(step == LineStep::Done);
    assert_eq!(e.line(), b"");
    let (echo, step) = e.feed(Some(4));
    assert!(echo.is_empty());
    assert!(step == LineStep::Eof);
    let (echo, step) = e.feed(None);
    assert!(echo.is_empty());
    assert!(step == LineStep::Idle);
    let (echo, step) = e.feed(Some(0x1b));
    assert!(echo.is_empty());
    assert!(step == LineStep::More);
    assert_eq!(e.line(), b"");
}

#[test]
fn the_line_stops_growing_at_its_limit() {
    let mut e = LineEditor::new();
    let long = vec![b'x'; LINE_MAX + 5];
    let (echo, _) = feed_all(&mut e, &long);
    assert_eq!(echo.len(), LINE_MAX);
    assert_eq!(e.line().len(), LINE_MAX);
}

#[test]
fn words_split_on_whitespace() {
    assert_eq!(split_words(b"  cat   hello.txt "), vec![b"cat".to_vec(), b"hello.txt".to_vec()]);
    assert_eq!(split_words(b"a\tb\nc"), vec![b"a".to_vec(), b"b".to_vec(), b"c".to_vec()]);
    assert!(split_words(b"   ").is_empty());
    assert!(split_words(b"").is_empty());
}

#[test]
fn commands() {
    assert!(matches!(parse_command(b""), Command::Empty));
    assert!(matches!(parse_command(b"   "), Command::Empty));
    assert!(matches!(parse_command(b"help"), Command::Help));
    assert!(matches!(parse_command(b" exit now"), Command::Exit));
    assert!(matches!(parse_command(b"ls -l"), Command::List));
    match parse_command(b"cat notes.txt extra") {
        Command::Cat(Some(name)) => assert_eq!(name, b"notes.txt".to_vec()),
        _ => panic!("cat with a name"),
    }
    assert!(matches!(parse_command(b"cat"), Command::Cat(None)));
    match parse_command(b"hello world") {
        Command::Run { stem, args } => {
            assert_eq!(stem, b"hello".to_vec());
            assert!(args.is_empty());
        }
        _ => panic!("hello runs the hello program"),
    }
    match parse_command(b"./gui keys 3") {
        Command::Run { stem, args } => {
            assert_eq!(stem, b"gui".to_vec());
            assert_eq!(args, vec![b"keys".to_vec(), b"3".to_vec()]);
        }
        _ => panic!("run"),
    }
    match parse_command(b"./") {
        Command::Run { stem, args } => {
            assert!(stem.is_empty());
            assert!(args.is_empty());
        }
        _ => panic!("run with an empty stem"),
    }
    match parse_command(b"rm -rf") {
        Command::Unknown(w) => assert_eq!(w, b"rm".to_vec()),
        _ => panic!("unknown"),
    }
    match parse_command(b"HELP") {
        Command::Unknown(w) => assert_eq!(w, b"HELP".to_vec()),
        _ => panic!("commands are case-sensitive"),
    }
}

#[test]
fn program_names() {
    assert!(program_file(b"hello"));
    assert!(!program_file(b""));
    assert!(program_file(&[b'a'; 255]));
    assert!(!program_file(&[b'a'; 256]));
}

#[test]
fn plain_programs_get_the_fixed_capabilities() {
    let caps = program_caps(70, 51, 6, 53, 55, false);
    assert_eq!(
        caps,
        vec![
            ChildCap { slot: 140, source: 70, badge: 1 },
            ChildCap { slot: 51, source: 51, badge: 0 },
            ChildCap { slot: 32, source: 90, badge: 0 },
            ChildCap { slot: 6, source: 6, badge: 0 },
        ]
    );
}

#[test]
fn programs_with_arguments_get_the_services() {
    let caps = program_caps(70, 51, 6, 53, 55, true);
    assert_eq!(caps.len(), 6);
    assert_eq!(caps[4], ChildCap { slot: 53, source: 53, badge: 2 });
    assert_eq!(caps[5], ChildCap { slot: 55, source: 55, badge: 0 });
    let caps = program_caps(70, 51, 6, 53, 0, true);
    assert_eq!(caps.len(), 5);
}

#[test]
fn child_messages() {
    assert!(child_step(ChildMessage::Ready) == ChildStep::Reply);
    assert!(child_step(ChildMessage::Report) == ChildStep::Reply);
    assert!(child_step(ChildMessage::Exit { code: 7 }) == ChildStep::Exited { code: 7 });
    assert!(child_step(ChildMessage::Other) == ChildStep::Faulted);
    assert_eq!(exit_code(ChildStep::Reply), None);
    assert_eq!(exit_code(ChildStep::Exited { code: 0 }), Some(0));
    assert_eq!(exit_code(ChildStep::Faulted), Some(u64::MAX));
}

#[test]
fn reading_a_program() {
    assert!(loadable(512 * 1024));
    assert!(!loadable(512 * 1024 + 1));
    assert_eq!(chunk_len(10_000, 0), 4096);
    assert_eq!(chunk_len(10_000, 8192), 1808);
    assert_eq!(chunk_len(1, 0), 1);
    assert_eq!(listing_count(3, 204), 3);
    assert_eq!(listing_count(500, 204), 204);
    assert_eq!(padded_len(b"HELLO\0\0\0\0\0\0\0"), 5);
    assert_eq!(padded_len(b"TWELVECHARSX"), 12);
    assert_eq!(padded_len(b"\0abc"), 0);
}

#[test]
fn program_extra_grants_services_only_with_arguments() {
    let plain = program_extra(0);
    assert_eq!(plain[CONSOLE_EP], 51);
    assert_eq!(plain[DEP_EP_BASE], 0);
    assert_eq!(plain[DEP_EP_BASE + 1], 0);
    let with_args = program_extra(2);
    assert_eq!(with_args[DEP_EP_BASE], 53);
    assert_eq!(with_args[DEP_EP_BASE + 1], 55);
}
