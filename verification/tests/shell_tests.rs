use dc34_console::shell::{ConsoleEvent, ConsoleStep, KeyOutcome, LineEditor};

fn submit(o: KeyOutcome) -> String {
    match o {
        KeyOutcome::Submit(s) => s,
        _ => panic!("expected a command line"),
    }
}

#[test]
fn typing_and_enter() {
    let mut e = LineEditor::new();
    assert!(matches!(e.key('l' as usize), KeyOutcome::Echo('l')));
    assert!(matches!(e.key('s' as usize), KeyOutcome::Echo('s')));
    assert_eq!(submit(e.key('\r' as usize)), "ls");
    // the line is empty again: Enter asks for help
    assert_eq!(submit(e.key('\n' as usize)), "help");
}

#[test]
fn backspace_undoes_typing() {
    let mut e = LineEditor::new();
    e.key('a' as usize);
    e.key('b' as usize);
    assert!(matches!(e.key(8), KeyOutcome::Erased));
    assert!(matches!(e.key(8), KeyOutcome::Erased));
    assert!(matches!(e.key(8), KeyOutcome::Erased));
    assert_eq!(submit(e.key('\n' as usize)), "help");
}

#[test]
fn badge_controls_and_bad_codes_are_dropped() {
    let mut e = LineEditor::new();
    assert!(matches!(e.key(0x2190), KeyOutcome::Ignored));
    assert!(matches!(e.key(0x1f525), KeyOutcome::Ignored));
    assert!(matches!(e.key(0xD800), KeyOutcome::Ignored));
    assert!(matches!(e.key(0x110000), KeyOutcome::Ignored));
    assert!(matches!(e.key(0), KeyOutcome::Ignored));
    assert!(matches!(e.key(0x4e2d), KeyOutcome::Echo('中')));
    assert_eq!(submit(e.key('\n' as usize)), "中");
}

#[test]
fn key_codes_are_cut_to_32_bits() {
    if usize::BITS == 64 {
        let mut e = LineEditor::new();
        let k = (1usize << 32) + ('x' as usize);
        assert!(matches!(e.key(k), KeyOutcome::Echo('x')));
    }
}

#[test]
fn console_events_are_routed() {
    let mut e = LineEditor::new();
    let (step, update) = e.handle(ConsoleEvent::Keypress('a' as usize));
    assert!(matches!(step, ConsoleStep::Key(KeyOutcome::Echo('a'))));
    assert_eq!(update, None);
    let (step, update) = e.handle(ConsoleEvent::Other);
    assert!(matches!(step, ConsoleStep::Callback));
    assert_eq!(update, Some(true));
    let (step, update) = e.handle(ConsoleEvent::Keypress('\r' as usize));
    match step {
        ConsoleStep::Key(KeyOutcome::Submit(s)) => assert_eq!(s, "a"),
        _ => panic!("expected the line"),
    }
    assert_eq!(update, Some(false));
    let (step, update) = e.handle(ConsoleEvent::Quit);
    assert!(matches!(step, ConsoleStep::Quit));
    assert_eq!(update, None);
}
