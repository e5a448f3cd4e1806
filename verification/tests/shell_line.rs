use std::collections::VecDeque;

use nullex::keyboard::decode::{DecodedKey, HandleControl, KeyEvent, KeyState};
use nullex::keyboard::error::KeyboardError;
use nullex::keyboard::keycode::KeyCode;
use nullex::keyboard::ps2::{Keyboard, ScancodeSet};
use nullex::keyboard::us104::Us104Key;
use nullex::shell::{
    command_supports_completion, downarrow_completion, feed_key_result, handle_key, handle_stdin_char, process_scancode_for_stdin,
    tab_completion, uparrow_completion, Completion, CompletionType, EntryKind, HistoryMove, KeyAction, StdinEcho,
};

fn chars(s: &str) -> Vec<char> {
    s.chars().collect()
}

fn text(v: &[char]) -> String {
    v.iter().collect()
}

fn listing() -> Vec<(Vec<char>, EntryKind)> {
    vec![
        (chars("docs"), EntryKind::Directory),
        (chars("notes.txt"), EntryKind::File),
        (chars("note"), EntryKind::Directory),
        (chars("bin"), EntryKind::Directory),
    ]
}

#[test]
fn completion_types_per_command() {
    assert_eq!(command_supports_completion(&chars("cd")), CompletionType::Directory);
    assert_eq!(command_supports_completion(&chars("rmdir")), CompletionType::Directory);
    assert_eq!(command_supports_completion(&chars("cat")), CompletionType::File);
    assert_eq!(command_supports_completion(&chars("rm")), CompletionType::File);
    assert_eq!(command_supports_completion(&chars("echo")), CompletionType::Disabled);
    assert_eq!(command_supports_completion(&chars("touch")), CompletionType::Disabled);
    assert_eq!(command_supports_completion(&chars("run")), CompletionType::Both);
}

#[test]
fn tab_completes_single_match() {
    let mut line = chars("cd do");
    let l = listing();
    let r = tab_completion(&mut line, Some(&l));
    match r {
        Completion::Replace { erase, text: t } => {
            assert_eq!(erase, 2);
            assert_eq!(text(&t), "docs");
        }
        other => panic!("unexpected {:?}", other),
    }
    assert_eq!(text(&line), "cd docs");
}

#[test]
fn tab_lists_several_matches_of_the_right_kind() {
    let mut line = chars("cd not");
    let l = listing();
    match tab_completion(&mut line, Some(&l)) {
        Completion::List(names) => {
            let names: Vec<String> = names.iter().map(|n| text(n)).collect();
            assert_eq!(names, vec!["note".to_string()]);
        }
        other => panic!("unexpected {:?}", other),
    }
    assert_eq!(text(&line), "cd not");
}

#[test]
fn tab_single_match_of_wrong_kind_does_nothing() {
    let mut line = chars("cat do");
    let l = listing();
    assert!(matches!(tab_completion(&mut line, Some(&l)), Completion::Nothing));
    assert_eq!(text(&line), "cat do");
}

#[test]
fn tab_on_command_without_paths_indents() {
    let mut line = chars("echo hi");
    let l = listing();
    assert!(matches!(tab_completion(&mut line, Some(&l)), Completion::Indent));
    assert_eq!(text(&line), "echo hi    ");
}

#[test]
fn tab_without_listing_does_nothing() {
    let mut line = chars("ls b");
    assert!(matches!(tab_completion(&mut line, None), Completion::Nothing));
    assert_eq!(text(&line), "ls b");
}

#[test]
fn tab_erases_word_bytes() {
    let mut line = chars("ls é");
    let l = vec![(chars("éa"), EntryKind::Directory)];
    match tab_completion(&mut line, Some(&l)) {
        Completion::Replace { erase, text: t } => {
            assert_eq!(erase, 2);
            assert_eq!(text(&t), "éa");
        }
        other => panic!("unexpected {:?}", other),
    }
    assert_eq!(text(&line), "lséa");
}

#[test]
fn history_up_and_down() {
    let history = vec![chars("ls"), chars("cd /"), chars("cat a")];
    let mut line = chars("xy");
    let mut index = 3usize;
    assert_eq!(uparrow_completion(&mut line, &history, &mut index), HistoryMove::Recalled(2));
    assert_eq!(index, 2);
    assert_eq!(text(&line), "cat a");
    assert_eq!(uparrow_completion(&mut line, &history, &mut index), HistoryMove::Recalled(5));
    assert_eq!(text(&line), "cd /");
    assert_eq!(uparrow_completion(&mut line, &history, &mut index), HistoryMove::Recalled(4));
    assert_eq!(uparrow_completion(&mut line, &history, &mut index), HistoryMove::Recalled(2));
    assert_eq!(index, 0);
    assert_eq!(text(&line), "ls");
    assert_eq!(downarrow_completion(&mut line, &history, &mut index), HistoryMove::Recalled(2));
    assert_eq!(text(&line), "cd /");
    assert_eq!(downarrow_completion(&mut line, &history, &mut index), HistoryMove::Recalled(4));
    assert_eq!(downarrow_completion(&mut line, &history, &mut index), HistoryMove::Cleared(5));
    assert!(line.is_empty());
    assert_eq!(index, 2);
}

#[test]
fn history_empty_does_nothing() {
    let history: Vec<Vec<char>> = vec![];
    let mut line = chars("a");
    let mut index = 0usize;
    assert_eq!(uparrow_completion(&mut line, &history, &mut index), HistoryMove::Nothing);
    assert_eq!(downarrow_completion(&mut line, &history, &mut index), HistoryMove::Nothing);
    assert_eq!(text(&line), "a");
}

#[test]
fn keys_edit_the_line() {
    let mut line = Vec::new();
    assert!(matches!(handle_key(&mut line, &DecodedKey::Unicode('l')), KeyAction::Echo('l')));
    assert!(matches!(handle_key(&mut line, &DecodedKey::Unicode('s')), KeyAction::Echo('s')));
    assert!(matches!(handle_key(&mut line, &DecodedKey::Unicode('x')), KeyAction::Echo('x')));
    assert!(matches!(handle_key(&mut line, &DecodedKey::Unicode('\u{8}')), KeyAction::Backspace));
    assert_eq!(text(&line), "ls");
    assert!(matches!(handle_key(&mut line, &DecodedKey::Unicode('\t')), KeyAction::Complete));
    match handle_key(&mut line, &DecodedKey::Unicode('\n')) {
        KeyAction::Run(cmd) => assert_eq!(text(&cmd), "ls"),
        other => panic!("unexpected {:?}", other),
    }
    assert!(line.is_empty());
    assert!(matches!(handle_key(&mut line, &DecodedKey::Unicode('\n')), KeyAction::Echo('\n')));
    assert!(matches!(handle_key(&mut line, &DecodedKey::Unicode('\u{8}')), KeyAction::Nothing));
    assert!(matches!(handle_key(&mut line, &DecodedKey::Unicode('\t')), KeyAction::Indent));
    assert_eq!(text(&line), "    ");
    assert!(matches!(handle_key(&mut line, &DecodedKey::Unicode('\u{1b}')), KeyAction::ClearScreen));
    assert!(line.is_empty());
}

#[test]
fn raw_keys() {
    let mut line = chars("abc");
    assert!(matches!(handle_key(&mut line, &DecodedKey::RawKey(KeyCode::ArrowUp)), KeyAction::HistoryUp));
    assert!(matches!(handle_key(&mut line, &DecodedKey::RawKey(KeyCode::ArrowDown)), KeyAction::HistoryDown));
    assert!(matches!(handle_key(&mut line, &DecodedKey::RawKey(KeyCode::F1)), KeyAction::Nothing));
    assert_eq!(text(&line), "abc");
    assert!(matches!(handle_key(&mut line, &DecodedKey::RawKey(KeyCode::LControl)), KeyAction::Interrupt));
    assert!(line.is_empty());
}

#[test]
fn stdin_feeding() {
    let mut stdin = VecDeque::new();
    assert_eq!(handle_stdin_char('h', &mut stdin), StdinEcho::Echo('h'));
    assert_eq!(handle_stdin_char('i', &mut stdin), StdinEcho::Echo('i'));
    assert_eq!(handle_stdin_char('\u{8}', &mut stdin), StdinEcho::Erased);
    assert_eq!(handle_stdin_char('\n', &mut stdin), StdinEcho::LineReady);
    assert_eq!(stdin.iter().copied().collect::<Vec<u8>>(), vec![b'h', b'\n']);
    let mut empty = VecDeque::new();
    assert_eq!(handle_stdin_char('\u{8}', &mut empty), StdinEcho::Nothing);
    assert!(empty.is_empty());
}

struct OneByteSet;

impl ScancodeSet for OneByteSet {
    fn advance_state(&mut self, code: u8) -> Result<Option<KeyEvent>, KeyboardError> {
        match code {
            0x1E => Ok(Some(KeyEvent::new(KeyCode::A, KeyState::Down))),
            0x9E => Ok(Some(KeyEvent::new(KeyCode::A, KeyState::Up))),
            0x00 => Err(KeyboardError::UnknownKeyCode),
            _ => Ok(None),
        }
    }
}

#[test]
fn scancodes_reach_stdin_only_while_a_program_waits() {
    let mut kb = Keyboard::new(OneByteSet, Us104Key, HandleControl::Ignore);
    let mut stdin = VecDeque::new();
    assert_eq!(process_scancode_for_stdin(&mut kb, false, 0x1E, &mut stdin), None);
    assert!(stdin.is_empty());
    assert_eq!(process_scancode_for_stdin(&mut kb, true, 0x1E, &mut stdin), Some(StdinEcho::Echo('a')));
    assert_eq!(process_scancode_for_stdin(&mut kb, true, 0x9E, &mut stdin), None);
    assert_eq!(process_scancode_for_stdin(&mut kb, true, 0x00, &mut stdin), None);
    assert_eq!(stdin.iter().copied().collect::<Vec<u8>>(), vec![b'a']);
}

#[test]
fn key_results_handed_to_stdin() {
    let mut kb = Keyboard::new(OneByteSet, Us104Key, HandleControl::Ignore);
    let mut stdin = VecDeque::new();
    let down = Ok(Some(KeyEvent::new(KeyCode::A, KeyState::Down)));
    assert_eq!(feed_key_result(&mut kb, down, &mut stdin), Some(StdinEcho::Echo('a')));
    let up = Ok(Some(KeyEvent::new(KeyCode::A, KeyState::Up)));
    assert_eq!(feed_key_result(&mut kb, up, &mut stdin), None);
    assert_eq!(feed_key_result(&mut kb, Ok(None), &mut stdin), None);
    assert_eq!(feed_key_result(&mut kb, Err(KeyboardError::ParityError), &mut stdin), None);
    assert_eq!(stdin.iter().copied().collect::<Vec<u8>>(), vec![b'a']);
}
