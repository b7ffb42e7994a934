use retro::app::mode::Mode;
use retro::app::note::Note;
use retro::app::sentiment::Sentiment;
use retro::app::state::State;
use retro::cli::RetroArgs;
use retro::events::event::{EditAction, Key, KeyInput};
use retro::handlers::command_handler::{apply_command_line, handle_command};
use retro::handlers::help_handler::handle_show_help;
use retro::handlers::insert_handler::handle_insert;
use retro::handlers::mode_handler::handle_mode;
use retro::handlers::quits;
use retro::network::actions::NetworkAction;
use retro::events::handlers::command_handler::handle_command as vote_command;
use retro::handlers::group_handler::handle_group;
use retro::handlers::vote_handler::handle_vote;
use retro::mode::Mode as OldMode;
use retro::state::state::State as NetBoard;

fn key(k: Key) -> KeyInput {
    KeyInput { key: k, alt: false }
}

fn alt(k: Key) -> KeyInput {
    KeyInput { key: k, alt: true }
}

fn board() -> State {
    State::new(RetroArgs { room: "r".to_string(), display_name: "ana".to_string() })
}

fn note(id: &str) -> Note {
    Note { id: id.to_string(), text: "t".to_string(), author: "bo".to_string(), sentiment: Sentiment::Neutral, votes: 0 }
}

#[test]
fn help_toggles_on_question_mark() {
    let mut state = board();
    handle_show_help(key(Key::Char('?')), &mut state);
    assert!(state.show_help);
    handle_show_help(key(Key::Char('x')), &mut state);
    assert!(state.show_help);
    handle_show_help(key(Key::Char('?')), &mut state);
    assert!(!state.show_help);
}

#[test]
fn modes_switch_and_escape_returns_to_normal() {
    let mut state = board();
    handle_mode(key(Key::Char('i')), &mut state);
    assert_eq!(state.mode, Mode::Insert);
    handle_mode(key(Key::Char(':')), &mut state);
    assert_eq!(state.mode, Mode::Insert);
    handle_mode(key(Key::Esc), &mut state);
    assert_eq!(state.mode, Mode::Normal);
    handle_mode(key(Key::Char(':')), &mut state);
    assert_eq!(state.mode, Mode::Command);
    state.select_rows(vec![1]);
    handle_mode(key(Key::Esc), &mut state);
    assert_eq!(state.mode, Mode::Normal);
    assert!(state.selected_rows.is_empty());
    handle_mode(key(Key::Esc), &mut state);
    assert_eq!(state.mode, Mode::Normal);
}

#[test]
fn insert_mode_edits_and_publishes() {
    let mut state = board();
    assert_eq!(handle_insert(key(Key::Char('a')), &mut state, "a"), None);
    state.set_mode(Mode::Insert);
    assert_eq!(handle_insert(alt(Key::Backspace), &mut state, "a"), Some(EditAction::DeleteWord));
    assert_eq!(handle_insert(alt(Key::Left), &mut state, "a"), Some(EditAction::WordBack));
    assert_eq!(handle_insert(alt(Key::Right), &mut state, "a"), Some(EditAction::WordForward));
    assert_eq!(handle_insert(key(Key::Backspace), &mut state, "a"), Some(EditAction::Input));
    assert_eq!(handle_insert(key(Key::Enter), &mut state, ""), Some(EditAction::DeleteLineByHead));
    assert!(state.take_actions().is_empty());
    assert_eq!(handle_insert(key(Key::Enter), &mut state, "line one\nline two :("), Some(EditAction::DeleteLineByHead));
    let actions = state.take_actions();
    assert_eq!(actions.len(), 1);
    assert!(matches!(&actions[0], NetworkAction::PublishNote(n)
        if n.author == "ana" && n.text == "line one\nline two " && n.sentiment == Sentiment::Sad));
}

#[test]
fn command_mode_edits_and_publishes() {
    let mut state = board();
    assert_eq!(handle_command(key(Key::Esc), &mut state, ""), None);
    state.set_mode(Mode::Command);
    state.select_rows(vec![3]);
    assert_eq!(handle_command(key(Key::Esc), &mut state, "g 1"), Some(EditAction::DeleteLineByHead));
    assert!(state.selected_rows.is_empty());
    assert_eq!(handle_command(alt(Key::Left), &mut state, ""), Some(EditAction::WordBack));
    assert_eq!(handle_command(key(Key::Char('g')), &mut state, ""), Some(EditAction::Input));
    assert_eq!(handle_command(key(Key::Enter), &mut state, "hello"), Some(EditAction::DeleteLineByHead));
    assert_eq!(state.take_actions().len(), 1);
}

#[test]
fn the_command_line_selects_rows() {
    let mut state = board();
    apply_command_line(&mut state, "g 1 2 x 3");
    assert_eq!(state.selected_rows, vec![1, 2, 3]);
    apply_command_line(&mut state, "vote  4");
    assert_eq!(state.selected_rows, vec![4]);
    apply_command_line(&mut state, "group\t0 9");
    assert_eq!(state.selected_rows, vec![0, 9]);
    apply_command_line(&mut state, "v");
    assert_eq!(state.selected_rows, vec![0, 9]);
    apply_command_line(&mut state, "delete 1");
    assert_eq!(state.selected_rows, vec![0, 9]);
    apply_command_line(&mut state, "g ");
    assert!(state.selected_rows.is_empty());
}

#[test]
fn enter_votes_for_the_selected_rows() {
    let mut state = board();
    state.set_notes(vec![note("a"), note("b"), note("c")]);
    state.set_mode(Mode::Command);
    state.select_rows(vec![2, 0, 7, 2]);
    assert_eq!(vote_command(key(Key::Enter), &mut state, "v 2 0"), Some(EditAction::Keep));
    assert!(state.has_voted("a") && state.has_voted("c") && !state.has_voted("b"));
    let actions = state.take_actions();
    assert_eq!(actions.len(), 2);
    assert!(matches!(&actions[0], NetworkAction::Vote(n) if n.id == "c"));
    assert!(matches!(&actions[1], NetworkAction::Vote(n) if n.id == "a"));
    assert_eq!(vote_command(key(Key::Enter), &mut state, "d"), Some(EditAction::Keep));
    assert!(!state.has_voted("a") && !state.has_voted("c"));
    assert_eq!(state.take_actions().len(), 2);
    assert_eq!(vote_command(key(Key::Enter), &mut state, "x"), Some(EditAction::Keep));
    assert!(state.take_actions().is_empty());
    assert_eq!(vote_command(key(Key::Esc), &mut state, "x"), Some(EditAction::DeleteLineByHead));
    assert!(state.selected_rows.is_empty());
}

#[test]
fn q_quits_in_normal_mode_only() {
    assert!(quits(key(Key::Char('q')), Mode::Normal));
    assert!(!quits(key(Key::Char('q')), Mode::Insert));
    assert!(!quits(key(Key::Char('w')), Mode::Normal));
}

#[test]
fn group_navigation_stays_on_the_board() {
    let mut state = NetBoard::new();
    handle_group(key(Key::Down), &mut state);
    assert_eq!(state.selected_row, None);
    state.set_mode(OldMode::Group);
    handle_group(key(Key::Down), &mut state);
    assert_eq!(state.selected_row, Some(0));
    handle_group(key(Key::Down), &mut state);
    assert_eq!(state.selected_row, Some(0));
    state.select_row(5);
    handle_group(key(Key::Up), &mut state);
    assert_eq!(state.selected_row, Some(4));
    handle_group(key(Key::Down), &mut state);
    assert_eq!(state.selected_row, Some(0));
}

#[test]
fn vote_navigation_and_requests() {
    let mut state = NetBoard::new();
    state.mode = OldMode::Vote;
    handle_vote(key(Key::Up), &mut state);
    assert_eq!(state.selected_row, Some(0));
    handle_vote(key(Key::Down), &mut state);
    assert_eq!(state.selected_row, Some(0));
    handle_vote(key(Key::Enter), &mut state);
    handle_vote(key(Key::Backspace), &mut state);
    assert!(state.take_actions().is_empty());
    state.mode = OldMode::Normal;
    handle_vote(key(Key::Up), &mut state);
    assert_eq!(state.selected_row, Some(0));
}
