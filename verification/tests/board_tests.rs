use retro::app::mode::Mode;
use retro::app::note::Note;
use retro::app::sentiment::Sentiment;
use retro::app::state::State;
use retro::cli::RetroArgs;
use retro::network::actions::NetworkAction;
use retro::string_set::StringSet;
use retro::ui::palette::Color;
use retro::state::note::{Note as StoredNote, Sentiment as S};
use retro::state::state::State as NetBoard;

fn board() -> State {
    State::new(RetroArgs { room: "room".to_string(), display_name: "ana".to_string() })
}

fn note(id: &str, sentiment: Sentiment) -> Note {
    Note { id: id.to_string(), text: "t".to_string(), author: "bo".to_string(), sentiment, votes: 0 }
}

#[test]
fn a_new_board_is_empty_and_normal() {
    let mut state = board();
    assert_eq!(state.mode, Mode::Normal);
    assert_eq!(state.display_name, "ana");
    assert!(state.notes.is_empty());
    assert_eq!(state.participants.len(), 0);
    assert_eq!(state.tick_count, 0);
    assert!(!state.show_help);
    assert!(state.take_actions().is_empty());
}

#[test]
fn adding_a_note_publishes_it() {
    let mut state = board();
    state.add_note(note("n1", Sentiment::Happy));
    let actions = state.take_actions();
    assert_eq!(actions.len(), 1);
    assert!(matches!(&actions[0], NetworkAction::PublishNote(n) if n.id == "n1"));
    assert!(state.take_actions().is_empty());
}

#[test]
fn each_user_votes_for_a_note_once() {
    let mut state = board();
    let n = note("n1", Sentiment::Happy);
    state.upvote(&n);
    state.upvote(&n);
    assert!(state.has_voted("n1"));
    let actions = state.take_actions();
    assert_eq!(actions.len(), 1);
    assert!(matches!(&actions[0], NetworkAction::Vote(v) if v.id == "n1"));
}

#[test]
fn unvote_follows_a_vote_only() {
    let mut state = board();
    let n = note("n1", Sentiment::Happy);
    state.downvote(&n);
    assert!(state.take_actions().is_empty());
    state.upvote(&n);
    state.downvote(&n);
    assert!(!state.has_voted("n1"));
    let actions = state.take_actions();
    assert_eq!(actions.len(), 2);
    assert!(matches!(&actions[0], NetworkAction::Vote(_)));
    assert!(matches!(&actions[1], NetworkAction::Unvote(v) if v.id == "n1"));
}

#[test]
fn grouping_is_refused() {
    let mut state = board();
    assert_eq!(state.group_notes(&"a".to_string(), &"a".to_string()).unwrap_err(), "");
    assert_eq!(state.group_notes(&"a".to_string(), &"b".to_string()).unwrap_err(), "No");
}

#[test]
fn ticks_count_up() {
    let mut state = board();
    state.tick();
    state.tick();
    assert_eq!(state.tick_count, 2);
}

#[test]
fn notes_participants_filter_and_rows() {
    let mut state = board();
    state.set_notes(vec![note("a", Sentiment::Happy), note("b", Sentiment::Sad), note("c", Sentiment::Happy)]);
    state.set_participants(StringSet::from_vec(vec!["x".to_string(), "y".to_string(), "x".to_string()]));
    assert_eq!(state.participants.len(), 2);
    assert!(state.participants.contains("y"));
    let counts = state.sentiment_count();
    assert_eq!(counts, [(Sentiment::Happy, 2), (Sentiment::Sad, 1), (Sentiment::Neutral, 0)]);
    state.set_filter(Sentiment::Sad);
    assert_eq!(state.filter, Some(Sentiment::Sad));
    state.reset_filter();
    assert_eq!(state.filter, None);
    state.select_row(2);
    assert_eq!(state.selected_row, Some(2));
    state.deselect_row();
    assert_eq!(state.selected_row, None);
    state.select_rows(vec![0, 2]);
    assert_eq!(state.selected_rows, vec![0, 2]);
    state.deselect_rows();
    assert!(state.selected_rows.is_empty());
    assert_eq!(state.note_at(1).unwrap().id, "b");
    assert!(state.note_at(3).is_none());
}

#[test]
fn publishing_text_makes_a_note_by_the_user() {
    let mut state = board();
    state.publish_text("");
    assert!(state.take_actions().is_empty());
    state.publish_text("nice :)");
    let actions = state.take_actions();
    assert_eq!(actions.len(), 1);
    match &actions[0] {
        NetworkAction::PublishNote(n) => {
            assert_eq!(n.author, "ana");
            assert_eq!(n.text, "nice ");
            assert_eq!(n.sentiment, Sentiment::Happy);
        }
        other => panic!("unexpected {:?}", other),
    }
}

#[test]
fn mode_labels_and_colours() {
    assert_eq!(Mode::Normal.to_string(), " NOR ");
    assert_eq!(Mode::Insert.to_string(), " INS ");
    assert_eq!(Mode::Command.to_string(), " CMD ");
    assert_eq!(Mode::Normal.get_color(), Color::White);
    assert_eq!(Mode::Insert.get_color(), Color::Blue);
    assert_eq!(Mode::Command.get_color(), Color::Red);
    assert_eq!(retro::mode::Mode::Group.to_string(), "GRP");
    assert_eq!(retro::mode::Mode::Filter.to_string(), "FND");
    assert_eq!(retro::mode::Mode::Vote.get_color(), (Color::Reset, Color::LightGreen));
}

#[test]
fn string_sets() {
    let mut set = StringSet::new();
    set.insert("a".to_string());
    set.insert("a".to_string());
    set.insert("b".to_string());
    assert_eq!(set.len(), 2);
    set.remove("a");
    assert!(!set.contains("a"));
    assert_eq!(set.to_vec(), vec!["b".to_string()]);
}

#[test]
fn the_network_board_publishes_and_votes_by_id() {
    let mut state = NetBoard::default();
    let n = StoredNote { id: "k".to_string(), text: "t".to_string(), author: "a".to_string(), sentiment: S::Sad, votes: 1 };
    state.add_note(n.clone());
    let actions = state.take_actions();
    assert!(matches!(&actions[0], NetworkAction::PublishNote(p) if p.id == "k" && p.sentiment == Sentiment::Sad));
    assert_eq!(state.note_count(), 0);
    state.dispatch(NetworkAction::GetNotes);
    assert_eq!(state.take_actions().len(), 1);
}

#[test]
fn a_room_change_refetches_then_listens_again() {
    let mut state = board();
    state.room_changed();
    let actions = state.take_actions();
    assert_eq!(actions.len(), 2);
    assert!(matches!(actions[0], NetworkAction::GetNotes));
    assert!(matches!(actions[1], NetworkAction::ListenForChanges));
}
