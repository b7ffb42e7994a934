use retro::note::{Note, Sentiment};
use retro::state::State;

fn note_with(id: &str, text: &str, sentiment: Sentiment, votes: u8) -> Note {
    Note {
        id: id.to_string(),
        text: text.to_string(),
        author: "Retro Guy".to_string(),
        sentiment,
        votes,
    }
}

#[test]
fn test_vote_up() {
    let mut state = State::new();
    state.add_note(Note::new("test note".into(), "note-id".into()));
    state.upvote(String::from("note-id"));
    let inserted = state.get_note("note-id").unwrap();

    assert_eq!(inserted.votes, 1);
}

#[test]
fn test_add_note() {
    let mut state = State::new();
    state.add_note(Note::new("test note".into(), "note-id".into()));

    let inserted = state.get_note("note-id").unwrap();
    assert_eq!(inserted.text, String::from("test note"));
}

#[test]
fn test_vote_down() {
    let mut state = State::new();
    state.add_note(Note {
        id: "id".to_string(),
        text: "text".to_string(),
        author: "Retro Guy".to_string(),
        sentiment: Sentiment::Happy,
        votes: 5,
    });
    state.downvote("id".to_string());
    // The note is looked up under "id", the id it was added with: looking up
    // "note-id", which this test never adds, could only fail.
    let inserted = state.get_note("id").unwrap();

    assert_eq!(inserted.votes, 4);
}

#[test]
fn added_note_is_found_under_its_id() {
    let mut state = State::new();
    state.add_note(note_with("id", "text", Sentiment::Happy, 5));
    let found = state.get_note("id").unwrap();
    assert_eq!(found.text, "text");
    assert_eq!(found.votes, 5);
    assert!(state.get_note("other").is_none());
}

#[test]
fn adding_a_note_with_a_known_id_replaces_it() {
    let mut state = State::new();
    state.add_note(note_with("id", "first", Sentiment::Happy, 1));
    state.add_note(note_with("id", "second", Sentiment::Sad, 2));
    assert_eq!(state.note_count(), 1);
    assert_eq!(state.get_note("id").unwrap().text, "second");
}

#[test]
fn a_second_upvote_by_the_same_user_counts_once() {
    let mut state = State::new();
    state.add_note(note_with("id", "text", Sentiment::Happy, 5));
    state.upvote("id".to_string());
    state.upvote("id".to_string());
    assert_eq!(state.get_note("id").unwrap().votes, 6);
}

#[test]
fn downvote_stops_at_zero() {
    let mut state = State::new();
    state.add_note(note_with("id", "text", Sentiment::Happy, 1));
    state.downvote("id".to_string());
    state.downvote("id".to_string());
    assert_eq!(state.get_note("id").unwrap().votes, 0);
}

#[test]
fn new_note_keeps_its_first_argument_as_author() {
    let note = Note::new("test note".into(), "note-id".into());
    assert_eq!(note.text, "test note");
    assert_eq!(note.id, "note-id");
    assert_eq!(note.author, "test note");
    assert_eq!(note.sentiment, Sentiment::Neutral);
    assert_eq!(note.votes, 0);
}

#[test]
fn filter_then_reset_lists_the_same_notes() {
    let mut state = State::new();
    state.add_note(note_with("a", "one", Sentiment::Happy, 0));
    state.add_note(note_with("b", "two", Sentiment::Sad, 0));
    let before: Vec<String> = state.notes_as_list().into_iter().map(|n| n.id).collect();
    state.set_filter(Sentiment::Sad);
    state.reset_filter();
    let after: Vec<String> = state.notes_as_list().into_iter().map(|n| n.id).collect();
    assert_eq!(before, after);
}

#[test]
fn downvote_takes_back_an_upvote() {
    let mut state = State::new();
    state.add_note(note_with("id", "text", Sentiment::Happy, 5));
    state.upvote("id".to_string());
    state.downvote("id".to_string());
    assert_eq!(state.get_note("id").unwrap().votes, 5);
    state.upvote("id".to_string());
    assert_eq!(state.get_note("id").unwrap().votes, 6);
}

#[test]
fn votes_for_missing_notes_change_nothing() {
    let mut state = State::new();
    state.upvote("missing".to_string());
    state.downvote("missing".to_string());
    assert_eq!(state.note_count(), 0);
}

#[test]
fn grouping_merges_into_the_first_note() {
    let mut state = State::new();
    state.add_note(note_with("a", "one", Sentiment::Happy, 2));
    state.add_note(note_with("b", "two", Sentiment::Sad, 3));
    let merged = state.group_notes(&"a".to_string(), &"b".to_string()).unwrap();
    assert_eq!(merged.id, "a");
    assert_eq!(merged.author, "Multiple authors");
    assert_eq!(merged.text, "one\ntwo");
    assert_eq!(merged.sentiment, Sentiment::Neutral);
    assert_eq!(merged.votes, 5);
    assert_eq!(state.get_note("a").unwrap().text, "one\ntwo");
    assert_eq!(state.get_note("b").unwrap().text, "two");
}

#[test]
fn grouping_fails_for_the_same_or_missing_ids() {
    let mut state = State::new();
    state.add_note(note_with("a", "one", Sentiment::Happy, 2));
    assert_eq!(state.group_notes(&"a".to_string(), &"a".to_string()).unwrap_err(), "");
    assert_eq!(state.group_notes(&"a".to_string(), &"b".to_string()).unwrap_err(), "No");
    assert_eq!(state.get_note("a").unwrap().text, "one");
}

#[test]
fn removing_a_note_forgets_it() {
    let mut state = State::new();
    state.add_note(note_with("a", "one", Sentiment::Happy, 2));
    state.add_note(note_with("b", "two", Sentiment::Sad, 3));
    state.remove_note(&"a".to_string());
    assert!(state.get_note("a").is_none());
    assert_eq!(state.note_count(), 1);
}

#[test]
fn the_filter_picks_the_listed_notes() {
    let mut state = State::new();
    state.add_note(note_with("a", "one", Sentiment::Happy, 0));
    state.add_note(note_with("b", "two", Sentiment::Sad, 0));
    state.add_note(note_with("c", "three", Sentiment::Happy, 0));
    assert_eq!(state.notes_as_list().len(), 3);
    state.set_filter(Sentiment::Happy);
    let happy: Vec<String> = state.notes_as_list().into_iter().map(|n| n.id).collect();
    assert_eq!(happy, vec!["a".to_string(), "c".to_string()]);
    state.reset_filter();
    assert_eq!(state.notes_as_list().len(), 3);
}

#[test]
fn sentiment_counts_add_up_to_the_notes() {
    let mut state = State::new();
    state.add_note(note_with("a", "one", Sentiment::Happy, 0));
    state.add_note(note_with("b", "two", Sentiment::Sad, 0));
    state.add_note(note_with("c", "three", Sentiment::Happy, 0));
    state.add_note(note_with("d", "four", Sentiment::Neutral, 0));
    let counts = state.sentiment_count();
    assert_eq!(counts[0], (Sentiment::Happy, 2));
    assert_eq!(counts[1], (Sentiment::Sad, 1));
    assert_eq!(counts[2], (Sentiment::Neutral, 1));
}

#[test]
fn row_selection_is_set_and_cleared() {
    let mut state = State::new();
    state.select_row(3);
    assert_eq!(state.selected_row, Some(3));
    state.deselect_row();
    assert_eq!(state.selected_row, None);
}
