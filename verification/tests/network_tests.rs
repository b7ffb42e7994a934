use retro::app::mode::Mode;
use retro::app::note::{FieldValue, Note, NoteFields};
use retro::app::sentiment::Sentiment;
use retro::app::state::State;
use retro::cli::RetroArgs;
use retro::network::network::Network;
use retro::network::remote::{notes_from_documents, participants_of, show_documents, with_one_more_vote, Remote, StoredNote};
use retro::ui::help::{help_text, help_title};
use retro::ui::notes_list::{display_note, is_highlighted};
use retro::ui::room_info::room_label;
use retro::ui::status_bar::participants_label;

fn document(name: &str, author: &str, votes: i64) -> StoredNote {
    StoredNote {
        name: name.to_string(),
        fields: NoteFields {
            author: FieldValue::Text(author.to_string()),
            text: FieldValue::Text(format!("text of {}", name)),
            sentiment: FieldValue::Text(":)".to_string()),
            votes: FieldValue::Integer(votes),
        },
    }
}

#[test]
fn paths_of_the_room() {
    let room = "team-a".to_string();
    let network = Network::new(&room);
    assert_eq!(network.root_path(), "projects/retrodog-23512/databases/(default)/documents/retros/team-a");
    let remote = Remote::new(&room);
    assert_eq!(remote.database_path(), "projects/retrodog-23512/databases/(default)");
    assert_eq!(remote.room_path(), "projects/retrodog-23512/databases/(default)/documents/retros/team-a");
}

#[test]
fn documents_become_notes_last_first() {
    let notes = notes_from_documents(vec![document("d1", "ana", 1), document("d2", "bo", 2)]);
    assert_eq!(notes.len(), 2);
    assert_eq!(notes[0].id, "d2");
    assert_eq!(notes[0].author, "bo");
    assert_eq!(notes[0].votes, 2);
    assert_eq!(notes[0].text, "text of d2");
    assert_eq!(notes[0].sentiment, Sentiment::Happy);
    assert_eq!(notes[1].id, "d1");
}

#[test]
fn participants_are_the_authors_once_each() {
    let notes = notes_from_documents(vec![document("d1", "ana", 1), document("d2", "bo", 2), document("d3", "ana", 0)]);
    let participants = participants_of(&notes);
    assert_eq!(participants.len(), 2);
    assert!(participants.contains("ana") && participants.contains("bo"));
}

#[test]
fn documents_are_shown_on_the_board() {
    let mut state = State::new(RetroArgs { room: "r".to_string(), display_name: "me".to_string() });
    show_documents(&mut state, vec![document("d1", "ana", 1), document("d2", "bo", 2)]);
    assert_eq!(state.notes.len(), 2);
    assert_eq!(state.notes[0].id, "d2");
    assert_eq!(state.participants.len(), 2);
}

#[test]
fn a_vote_written_back_adds_one() {
    let note = Note::new("ana".to_string(), "x".to_string());
    let voted = with_one_more_vote(&note);
    assert_eq!(voted.votes, 1);
    assert_eq!(voted.id, note.id);
    assert_eq!(voted.text, note.text);
}

#[test]
fn list_lines_and_highlights() {
    let mut note = Note::new("ana".to_string(), "ok :)".to_string());
    note.votes = 2;
    assert_eq!(display_note(&note, &Mode::Normal, &3), "ana      :) ok  [+2]");
    assert_eq!(display_note(&note, &Mode::Command, &3), "3 ana      :) ok  [+2]");
    let mut state = State::new(RetroArgs { room: "r".to_string(), display_name: "me".to_string() });
    state.select_rows(vec![1, 4]);
    assert!(!is_highlighted(&1, &state));
    state.set_mode(Mode::Command);
    assert!(is_highlighted(&1, &state));
    assert!(is_highlighted(&4, &state));
    assert!(!is_highlighted(&2, &state));
}

#[test]
fn labels() {
    assert_eq!(room_label(&"ana".to_string(), &"retro-1".to_string()), "ana @ retro-1");
    assert_eq!(participants_label(3), "3 participants");
    assert_eq!(help_title(&Mode::Command), "Help ( CMD )");
    assert!(help_text(&Mode::Normal).contains("q  quit retro"));
    assert!(help_text(&Mode::Insert).contains("Create note"));
    assert!(help_text(&Mode::Command).contains("downvote"));
}
