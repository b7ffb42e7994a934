use retro::app::note::{FieldValue, Note, NoteFields};
use retro::app::sentiment::Sentiment;

#[test]
fn happy_smiley_makes_a_happy_note_and_is_taken_out() {
    let note = Note::new("ana".to_string(), "great sprint :)".to_string());
    assert_eq!(note.sentiment, Sentiment::Happy);
    assert_eq!(note.text, "great sprint ");
    assert_eq!(note.id, "great sprint :)");
    assert_eq!(note.author, "ana");
    assert_eq!(note.votes, 0);
}

#[test]
fn sad_smiley_makes_a_sad_note() {
    let note = Note::new("bo".to_string(), ":( builds were slow".to_string());
    assert_eq!(note.sentiment, Sentiment::Sad);
    assert_eq!(note.text, " builds were slow");
}

#[test]
fn happy_wins_over_sad() {
    let note = Note::new("bo".to_string(), "mixed :( :)".to_string());
    assert_eq!(note.sentiment, Sentiment::Happy);
    assert_eq!(note.text, "mixed  ");
}

#[test]
fn no_smiley_is_neutral() {
    let note = Note::new("bo".to_string(), "just a note :|".to_string());
    assert_eq!(note.sentiment, Sentiment::Neutral);
    assert_eq!(note.text, "just a note :|");
}

#[test]
fn smileys_are_removed_sad_first_then_happy() {
    // removing ":(" first joins "::))" -> no match, then ":)" at 1 leaves ":)"
    let note = Note::new("x".to_string(), "::))".to_string());
    assert_eq!(note.text, ":)");
    let note = Note::new("x".to_string(), ":(:)".to_string());
    assert_eq!(note.text, "");
}

#[test]
fn note_is_shown_with_padded_author_smiley_and_votes() {
    let mut note = Note::new("ana".to_string(), "good :)".to_string());
    assert_eq!(note.to_string(), "ana      :) good  ");
    note.votes = 12;
    assert_eq!(note.to_string(), "ana      :) good  [+12]");
    note.author = "a-very-long-name".to_string();
    note.votes = 0;
    assert_eq!(note.to_string(), "a-very-long-name :) good  ");
}

#[test]
fn sentiment_symbols() {
    assert_eq!(Sentiment::Happy.to_string(), ":)");
    assert_eq!(Sentiment::Sad.to_string(), ":(");
    assert_eq!(Sentiment::Neutral.to_string(), ":|");
    assert_eq!(Sentiment::from_symbol(":)"), Sentiment::Happy);
    assert_eq!(Sentiment::from_symbol(":("), Sentiment::Sad);
    assert_eq!(Sentiment::from_symbol(":|"), Sentiment::Neutral);
    assert_eq!(Sentiment::from_symbol("happy"), Sentiment::Neutral);
}

#[test]
fn stored_fields_read_back_to_the_same_note() {
    let mut note = Note::new("ana".to_string(), "ship it :(".to_string());
    note.votes = 7;
    let fields = note.to_fields();
    let back = Note::from_fields(fields);
    assert_eq!(back.author, "ana");
    assert_eq!(back.text, note.text);
    assert_eq!(back.sentiment, Sentiment::Sad);
    assert_eq!(back.votes, 7);
    assert_eq!(back.id, "id");
}

#[test]
fn stored_fields_have_the_documented_shape() {
    let mut note = Note::new("ana".to_string(), "ok :)".to_string());
    note.votes = 3;
    let fields = note.to_fields();
    assert!(matches!(fields.author, FieldValue::Text(ref a) if a == "ana"));
    assert!(matches!(fields.text, FieldValue::Text(ref t) if t == "ok "));
    assert!(matches!(fields.sentiment, FieldValue::Text(ref s) if s == ":)"));
    assert!(matches!(fields.votes, FieldValue::Integer(3)));
}

#[test]
fn unexpected_field_kinds_read_as_defaults() {
    let fields = NoteFields {
        author: FieldValue::Integer(4),
        text: FieldValue::Other,
        sentiment: FieldValue::Integer(1),
        votes: FieldValue::Text("9".to_string()),
    };
    let note = Note::from_fields(fields);
    assert_eq!(note.author, "");
    assert_eq!(note.text, "");
    assert_eq!(note.sentiment, Sentiment::Neutral);
    assert_eq!(note.votes, 0);
}

#[test]
fn stored_votes_keep_their_low_eight_bits() {
    let fields = NoteFields {
        author: FieldValue::Text("a".to_string()),
        text: FieldValue::Text("t".to_string()),
        sentiment: FieldValue::Text(":(".to_string()),
        votes: FieldValue::Integer(300),
    };
    let note = Note::from_fields(fields);
    assert_eq!(note.votes, 44);
    assert_eq!(note.sentiment, Sentiment::Sad);
    let fields = NoteFields {
        author: FieldValue::Other,
        text: FieldValue::Other,
        sentiment: FieldValue::Other,
        votes: FieldValue::Integer(-1),
    };
    assert_eq!(Note::from_fields(fields).votes, 255);
}

#[test]
fn cloned_note_is_equal_field_by_field() {
    let note = Note::new("ana".to_string(), "x :)".to_string());
    let copy = note.clone();
    assert_eq!(copy.id, note.id);
    assert_eq!(copy.text, note.text);
    assert_eq!(copy.author, note.author);
    assert_eq!(copy.sentiment, note.sentiment);
}

#[test]
fn notes_kept_by_id() {
    let note = retro::state::note::Note::new("ana".to_string(), "yes :(".to_string());
    assert_eq!(note.sentiment, retro::state::note::Sentiment::Sad);
    assert_eq!(note.text, "yes ");
    assert_eq!(note.to_string(), "ana: yes ");
    assert_eq!(retro::state::note::Sentiment::Happy.to_string(), ":)");
    assert_eq!(retro::note::Sentiment::Neutral.to_string(), ":|");
    let board: Note = Note::from(note);
    assert_eq!(board.sentiment, Sentiment::Sad);
    assert_eq!(board.id, "yes :(");
}
