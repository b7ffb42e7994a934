//! The command line.
use vstd::prelude::*;

use crate::app::mode::Mode;
use crate::app::state::{published, State, StateView};
use crate::events::event::{word_edit, word_edit_of, EditAction, Key, KeyInput};
use crate::text::{
    chars_of, first_whitespace, indices_of, is_whitespace, lemma_indices_of_spaced, occurs_at_exec,
    parse_indices, spaced,
};

verus! {

/// `k` is where `line` first holds white space.
pub open spec fn splits_at(line: Seq<char>, k: int) -> bool {
    &&& 0 <= k < line.len()
    &&& is_whitespace(line[k])
    &&& forall|j: int| 0 <= j < k ==> !is_whitespace(#[trigger] line[j])
}

/// The commands that select rows: `group`, `g`, `vote` and `v`.
pub open spec fn selects_rows(command: Seq<char>) -> bool {
    ||| command == seq!['g', 'r', 'o', 'u', 'p']
    ||| command == seq!['g']
    ||| command == seq!['v', 'o', 't', 'e']
    ||| command == seq!['v']
}

/// The rows a command line selects: a line that starts with a selecting
/// command followed by white space selects the indices written after it.
pub open spec fn command_selection(line: Seq<char>) -> Option<Seq<usize>> {
    if exists|k: int| splits_at(line, k) {
        let k = choose|k: int| splits_at(line, k);
        if selects_rows(line.take(k)) {
            Some(indices_of(line.skip(k + 1)))
        } else {
            None
        }
    } else {
        None
    }
}

/// A line made of `group`, `g`, `vote` or `v`, one white space character
/// and the rest selects the indices written in the rest.
pub proof fn lemma_command_words_select(word: Seq<char>, c: char, rest: Seq<char>)
    requires
        word == seq!['g', 'r', 'o', 'u', 'p'] || word == seq!['g'] || word == seq!['v', 'o', 't', 'e']
            || word == seq!['v'],
        is_whitespace(c),
    ensures
        command_selection(word + seq![c] + rest) == Some(indices_of(rest)),
{
    let line = word + seq![c] + rest;
    let k = word.len() as int;
    assert forall|j: int| 0 <= j < k implies !is_whitespace(#[trigger] line[j]) by {
        assert(line[j] == word[j]);
    }
    assert(line[k] == c);
    assert(splits_at(line, k));
    let chosen = choose|x: int| splits_at(line, x);
    assert(chosen == k) by {
        if chosen < k {
            assert(!is_whitespace(line[chosen]));
        } else if chosen > k {
            assert(!is_whitespace(line[k]));
        }
    }
    assert(line.take(k) =~= word);
    assert(line.skip(k + 1) =~= rest);
}

/// A line made of `group`, `g`, `vote` or `v`, a space and numbers written
/// in decimal and separated by single spaces selects exactly those numbers,
/// in order.
pub proof fn lemma_command_selects_written_rows(word: Seq<char>, rows: Seq<usize>)
    requires
        word == seq!['g', 'r', 'o', 'u', 'p'] || word == seq!['g'] || word == seq!['v', 'o', 't', 'e']
            || word == seq!['v'],
    ensures
        command_selection(word + seq![' '] + spaced(rows)) == Some(rows),
{
    lemma_command_words_select(word, ' ', spaced(rows));
    lemma_indices_of_spaced(rows);
}

/// Whether `cs[0..k]` spells `word`.
fn spells(cs: &Vec<char>, k: usize, word: &Vec<char>) -> (r: bool)
    requires
        k <= cs@.len(),
    ensures
        r == (cs@.take(k as int) == word@),
{
    if k != word.len() {
        assert(cs@.take(k as int).len() != word@.len());
        return false;
    }
    let r = occurs_at_exec(cs, word, 0);
    assert(cs@.subrange(0, k as int) =~= cs@.take(k as int));
    r
}

/// Selects the rows that the first line of the command box names (see
/// [`command_selection`]); other lines leave the state.
pub fn apply_command_line(state: &mut State, line: &str)
    ensures
        final(state)@ == (match command_selection(line@) {
            Some(rows) => StateView { selected_rows: rows, ..old(state)@ },
            None => old(state)@,
        }),
{
    let cs = chars_of(line);
    match first_whitespace(&cs) {
        None => {
            assert(!exists|k: int| splits_at(line@, k));
        },
        Some(k) => {
            assert(splits_at(line@, k as int));
            proof {
                let c = choose|c: int| splits_at(line@, c);
                if c < k {
                    assert(!is_whitespace(line@[c]));
                } else if c > k {
                    assert(!is_whitespace(line@[k as int]));
                }
                assert(c == k);
            }
            let group: Vec<char> = vec!['g', 'r', 'o', 'u', 'p'];
            let g: Vec<char> = vec!['g'];
            let vote: Vec<char> = vec!['v', 'o', 't', 'e'];
            let v: Vec<char> = vec!['v'];
            assert(group@ =~= seq!['g', 'r', 'o', 'u', 'p']);
            assert(g@ =~= seq!['g']);
            assert(vote@ =~= seq!['v', 'o', 't', 'e']);
            assert(v@ =~= seq!['v']);
            if spells(&cs, k, &group) || spells(&cs, k, &g) || spells(&cs, k, &vote) || spells(
                &cs,
                k,
                &v,
            ) {
                let indices = parse_indices(&cs, k + 1);
                state.select_rows(indices);
            }
        },
    }
}

/// In command mode a key press edits the command line: Escape clears it and
/// the selected rows, Alt with Backspace, Left or Right deletes or moves by
/// words, Enter publishes the text (`text`, the box's lines joined by
/// newlines) as a note unless it is empty and clears the line, and any other
/// key is typed. The edit for the command box is returned; outside command
/// mode nothing happens. After the edit, [`apply_command_line`] reads the
/// box's first line.
pub fn handle_command(input: KeyInput, state: &mut State, text: &str) -> (edit: Option<EditAction>)
    ensures
        old(state)@.mode != Mode::Command ==> edit is None && final(state)@ == old(state)@,
        old(state)@.mode == Mode::Command ==> if input.key == Key::Esc {
            &&& edit == Some(EditAction::DeleteLineByHead)
            &&& final(state)@ == (StateView { selected_rows: Seq::empty(), ..old(state)@ })
        } else {
            match word_edit(input) {
                Some(e) => edit == Some(e) && final(state)@ == old(state)@,
                None => if input.key == Key::Enter {
                    &&& edit == Some(EditAction::DeleteLineByHead)
                    &&& published(old(state)@, final(state)@, text@)
                } else {
                    edit == Some(EditAction::Input) && final(state)@ == old(state)@
                },
            }
        },
{
    if state.current_mode() != Mode::Command {
        return None;
    }
    if let Key::Esc = input.key {
        state.deselect_rows();
        return Some(EditAction::DeleteLineByHead);
    }
    if let Some(e) = word_edit_of(input) {
        return Some(e);
    }
    match input.key {
        Key::Enter => {
            state.publish_text(text);
            Some(EditAction::DeleteLineByHead)
        },
        _ => Some(EditAction::Input),
    }
}

} // verus!
