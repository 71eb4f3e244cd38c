//! Grids written as text: one row to a line, weights separated by white
//! space.
//!
//! Cutting the text into lines and words and reading a number are left to
//! the standard library; what is made of the pieces is proved here.

use crate::grid::{fits_memory, squared, weights_of, Grid, GridError};
use vstd::prelude::*;

verus! {

/// `text` without the white space at its two ends, as `str::trim` gives it.
pub uninterp spec fn trimmed(text: Seq<char>) -> Seq<char>;

/// The lines of `text`, as `str::lines` gives them.
pub uninterp spec fn text_lines(text: Seq<char>) -> Seq<Seq<char>>;

/// The words of `line`, as `str::split_whitespace` gives them.
pub uninterp spec fn line_words(line: Seq<char>) -> Seq<Seq<char>>;

/// The number that `word` spells, as `str::parse::<i32>` reads it, if it
/// spells one.
pub uninterp spec fn parsed_weight(word: Seq<char>) -> Option<i32>;

/// `str::trim`: the text between the leading and the trailing white space.
#[verifier::external_body]
fn trim(text: &str) -> (inner: &str)
    ensures
        inner@ == trimmed(text@),
{
    text.trim()
}

/// `str::lines`: the lines of the text in order, without their line ends.
#[verifier::external_body]
fn split_lines(text: &str) -> (lines: Vec<String>)
    ensures
        lines@.len() == text_lines(text@).len(),
        forall|i: int| 0 <= i < lines@.len() ==> (#[trigger] lines@[i])@ == text_lines(text@)[i],
{
    text.lines().map(String::from).collect()
}

/// `str::split_whitespace`: the words of the line in order.
#[verifier::external_body]
fn split_words(line: &str) -> (words: Vec<String>)
    ensures
        words@.len() == line_words(line@).len(),
        forall|i: int| 0 <= i < words@.len() ==> (#[trigger] words@[i])@ == line_words(line@)[i],
{
    line.split_whitespace().map(String::from).collect()
}

/// `str::parse::<i32>`: the number that the word spells, or nothing when
/// the standard library refuses the word.
#[verifier::external_body]
fn parse_weight(word: &str) -> (weight: Option<i32>)
    ensures
        weight == parsed_weight(word@),
{
    word.parse::<i32>().ok()
}

/// The weight a word stands for: its number, or zero when it spells none.
pub open spec fn word_weight(word: Seq<char>) -> int {
    match parsed_weight(word) {
        Some(w) => w as int,
        None => 0,
    }
}

/// The weights of one line, word by word.
pub open spec fn line_weights(line: Seq<char>) -> Seq<int> {
    Seq::new(line_words(line).len(), |j: int| word_weight(line_words(line)[j]))
}

/// The weights that a text spells, line by line. White space around the
/// whole text does not count.
pub open spec fn text_weights(text: Seq<char>) -> Seq<Seq<int>> {
    let lines = text_lines(trimmed(text));
    Seq::new(lines.len(), |i: int| line_weights(lines[i]))
}

/// The weights of one line; a word that is no number counts as zero.
pub fn row_from_line(line: &str) -> (row: Vec<i32>)
    ensures
        row@.len() == line_weights(line@).len(),
        forall|j: int| 0 <= j < row@.len() ==> #[trigger] row@[j] as int == line_weights(line@)[j],
{
    let words = split_words(line);
    let mut row: Vec<i32> = Vec::new();
    let mut j: usize = 0;
    while j < words.len()
        invariant
            j <= words@.len(),
            row@.len() == j,
            words@.len() == line_words(line@).len(),
            forall|i: int| 0 <= i < words@.len() ==> (#[trigger] words@[i])@ == line_words(line@)[i],
            forall|i: int| 0 <= i < j ==> #[trigger] row@[i] as int == line_weights(line@)[i],
        decreases words@.len() - j,
    {
        let w: i32 = match parse_weight(words[j].as_str()) {
            Some(w) => w,
            None => 0,
        };
        row.push(w);
        j = j + 1;
    }
    row
}

/// The rows of weights that a text spells.
pub fn rows_from_text(text: &str) -> (rows: Vec<Vec<i32>>)
    ensures
        weights_of(rows@) == text_weights(text@),
{
    let lines = split_lines(trim(text));
    let mut rows: Vec<Vec<i32>> = Vec::new();
    let mut i: usize = 0;
    while i < lines.len()
        invariant
            i <= lines@.len(),
            rows@.len() == i,
            lines@.len() == text_lines(trimmed(text@)).len(),
            forall|k: int|
                0 <= k < lines@.len() ==> (#[trigger] lines@[k])@ == text_lines(trimmed(text@))[k],
            forall|k: int| 0 <= k < i ==> weights_of(rows@)[k] == #[trigger] text_weights(text@)[k],
        decreases lines@.len() - i,
    {
        let row = row_from_line(lines[i].as_str());
        let ghost before = rows@;
        rows.push(row);
        proof {
            assert(weights_of(rows@)[i as int] =~= text_weights(text@)[i as int]);
            assert forall|k: int| 0 <= k < i implies weights_of(rows@)[k] == #[trigger] text_weights(
                text@,
            )[k] by {
                assert(rows@[k] == before[k]);
                assert(weights_of(rows@)[k] =~= weights_of(before)[k]);
            }
        }
        i = i + 1;
    }
    assert(weights_of(rows@) =~= text_weights(text@));
    rows
}

/// Reads a grid from text. The first line fixes the width: longer lines
/// are cut, shorter ones filled with zeros. A text without a line, or whose
/// first line has no word, gives no grid.
pub fn grid_from_text(text: &str) -> (res: Result<Grid, GridError>)
    ensures
        match res {
            Ok(g) => {
                &&& text_weights(text@).len() >= 1
                &&& text_weights(text@)[0].len() >= 1
                &&& fits_memory(text_weights(text@).len(), text_weights(text@)[0].len())
                &&& g.wf()
                &&& g@ == squared(text_weights(text@))
            },
            Err(GridError::Empty) => text_weights(text@).len() == 0 || text_weights(text@)[0].len()
                == 0,
            Err(GridError::TooLarge) => {
                &&& text_weights(text@).len() >= 1
                &&& text_weights(text@)[0].len() >= 1
                &&& !fits_memory(text_weights(text@).len(), text_weights(text@)[0].len())
            },
        },
{
    let rows = rows_from_text(text);
    Grid::from_rows(&rows)
}

} // verus!
