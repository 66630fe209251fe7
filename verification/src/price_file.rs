//! The price file of a token: one record per line, a timestamp and a price
//! separated by white space.

use vstd::prelude::*;
use crate::text::{free_of_white_space, lemma_words_are_maximal_runs, words, words_of};

verus! {

/// Why a line of the price file holds no record.
#[derive(Debug, Clone, Copy, PartialEq, Eq, Structural)]
pub enum DataLineError {
    /// The line has no word at all.
    MissingTimestamp,
    /// The line has a timestamp but no price after it.
    MissingPrice,
}

impl DataLineError {
    /// The text with which the error is reported.
    pub fn message(&self) -> (r: &'static str)
        ensures
            r@ == (match self {
                DataLineError::MissingTimestamp => "Missing timestamp"@,
                DataLineError::MissingPrice => "Missing price"@,
            }),
    {
        match self {
            DataLineError::MissingTimestamp => "Missing timestamp",
            DataLineError::MissingPrice => "Missing price",
        }
    }
}

/// The timestamp and price texts of one line of the price file: its first
/// two words; words after them are ignored.
pub fn split_data_line(line: &str) -> (r: Result<(String, String), DataLineError>)
    ensures
        words(line@).len() == 0 ==> r == Err::<(String, String), DataLineError>(DataLineError::MissingTimestamp),
        words(line@).len() == 1 ==> r == Err::<(String, String), DataLineError>(DataLineError::MissingPrice),
        words(line@).len() >= 2 ==> (r matches Ok((t, p)) && t@ == words(line@)[0] && p@ == words(line@)[1]),
{
    let ws = words_of(line);
    if ws.len() == 0 {
        Err(DataLineError::MissingTimestamp)
    } else if ws.len() == 1 {
        Err(DataLineError::MissingPrice)
    } else {
        assert(ws@[0]@ == words(line@)[0]);
        assert(ws@[1]@ == words(line@)[1]);
        Ok((ws[0].clone(), ws[1].clone()))
    }
}


/// A line written as a timestamp, a tab and a price (both non-empty and
/// free of white space) has exactly those two texts as its words, so it
/// reads back as that timestamp and that price.
pub proof fn lemma_written_line_reads_back(timestamp: Seq<char>, price: Seq<char>)
    requires
        timestamp.len() > 0,
        price.len() > 0,
        free_of_white_space(timestamp),
        free_of_white_space(price),
    ensures
        words(timestamp + seq!['\t'] + price) == seq![timestamp, price],
{
    lemma_words_are_maximal_runs(timestamp, '\t', price);
    lemma_words_are_maximal_runs(price, '\t', price);
    assert(seq![timestamp] + seq![price] =~= seq![timestamp, price]);
}

} // verus!
