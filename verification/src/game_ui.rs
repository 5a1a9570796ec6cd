//! The display during play: what the score line says.

use crate::combat::components::Scores;
use vstd::prelude::*;

verus! {

/// The character of a decimal digit.
pub open spec fn digit(d: nat) -> char
    recommends
        d < 10,
{
    ('0' as nat + d) as char
}

/// A number written in decimal, without sign or leading zeros.
pub open spec fn decimal(n: nat) -> Seq<char>
    decreases n,
{
    if n < 10 {
        seq![digit(n)]
    } else {
        decimal(n / 10).push(digit(n % 10))
    }
}

/// The score line for a score of `amount`.
pub open spec fn score_text(amount: u32) -> Seq<char> {
    "Score: "@ + decimal(amount as nat)
}

/// `format!` of a number alone: the number as the standard library displays
/// an unsigned integer, in decimal.
#[verifier::external_body]
fn format_number(number: u32) -> (text: String)
    ensures
        text@ == decimal(number as nat),
{
    format!("{}", number)
}

/// Writes the score line for a score of `amount`: the words and then the
/// number.
fn format_score(amount: u32) -> (text: String)
    ensures
        text@ == score_text(amount),
{
    let number = format_number(amount);
    String::from_str("Score: ").concat(number.as_str())
}

/// Writes the score line anew.
///
/// `scores` holds the scores that changed, of players, and `texts` says how
/// many score lines there are on the screen. With exactly one of each the
/// new words of the line are returned, and else nothing.
pub fn display_scores(scores: &Vec<Scores>, texts: usize) -> (text: Option<String>)
    ensures
        match text {
            Some(text) => scores@.len() == 1 && texts == 1 && text@ == score_text(
                scores@[0].amount,
            ),
            None => !(scores@.len() == 1 && texts == 1),
        },
{
    if scores.len() == 1 && texts == 1 {
        Some(format_score(scores[0].amount))
    } else {
        None
    }
}

} // verus!
