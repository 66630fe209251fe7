//! The decisions of the background refresh tasks: how often they run and
//! what they report on the message line.

use vstd::prelude::*;

verus! {

/// Seconds between two registrations of the followed tokens.
pub const TOKEN_REGISTRY_INTERVAL_SECS: u64 = 600;

/// Seconds between two refreshes of the market data of the tokens.
pub const TOKEN_INFO_INTERVAL_SECS: u64 = 300;

/// What `str::to_uppercase` gives for a text: its Unicode upper-case form.
pub uninterp spec fn upper_case(text: Seq<char>) -> Seq<char>;

/// `str::to_uppercase`: the upper-case form of the text, as the Unicode
/// case tables of the standard library give it. The contract names that
/// result and says nothing more of it.
#[verifier::external_body]
pub(crate) fn to_upper_case(text: &str) -> (r: String)
    ensures
        r@ == upper_case(text@),
{
    text.to_uppercase()
}

/// What the market query for one token gave.
#[derive(Debug)]
pub enum CoinFetch {
    /// The query answered with this many coins.
    Listed(usize),
    /// The query failed with this error text.
    Failed(String),
}

/// What the refresh does for one token.
#[derive(Debug)]
pub enum InfoAction {
    /// Store the market data of the first coin of the answer.
    UpdateFromFirst,
    /// Send this text to the message line and go on with the next token.
    Report(String),
}

/// The report that the token list could not be read from the database.
pub fn tokens_read_error_message(err: &str) -> (r: String)
    ensures
        r@ == "Error al obtener tokens de la base de datos : "@ + err@,
{
    String::from_str("Error al obtener tokens de la base de datos : ").concat(err)
}

/// The report that storing the market data of `token` failed.
pub fn info_update_error_message(token: &str, err: &str) -> (r: String)
    ensures
        r@ == "Error al actualizar la base de datos para el token "@ + upper_case(token@) + ": "@ + err@,
{
    let up = to_upper_case(token);
    String::from_str("Error al actualizar la base de datos para el token ").concat(up.as_str()).concat(
        ": ",
    ).concat(err)
}

/// What the refresh of the market data does for `token`, given what the
/// market query gave: an answer with at least one coin is stored; an empty
/// answer and a failed query are reported, naming the token in upper case.
pub fn info_token_action(token: &str, fetch: CoinFetch) -> (r: InfoAction)
    ensures
        match fetch {
            CoinFetch::Listed(n) => if n > 0 {
                r is UpdateFromFirst
            } else {
                r matches InfoAction::Report(m) && m@ == "Simbolo vacio de datos para el token "@
                    + upper_case(token@) + ": empty"@
            },
            CoinFetch::Failed(e) => r matches InfoAction::Report(m) && m@
                == "Error al obtener datos de CoinGecko para el token "@ + upper_case(token@) + ": "@
                + e@,
        },
{
    match fetch {
        CoinFetch::Listed(n) => {
            if n > 0 {
                InfoAction::UpdateFromFirst
            } else {
                let up = to_upper_case(token);
                InfoAction::Report(
                    String::from_str("Simbolo vacio de datos para el token ").concat(
                        up.as_str(),
                    ).concat(": empty"),
                )
            }
        },
        CoinFetch::Failed(e) => {
            let up = to_upper_case(token);
            InfoAction::Report(
                String::from_str("Error al obtener datos de CoinGecko para el token ").concat(
                    up.as_str(),
                ).concat(": ").concat(e.as_str()),
            )
        },
    }
}

} // verus!
