//! The choices offered by the start-up prompts and the check of the name of
//! a query.

use vstd::prelude::*;
use crate::text::texts;

verus! {

/// The tokens offered when the token file lists none.
pub open spec fn default_tokens() -> Seq<Seq<char>> {
    seq!["bitcoin"@, "polkadot"@, "cardano"@, "ethereum"@]
}

/// The tokens offered by the selection prompts, given what reading the
/// token file gave (`None` when it could not be read): the file's tokens;
/// the four default tokens when the file lists none; no token when the file
/// could not be read.
pub fn my_vec_list_crypto(loaded: Option<Vec<String>>) -> (r: Vec<String>)
    ensures
        match loaded {
            Some(tokens) => if tokens@.len() == 0 {
                texts(r@) == default_tokens()
            } else {
                r@ == tokens@
            },
            None => r@.len() == 0,
        },
{
    match loaded {
        Some(tokens) => {
            if tokens.len() == 0 {
                let mut list: Vec<String> = Vec::new();
                list.push(String::from_str("bitcoin"));
                list.push(String::from_str("polkadot"));
                list.push(String::from_str("cardano"));
                list.push(String::from_str("ethereum"));
                assert(texts(list@) =~= default_tokens());
                list
            } else {
                tokens
            }
        },
        None => Vec::new(),
    }
}

/// The verdict on the name of a query.
#[derive(Debug)]
pub enum NameCheck {
    Valid,
    Invalid(String),
}

/// The byte that `c as u8` keeps of a character: its low eight bits.
pub open spec fn low_byte(c: char) -> int {
    (c as u32 as int) % 256
}

/// The verdict on a query name of at least one character: a name of 20
/// characters or more is too long; a shorter one must start with a
/// character whose low byte is an upper-case ASCII letter (65 to 90).
pub open spec fn name_check_message(input: Seq<char>) -> Option<Seq<char>> {
    if input.len() < 20 {
        if 65 <= low_byte(input[0]) <= 90 {
            None
        } else {
            Some("Nombre debe empezar con Mayuscula"@)
        }
    } else {
        Some("Nombre muy largo , solo puede usar 20 caracteres"@)
    }
}

/// Checks the name of a query typed at the prompt. The name must not be
/// empty.
pub fn validate_query_name(input: &str) -> (r: NameCheck)
    requires
        input@.len() > 0,
    ensures
        match name_check_message(input@) {
            None => r is Valid,
            Some(msg) => r matches NameCheck::Invalid(m) && m@ == msg,
        },
        r is Valid <==> (input@.len() < 20 && 65 <= (input@[0] as u32) % 256 <= 90),
        input@.len() >= 20 ==> (r matches NameCheck::Invalid(m) && m@
            == "Nombre muy largo , solo puede usar 20 caracteres"@),
        (input@.len() < 20 && !(65 <= (input@[0] as u32) % 256 <= 90)) ==> (r matches NameCheck::Invalid(m)
            && m@ == "Nombre debe empezar con Mayuscula"@),
{
    if input.unicode_len() < 20 {
        let first = input.get_char(0);
        let byte = (first as u32) % 256;
        if 65 <= byte && byte <= 90 {
            NameCheck::Valid
        } else {
            NameCheck::Invalid(String::from_str("Nombre debe empezar con Mayuscula"))
        }
    } else {
        NameCheck::Invalid(String::from_str("Nombre muy largo , solo puede usar 20 caracteres"))
    }
}


/// A name shorter than 20 characters is accepted exactly when the low byte
/// of its first character is an upper-case ASCII letter, and otherwise
/// refused for its first letter; a name of 20 characters or more is refused
/// as too long, whatever it starts with.
pub proof fn lemma_name_check(input: Seq<char>)
    requires
        input.len() > 0,
    ensures
        (input.len() < 20 && 65 <= (input[0] as u32) % 256 <= 90) ==> name_check_message(input) is None,
        (input.len() < 20 && !(65 <= (input[0] as u32) % 256 <= 90)) ==> name_check_message(input) == Some(
            "Nombre debe empezar con Mayuscula"@,
        ),
        input.len() >= 20 ==> name_check_message(input) == Some(
            "Nombre muy largo , solo puede usar 20 caracteres"@,
        ),
{
}

} // verus!
