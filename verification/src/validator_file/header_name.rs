//! HTTP header names.

use vstd::prelude::*;
use std::str::FromStr;

verus! {

/// The longest header name that is accepted, in bytes.
pub const MAX_HEADER_NAME_LEN: usize = 65535;

/// Whether `c` is a letter of the upper case A to Z.
pub open spec fn is_upper(c: char) -> bool {
    'A' as u32 <= c as u32 <= 'Z' as u32
}

/// Whether `c` may stand in a header name: a letter or digit of ASCII, or
/// one of the signs that a token admits.
pub open spec fn is_token_char(c: char) -> bool {
    ||| '0' as u32 <= c as u32 <= '9' as u32
    ||| 'a' as u32 <= c as u32 <= 'z' as u32
    ||| is_upper(c)
    ||| c == '!'
    ||| c == '#'
    ||| c == '$'
    ||| c == '%'
    ||| c == '&'
    ||| c == '\''
    ||| c == '*'
    ||| c == '+'
    ||| c == '-'
    ||| c == '.'
    ||| c == '^'
    ||| c == '_'
    ||| c == '`'
    ||| c == '|'
    ||| c == '~'
}

/// The character that `c` is written as in a header name: upper case
/// letters in lower case, the others as they are.
pub open spec fn lowered(c: char) -> char {
    if is_upper(c) {
        ((c as u32) + 32) as char
    } else {
        c
    }
}

/// The header name that `name` stands for, if it is one: a name has between
/// one and 65535 characters, all of them admitted, and is held in lower
/// case.
pub open spec fn header_name(name: Seq<char>) -> Option<Seq<char>> {
    if 1 <= name.len() <= MAX_HEADER_NAME_LEN && forall|i: int|
        0 <= i < name.len() ==> is_token_char(#[trigger] name[i]) {
        Some(Seq::new(name.len(), |i: int| lowered(name[i])))
    } else {
        None
    }
}

/// Whether `name` is a header name as it is held: valid, and in lower case.
pub open spec fn is_header_name(name: Seq<char>) -> bool {
    header_name(name) == Some(name)
}

/// A name that was parsed is a header name as it is held.
pub proof fn lemma_parsed_is_header_name(name: Seq<char>)
    requires
        header_name(name) is Some,
    ensures
        is_header_name(header_name(name).unwrap()),
{
    let parsed = header_name(name).unwrap();
    assert forall|i: int| 0 <= i < parsed.len() implies is_token_char(#[trigger] parsed[i])
        && lowered(parsed[i]) == parsed[i] by {
        assert(is_token_char(name[i]));
    }
    assert(Seq::new(parsed.len(), |i: int| lowered(parsed[i])) =~= parsed);
}

/// `http::HeaderName::from_str`, followed by `HeaderName::as_str`: parses
/// `name` as a header name and gives it as the crate holds it. The crate
/// accepts a name of 1 to 65535 bytes whose bytes are all in its table of
/// header characters, which holds the letters and digits of ASCII and the
/// signs ``!#$%&'*+-.^_`|~``, and maps the upper case letters to lower case.
#[verifier::external_body]
fn parse(name: &str) -> (r: Option<String>)
    ensures
        r.deep_view() == header_name(name@),
{
    match http::HeaderName::from_str(name) {
        Ok(parsed) => Some(parsed.as_str().to_string()),
        Err(_) => None,
    }
}

/// Parses `name` as a header name.
pub fn parse_header_name(name: &str) -> (r: Option<String>)
    ensures
        r.deep_view() == header_name(name@),
        r matches Some(parsed) ==> is_header_name(parsed@),
{
    let r = parse(name);
    proof {
        if header_name(name@) is Some {
            lemma_parsed_is_header_name(name@);
        }
    }
    r
}

} // verus!
