//! The methods that requests are passed on with.

use axum::http::method::InvalidMethod;
use vstd::prelude::*;

verus! {

/// Whether `c` may stand in a method or in a field's name.
pub open spec fn is_token_char(c: char) -> bool {
    ||| '0' <= c && c <= '9'
    ||| 'A' <= c && c <= 'Z'
    ||| 'a' <= c && c <= 'z'
    ||| c == '!'
    ||| c == '#'
    ||| c == '$'
    ||| c == '%'
    ||| c == '&'
    ||| c == '\''
    ||| c == '*'
    ||| c == '+'
    ||| c == '-'
    ||| c == '.'
    ||| c == '^'
    ||| c == '_'
    ||| c == '`'
    ||| c == '|'
    ||| c == '~'
}

/// Whether `s` is made of such characters, and not empty.
pub open spec fn is_token(s: Seq<char>) -> bool {
    &&& s.len() > 0
    &&& forall|i: int| 0 <= i < s.len() ==> is_token_char(#[trigger] s[i])
}

/// The error type of `Method::from_bytes` in the `http` crate.
#[verifier::external_type_specification]
#[verifier::external_body]
pub struct ExInvalidMethod(InvalidMethod);

/// Calls `reqwest::Method::from_bytes` on the bytes of `method`, and takes the text of the
/// method out again. Trusted: the call succeeds exactly on a token, and the method's text is
/// the text that it was made from, in the same case.
#[verifier::external_body]
fn method_from_text(method: &str) -> (res: Result<String, InvalidMethod>)
    ensures
        res is Ok <==> is_token(method@),
        res matches Ok(text) ==> text@ == method@,
{
    reqwest::Method::from_bytes(method.as_bytes()).map(|m| m.as_str().to_string())
}

/// Returns the method that a request is passed on with, or `None` where the HTTP client has
/// no method of that name: the text is no token.
pub fn forward_method(method: &str) -> (res: Option<String>)
    ensures
        res is Some <==> is_token(method@),
        res matches Some(text) ==> text@ == method@,
{
    match method_from_text(method) {
        Ok(text) => Some(text),
        Err(_) => None,
    }
}

/// A token is a text of at least one character in which each character is an ASCII letter or
/// digit, by its code, or one of fifteen marks.
pub proof fn law_tokens_by_character(s: Seq<char>)
    ensures
        is_token(s) == (s.len() > 0 && forall|i: int|
            0 <= i < s.len() ==> {
                let code = #[trigger] s[i] as int;
                ||| 48 <= code <= 57
                ||| 65 <= code <= 90
                ||| 97 <= code <= 122
                ||| seq![
                    '!',
                    '#',
                    '$',
                    '%',
                    '&',
                    '\'',
                    '*',
                    '+',
                    '-',
                    '.',
                    '^',
                    '_',
                    '`',
                    '|',
                    '~',
                ].contains(s[i])
            }),
{
    let marks = seq![
        '!',
        '#',
        '$',
        '%',
        '&',
        '\'',
        '*',
        '+',
        '-',
        '.',
        '^',
        '_',
        '`',
        '|',
        '~',
    ];
    assert(marks.len() == 15);
    assert(marks[0] == '!' && marks[1] == '#' && marks[2] == '$' && marks[3] == '%' && marks[4]
        == '&' && marks[5] == '\'' && marks[6] == '*' && marks[7] == '+' && marks[8] == '-'
        && marks[9] == '.' && marks[10] == '^' && marks[11] == '_' && marks[12] == '`'
        && marks[13] == '|' && marks[14] == '~');
    assert forall|c: char| #[trigger] is_token_char(c) == {
        let code = c as int;
        ||| 48 <= code <= 57
        ||| 65 <= code <= 90
        ||| 97 <= code <= 122
        ||| marks.contains(c)
    } by {
        if marks.contains(c) {
            let i = choose|i: int| 0 <= i < marks.len() && marks[i] == c;
        }
    }
    if is_token(s) {
        assert forall|i: int| 0 <= i < s.len() implies is_token_char(#[trigger] s[i]) by {}
    } else if s.len() > 0 {
        let i = choose|i: int| 0 <= i < s.len() && !is_token_char(#[trigger] s[i]);
        assert(!is_token_char(s[i]));
    }
}

} // verus!
