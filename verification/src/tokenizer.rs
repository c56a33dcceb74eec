//! The lexer: source text to a token sequence.
//!
//! `spec_tokenize_from` is the mathematical scanner; [`tokenize`] is the
//! executable one, proved to produce exactly the token sequence of the model.

use vstd::prelude::*;

use crate::token::{Tok, Token};

verus! {

/// The one lexical error: a numeric literal that does not fit in a 32-bit
/// signed integer.
#[derive(Debug, PartialEq)]
pub enum LexError {
    NumberOutOfRange,
}

/// The whitespace characters the scanner skips.
pub open spec fn is_ws(c: char) -> bool {
    c == ' ' || c == '\t' || c == '\n' || c == '\r'
}

/// A decimal digit.
pub open spec fn is_digit_char(c: char) -> bool {
    48 <= c as u32 && c as u32 <= 57
}

/// Whether a character has the Unicode `Alphabetic` property. The property
/// is a large character table, so it is left as a named predicate; the
/// executable scanner consults `char::is_alphabetic` through
/// [`is_alphabetic_ch`].
pub uninterp spec fn char_is_alphabetic(c: char) -> bool;

/// Relies on char::is_alphabetic: whether the character has the Unicode
/// `Alphabetic` property, a function of the character alone.
#[verifier::external_body]
fn is_alphabetic_ch(c: char) -> (r: bool)
    ensures
        r == char_is_alphabetic(c),
{
    c.is_alphabetic()
}

/// A character that may continue an identifier: alphabetic or underscore.
/// Digits are deliberately not permitted inside identifiers.
pub open spec fn is_ident_continue(c: char) -> bool {
    char_is_alphabetic(c) || c == '_'
}

/// The numeric value of a decimal digit character.
pub open spec fn digit_val(c: char) -> int {
    c as u32 - 48
}

/// The value of a run of decimal digit characters, most significant first.
pub open spec fn digits_val(s: Seq<char>) -> int
    decreases s.len(),
{
    if s.len() == 0 {
        0
    } else {
        digits_val(s.drop_last()) * 10 + digit_val(s.last())
    }
}

/// The index just past the run of decimal digits starting at `i`.
pub open spec fn digit_run_end(s: Seq<char>, i: nat) -> nat
    decreases s.len() - i,
{
    if i < s.len() && is_digit_char(s[i as int]) {
        digit_run_end(s, (i + 1) as nat)
    } else {
        i
    }
}

/// The index just past the run of identifier-continuation characters
/// starting at `i`.
pub open spec fn ident_run_end(s: Seq<char>, i: nat) -> nat
    decreases s.len() - i,
{
    if i < s.len() && is_ident_continue(s[i as int]) {
        ident_run_end(s, (i + 1) as nat)
    } else {
        i
    }
}

/// The index of the first `"` at or after `i`, or the length of `s` if
/// there is none.
pub open spec fn find_quote(s: Seq<char>, i: nat) -> nat
    decreases s.len() - i,
{
    if i >= s.len() {
        s.len()
    } else if s[i as int] == '"' {
        i
    } else {
        find_quote(s, (i + 1) as nat)
    }
}

/// The keyword table: a few short words are reserved, everything else is a
/// plain identifier.
pub open spec fn keyword_or_identifier(text: Seq<char>) -> Tok {
    if text == "v"@ {
        Tok::V
    } else if text == "w"@ {
        Tok::W
    } else if text == "i"@ {
        Tok::I
    } else if text == "f"@ {
        Tok::F
    } else if text == "true"@ {
        Tok::Boolean(true)
    } else if text == "false"@ {
        Tok::Boolean(false)
    } else if text == "p"@ {
        Tok::Print
    } else if text == "r"@ {
        Tok::Return
    } else {
        Tok::Identifier(text)
    }
}

/// Prepends one token to a scan result that may have failed.
pub open spec fn cons_tok(t: Tok, rest: Option<Seq<Tok>>) -> Option<Seq<Tok>> {
    match rest {
        Some(r) => Some(seq![t] + r),
        None => None,
    }
}

/// Prepends a sequence of tokens to a scan result that may have failed.
pub open spec fn cons_toks(pre: Seq<Tok>, rest: Option<Seq<Tok>>) -> Option<Seq<Tok>> {
    match rest {
        Some(r) => Some(pre + r),
        None => None,
    }
}

/// The mathematical scanner, from position `i` to the end of the text.
///
/// It mirrors the scanning rules exactly: whitespace is skipped; `!=`, `==`,
/// `<=` and `>=` are matched greedily by one-character lookahead; `&` and `|`
/// are single-character operators; a string literal runs verbatim to the
/// next `"` or, unterminated, to the end of the text; a digit run is a
/// 32-bit number or the one lexical error; an alphabetic character starts an
/// identifier (continued by alphabetics and underscores) that may turn out
/// to be a keyword; anything else is an `Unknown` token. The scan of the
/// whole text always ends with `EndOfFile`.
pub open spec fn spec_tokenize_from(s: Seq<char>, i: nat) -> Option<Seq<Tok>>
    decreases s.len() - i,
    via spec_tokenize_from_dec
{
    if i >= s.len() {
        Some(seq![Tok::EndOfFile])
    } else {
        let c = s[i as int];
        if is_ws(c) {
            spec_tokenize_from(s, (i + 1) as nat)
        } else if c == '!' {
            if i + 1 < s.len() && s[i as int + 1] == '=' {
                cons_tok(Tok::NotEqual, spec_tokenize_from(s, (i + 2) as nat))
            } else {
                cons_tok(Tok::Bang, spec_tokenize_from(s, (i + 1) as nat))
            }
        } else if c == '=' {
            if i + 1 < s.len() && s[i as int + 1] == '=' {
                cons_tok(Tok::EqualEqual, spec_tokenize_from(s, (i + 2) as nat))
            } else {
                cons_tok(Tok::Equals, spec_tokenize_from(s, (i + 1) as nat))
            }
        } else if c == ',' {
            cons_tok(Tok::Comma, spec_tokenize_from(s, (i + 1) as nat))
        } else if c == '<' {
            if i + 1 < s.len() && s[i as int + 1] == '=' {
                cons_tok(Tok::LessThanEquals, spec_tokenize_from(s, (i + 2) as nat))
            } else {
                cons_tok(Tok::LessThan, spec_tokenize_from(s, (i + 1) as nat))
            }
        } else if c == '>' {
            if i + 1 < s.len() && s[i as int + 1] == '=' {
                cons_tok(Tok::GreaterThanEquals, spec_tokenize_from(s, (i + 2) as nat))
            } else {
                cons_tok(Tok::GreaterThan, spec_tokenize_from(s, (i + 1) as nat))
            }
        } else if c == '&' {
            cons_tok(Tok::And, spec_tokenize_from(s, (i + 1) as nat))
        } else if c == '|' {
            cons_tok(Tok::Or, spec_tokenize_from(s, (i + 1) as nat))
        } else if c == '+' {
            cons_tok(Tok::Plus, spec_tokenize_from(s, (i + 1) as nat))
        } else if c == '-' {
            cons_tok(Tok::Minus, spec_tokenize_from(s, (i + 1) as nat))
        } else if c == '*' {
            cons_tok(Tok::Asterisk, spec_tokenize_from(s, (i + 1) as nat))
        } else if c == '/' {
            cons_tok(Tok::Slash, spec_tokenize_from(s, (i + 1) as nat))
        } else if c == '%' {
            cons_tok(Tok::Percent, spec_tokenize_from(s, (i + 1) as nat))
        } else if c == '(' {
            cons_tok(Tok::LeftParen, spec_tokenize_from(s, (i + 1) as nat))
        } else if c == ')' {
            cons_tok(Tok::RightParen, spec_tokenize_from(s, (i + 1) as nat))
        } else if c == '{' {
            cons_tok(Tok::LeftBrace, spec_tokenize_from(s, (i + 1) as nat))
        } else if c == '}' {
            cons_tok(Tok::RightBrace, spec_tokenize_from(s, (i + 1) as nat))
        } else if c == '"' {
            let close = find_quote(s, (i + 1) as nat);
            let rest = if close < s.len() {
                spec_tokenize_from(s, (close + 1) as nat)
            } else {
                spec_tokenize_from(s, s.len())
            };
            cons_tok(Tok::StrLit(s.subrange(i as int + 1, close as int)), rest)
        } else if is_digit_char(c) {
            let j = digit_run_end(s, i);
            let v = digits_val(s.subrange(i as int, j as int));
            if v > i32::MAX as int {
                None
            } else {
                cons_tok(Tok::Number(v), spec_tokenize_from(s, j))
            }
        } else if char_is_alphabetic(c) {
            let j = ident_run_end(s, (i + 1) as nat);
            cons_tok(keyword_or_identifier(s.subrange(i as int, j as int)), spec_tokenize_from(s, j))
        } else {
            cons_tok(Tok::Unknown, spec_tokenize_from(s, (i + 1) as nat))
        }
    }
}

#[via_fn]
proof fn spec_tokenize_from_dec(s: Seq<char>, i: nat) {
    if i < s.len() {
        let c = s[i as int];
        lemma_find_quote_bounds(s, (i + 1) as nat);
        lemma_ident_run_end_bounds(s, (i + 1) as nat);
        if is_digit_char(c) {
            lemma_digit_run_end_bounds(s, (i + 1) as nat);
            assert(digit_run_end(s, i) == digit_run_end(s, (i + 1) as nat));
        }
    }
}

/// A digit run's end never moves backwards and never passes the end of the
/// text.
proof fn lemma_digit_run_end_bounds(s: Seq<char>, i: nat)
    requires
        i <= s.len(),
    ensures
        i <= digit_run_end(s, i) <= s.len(),
    decreases s.len() - i,
{
    if i < s.len() && is_digit_char(s[i as int]) {
        lemma_digit_run_end_bounds(s, (i + 1) as nat);
    }
}

/// An identifier run's end never moves backwards and never passes the end
/// of the text.
proof fn lemma_ident_run_end_bounds(s: Seq<char>, i: nat)
    requires
        i <= s.len(),
    ensures
        i <= ident_run_end(s, i) <= s.len(),
    decreases s.len() - i,
{
    if i < s.len() && is_ident_continue(s[i as int]) {
        lemma_ident_run_end_bounds(s, (i + 1) as nat);
    }
}

/// The position of the closing quote never precedes the search start and
/// never passes the end of the text.
proof fn lemma_find_quote_bounds(s: Seq<char>, i: nat)
    requires
        i <= s.len(),
    ensures
        i <= find_quote(s, i) <= s.len(),
    decreases s.len() - i,
{
    if i < s.len() && s[i as int] != '"' {
        lemma_find_quote_bounds(s, (i + 1) as nat);
    }
}

/// Pins `digit_run_end` down from the properties the scanning loop
/// establishes.
proof fn lemma_digit_run_end_is(s: Seq<char>, i: nat, j: nat)
    requires
        i <= j <= s.len(),
        forall|m: int| i <= m < j ==> is_digit_char(s[m]),
        j == s.len() || !is_digit_char(s[j as int]),
    ensures
        digit_run_end(s, i) == j,
    decreases j - i,
{
    if i < j {
        assert(is_digit_char(s[i as int]));
        lemma_digit_run_end_is(s, (i + 1) as nat, j);
    }
}

/// Pins `ident_run_end` down from the properties the scanning loop
/// establishes.
proof fn lemma_ident_run_end_is(s: Seq<char>, i: nat, j: nat)
    requires
        i <= j <= s.len(),
        forall|m: int| i <= m < j ==> is_ident_continue(s[m]),
        j == s.len() || !is_ident_continue(s[j as int]),
    ensures
        ident_run_end(s, i) == j,
    decreases j - i,
{
    if i < j {
        assert(is_ident_continue(s[i as int]));
        lemma_ident_run_end_is(s, (i + 1) as nat, j);
    }
}

/// Pins `find_quote` down from the properties the scanning loop
/// establishes.
proof fn lemma_find_quote_is(s: Seq<char>, i: nat, j: nat)
    requires
        i <= j <= s.len(),
        forall|m: int| i <= m < j ==> s[m] != '"',
        j == s.len() || s[j as int] == '"',
    ensures
        find_quote(s, i) == j,
    decreases j - i,
{
    if i < j {
        assert(s[i as int] != '"');
        lemma_find_quote_is(s, (i + 1) as nat, j);
    }
}

/// The value of a digit run is never negative.
proof fn lemma_digits_val_nonneg(s: Seq<char>)
    requires
        forall|m: int| 0 <= m < s.len() ==> is_digit_char(s[m]),
    ensures
        digits_val(s) >= 0,
    decreases s.len(),
{
    if s.len() > 0 {
        lemma_digits_val_nonneg(s.drop_last());
    }
}

/// Extending a digit run multiplies its value by ten and adds the new
/// digit.
proof fn lemma_digits_val_snoc(s: Seq<char>, i: int, j: int)
    requires
        0 <= i <= j < s.len(),
    ensures
        digits_val(s.subrange(i, j + 1)) == digits_val(s.subrange(i, j)) * 10 + digit_val(s[j]),
{
    assert(s.subrange(i, j + 1).drop_last() =~= s.subrange(i, j));
    assert(s.subrange(i, j + 1).last() == s[j]);
}

/// Prepending a scanned token associates with prepending the tokens
/// scanned before it.
proof fn lemma_cons_assoc(pre: Seq<Tok>, t: Tok, rest: Option<Seq<Tok>>)
    ensures
        cons_toks(pre, cons_tok(t, rest)) == cons_toks(pre.push(t), rest),
{
    match rest {
        Some(r) => {
            assert(pre + (seq![t] + r) =~= pre.push(t) + r);
        },
        None => {},
    }
}

/// A decimal digit, decided executably.
fn is_digit_exec(c: char) -> (r: bool)
    ensures
        r == is_digit_char(c),
{
    let u = c as u32;
    48 <= u && u <= 57
}

/// An identifier-continuation character, decided executably.
fn is_ident_continue_exec(c: char) -> (r: bool)
    ensures
        r == is_ident_continue(c),
{
    is_alphabetic_ch(c) || c == '_'
}

/// Text equality of two string slices.
fn str_eqs(a: &str, b: &str) -> (r: bool)
    ensures
        r == (a@ == b@),
{
    let sa = a.to_owned();
    let sb = b.to_owned();
    sa == sb
}

/// Converts raw source text into its token sequence.
///
/// The scan never fails except on a numeric literal beyond the 32-bit
/// signed range; the result is exactly what the mathematical scanner
/// produces, ending in [`Token::EndOfFile`].
pub fn tokenize(code: &str) -> (r: Result<Vec<Token>, LexError>)
    ensures
        match r {
            Ok(tokens) => Some(tokens.deep_view()) == spec_tokenize_from(code@, 0),
            Err(_) => spec_tokenize_from(code@, 0) is None,
        },
{
    let n = code.unicode_len();
    let mut tokens: Vec<Token> = Vec::new();
    let mut i: usize = 0;
    while i < n
        invariant
            n == code@.len(),
            i <= n,
            spec_tokenize_from(code@, 0) == cons_toks(
                tokens.deep_view(),
                spec_tokenize_from(code@, i as nat),
            ),
        decreases n - i,
    {
        let ghost pre = tokens.deep_view();
        let ghost i0 = i as nat;
        let c = code.get_char(i);
        if c == ' ' || c == '\t' || c == '\n' || c == '\r' {
            i = i + 1;
            assert(spec_tokenize_from(code@, i0) == spec_tokenize_from(code@, i as nat));
        } else if c == '!' {
            if i + 1 < n && code.get_char(i + 1) == '=' {
                tokens.push(Token::NotEqual);
                i = i + 2;
                proof {
                    lemma_cons_assoc(pre, Tok::NotEqual, spec_tokenize_from(code@, i as nat));
                    assert(tokens.deep_view() =~= pre.push(Tok::NotEqual));
                }
            } else {
                tokens.push(Token::Bang);
                i = i + 1;
                proof {
                    lemma_cons_assoc(pre, Tok::Bang, spec_tokenize_from(code@, i as nat));
                    assert(tokens.deep_view() =~= pre.push(Tok::Bang));
                }
            }
        } else if c == '=' {
            if i + 1 < n && code.get_char(i + 1) == '=' {
                tokens.push(Token::EqualEqual);
                i = i + 2;
                proof {
                    lemma_cons_assoc(pre, Tok::EqualEqual, spec_tokenize_from(code@, i as nat));
                    assert(tokens.deep_view() =~= pre.push(Tok::EqualEqual));
                }
            } else {
                tokens.push(Token::Equals);
                i = i + 1;
                proof {
                    lemma_cons_assoc(pre, Tok::Equals, spec_tokenize_from(code@, i as nat));
                    assert(tokens.deep_view() =~= pre.push(Tok::Equals));
                }
            }
        } else if c == '<' {
            if i + 1 < n && code.get_char(i + 1) == '=' {
                tokens.push(Token::LessThanEquals);
                i = i + 2;
                proof {
                    lemma_cons_assoc(pre, Tok::LessThanEquals, spec_tokenize_from(code@, i as nat));
                    assert(tokens.deep_view() =~= pre.push(Tok::LessThanEquals));
                }
            } else {
                tokens.push(Token::LessThan);
                i = i + 1;
                proof {
                    lemma_cons_assoc(pre, Tok::LessThan, spec_tokenize_from(code@, i as nat));
                    assert(tokens.deep_view() =~= pre.push(Tok::LessThan));
                }
            }
        } else if c == '>' {
            if i + 1 < n && code.get_char(i + 1) == '=' {
                tokens.push(Token::GreaterThanEquals);
                i = i + 2;
                proof {
                    lemma_cons_assoc(
                        pre,
                        Tok::GreaterThanEquals,
                        spec_tokenize_from(code@, i as nat),
                    );
                    assert(tokens.deep_view() =~= pre.push(Tok::GreaterThanEquals));
                }
            } else {
                tokens.push(Token::GreaterThan);
                i = i + 1;
                proof {
                    lemma_cons_assoc(pre, Tok::GreaterThan, spec_tokenize_from(code@, i as nat));
                    assert(tokens.deep_view() =~= pre.push(Tok::GreaterThan));
                }
            }
        } else if c == ',' || c == '&' || c == '|' || c == '+' || c == '-' || c == '*' || c == '/'
            || c == '%' || c == '(' || c == ')' || c == '{' || c == '}' {
            let tok = if c == ',' {
                Token::Comma
            } else if c == '&' {
                Token::And
            } else if c == '|' {
                Token::Or
            } else if c == '+' {
                Token::Plus
            } else if c == '-' {
                Token::Minus
            } else if c == '*' {
                Token::Asterisk
            } else if c == '/' {
                Token::Slash
            } else if c == '%' {
                Token::Percent
            } else if c == '(' {
                Token::LeftParen
            } else if c == ')' {
                Token::RightParen
            } else if c == '{' {
                Token::LeftBrace
            } else {
                Token::RightBrace
            };
            let ghost tv = tok@;
            tokens.push(tok);
            i = i + 1;
            proof {
                lemma_cons_assoc(pre, tv, spec_tokenize_from(code@, i as nat));
                assert(tokens.deep_view() =~= pre.push(tv));
            }
        } else if c == '"' {
            let mut k = i + 1;
            while k < n && code.get_char(k) != '"'
                invariant
                    n == code@.len(),
                    i + 1 <= k <= n,
                    forall|m: int| i + 1 <= m < k ==> code@[m] != '"',
                decreases n - k,
            {
                k = k + 1;
            }
            proof {
                lemma_find_quote_is(code@, (i0 + 1) as nat, k as nat);
            }
            let content = code.substring_char(i + 1, k).to_owned();
            let ghost tv = Tok::StrLit(code@.subrange(i0 as int + 1, k as int));
            tokens.push(Token::String(content));
            if k < n {
                i = k + 1;
            } else {
                i = n;
            }
            proof {
                lemma_cons_assoc(pre, tv, spec_tokenize_from(code@, i as nat));
                assert(tokens.deep_view() =~= pre.push(tv));
            }
        } else if is_digit_exec(c) {
            let mut j = i;
            let mut acc: u64 = 0;
            let mut over: bool = false;
            while j < n && is_digit_exec(code.get_char(j))
                invariant
                    n == code@.len(),
                    i <= j <= n,
                    forall|m: int| i <= m < j ==> is_digit_char(code@[m]),
                    over <==> digits_val(code@.subrange(i as int, j as int)) > i32::MAX as int,
                    !over ==> acc == digits_val(code@.subrange(i as int, j as int))
                        && acc <= i32::MAX as u64,
                decreases n - j,
            {
                let d = code.get_char(j) as u32;
                proof {
                    lemma_digits_val_snoc(code@, i as int, j as int);
                    lemma_digits_val_nonneg(code@.subrange(i as int, j as int));
                }
                if !over {
                    let next: u64 = acc * 10 + (d - 48) as u64;
                    if next > 2147483647u64 {
                        over = true;
                    } else {
                        acc = next;
                    }
                }
                j = j + 1;
            }
            proof {
                lemma_digit_run_end_is(code@, i0, j as nat);
            }
            if over {
                return Err(LexError::NumberOutOfRange);
            }
            let ghost tv = Tok::Number(acc as int);
            tokens.push(Token::Number(acc as i32));
            i = j;
            proof {
                lemma_cons_assoc(pre, tv, spec_tokenize_from(code@, i as nat));
                assert(tokens.deep_view() =~= pre.push(tv));
            }
        } else if is_alphabetic_ch(c) {
            let mut j = i + 1;
            while j < n && is_ident_continue_exec(code.get_char(j))
                invariant
                    n == code@.len(),
                    i + 1 <= j <= n,
                    forall|m: int| i + 1 <= m < j ==> is_ident_continue(code@[m]),
                decreases n - j,
            {
                j = j + 1;
            }
            proof {
                lemma_ident_run_end_is(code@, (i0 + 1) as nat, j as nat);
            }
            let text = code.substring_char(i, j);
            let ghost tv = keyword_or_identifier(code@.subrange(i0 as int, j as int));
            let tok = if str_eqs(text, "v") {
                Token::V
            } else if str_eqs(text, "w") {
                Token::W
            } else if str_eqs(text, "i") {
                Token::I
            } else if str_eqs(text, "f") {
                Token::F
            } else if str_eqs(text, "true") {
                Token::Boolean(true)
            } else if str_eqs(text, "false") {
                Token::Boolean(false)
            } else if str_eqs(text, "p") {
                Token::Print
            } else if str_eqs(text, "r") {
                Token::Return
            } else {
                Token::Identifier(text.to_owned())
            };
            assert(tok@ == tv);
            tokens.push(tok);
            i = j;
            proof {
                lemma_cons_assoc(pre, tv, spec_tokenize_from(code@, i as nat));
                assert(tokens.deep_view() =~= pre.push(tv));
            }
        } else {
            tokens.push(Token::Unknown);
            i = i + 1;
            proof {
                lemma_cons_assoc(pre, Tok::Unknown, spec_tokenize_from(code@, i as nat));
                assert(tokens.deep_view() =~= pre.push(Tok::Unknown));
            }
        }
    }
    let ghost pre = tokens.deep_view();
    tokens.push(Token::EndOfFile);
    proof {
        assert(spec_tokenize_from(code@, i as nat) == Some(seq![Tok::EndOfFile]));
        assert(tokens.deep_view() =~= pre + seq![Tok::EndOfFile]);
    }
    Ok(tokens)
}

} // verus!
