//! What the lexer recognises: character classes, runs of characters,
//! numerals, words and quoted strings, as functions on sequences of
//! characters.

use crate::text::decimal_text;
use crate::token::{TokenType, TokenTypeView, TokenView};
use vstd::prelude::*;

verus! {

/// White space: the characters with the Unicode property `White_Space`.
pub open spec fn is_space(c: char) -> bool {
    ||| c == ' '
    ||| '\u{9}' <= c <= '\u{d}'
    ||| c == '\u{85}'
    ||| c == '\u{a0}'
    ||| c == '\u{1680}'
    ||| '\u{2000}' <= c <= '\u{200a}'
    ||| c == '\u{2028}'
    ||| c == '\u{2029}'
    ||| c == '\u{202f}'
    ||| c == '\u{205f}'
    ||| c == '\u{3000}'
}

/// An ASCII decimal digit.
pub open spec fn is_digit(c: char) -> bool {
    '0' <= c <= '9'
}

/// A character that may start a word: an ASCII letter or an underscore.
pub open spec fn is_word_start(c: char) -> bool {
    'a' <= c <= 'z' || 'A' <= c <= 'Z' || c == '_'
}

/// A character that may continue a word: an ASCII letter, a digit or an underscore.
pub open spec fn is_word_char(c: char) -> bool {
    is_word_start(c) || is_digit(c)
}

/// A character of a numeral: a digit or the decimal point.
pub open spec fn is_numeral_char(c: char) -> bool {
    is_digit(c) || c == '.'
}

/// Any character but the line feed.
pub open spec fn is_not_newline(c: char) -> bool {
    c != '\n'
}

/// The length of the longest run of characters that satisfy `keep`,
/// starting at `start`. It is zero where `start` is outside `data`.
pub open spec fn run_len(data: Seq<char>, start: int, keep: spec_fn(char) -> bool) -> nat
    decreases data.len() - start,
{
    if 0 <= start < data.len() && keep(data[start]) {
        1 + run_len(data, start + 1, keep)
    } else {
        0
    }
}

/// The longest run of characters that satisfy `keep`, starting at `start`.
pub open spec fn run(data: Seq<char>, start: int, keep: spec_fn(char) -> bool) -> Seq<char> {
    if 0 <= start < data.len() {
        data.subrange(start, start + run_len(data, start, keep))
    } else {
        Seq::empty()
    }
}

/// How often `c` occurs in `s`.
pub open spec fn count(s: Seq<char>, c: char) -> nat
    decreases s.len(),
{
    if s.len() == 0 {
        0
    } else {
        count(s.drop_last(), c) + if s.last() == c {
            1nat
        } else {
            0nat
        }
    }
}

/// A numeral: digits with at most one decimal point among them, before,
/// between or after the digits, and at least one digit.
pub open spec fn is_numeral(s: Seq<char>) -> bool {
    &&& forall|i: int| 0 <= i < s.len() ==> is_numeral_char(#[trigger] s[i])
    &&& count(s, '.') <= 1
    &&& count(s, '.') < s.len()
}

/// The token type of a word: that of the keyword it spells, or else an
/// identifier of that name. Keywords are matched case-sensitively.
pub open spec fn word_type(word: Seq<char>) -> TokenTypeView {
    if word == "and"@ {
        TokenTypeView::Fixed(TokenType::And)
    } else if word == "class"@ {
        TokenTypeView::Fixed(TokenType::Class)
    } else if word == "else"@ {
        TokenTypeView::Fixed(TokenType::Else)
    } else if word == "false"@ {
        TokenTypeView::Fixed(TokenType::False)
    } else if word == "for"@ {
        TokenTypeView::Fixed(TokenType::For)
    } else if word == "fun"@ {
        TokenTypeView::Fixed(TokenType::Fun)
    } else if word == "if"@ {
        TokenTypeView::Fixed(TokenType::If)
    } else if word == "nil"@ {
        TokenTypeView::Fixed(TokenType::Nil)
    } else if word == "or"@ {
        TokenTypeView::Fixed(TokenType::Or)
    } else if word == "print"@ {
        TokenTypeView::Fixed(TokenType::Print)
    } else if word == "return"@ {
        TokenTypeView::Fixed(TokenType::Return)
    } else if word == "super"@ {
        TokenTypeView::Fixed(TokenType::Super)
    } else if word == "this"@ {
        TokenTypeView::Fixed(TokenType::This)
    } else if word == "true"@ {
        TokenTypeView::Fixed(TokenType::True)
    } else if word == "var"@ {
        TokenTypeView::Fixed(TokenType::Var)
    } else if word == "while"@ {
        TokenTypeView::Fixed(TokenType::While)
    } else {
        TokenTypeView::Identifier(word)
    }
}

/// The length of the content of a quoted string whose first character,
/// after the opening quote, is at `pos`. The content ends before the first
/// double quote that no backslash stands directly in front of, or at the
/// end of `data`. `escaped` says whether the character before `pos` was a
/// backslash.
pub open spec fn string_len(data: Seq<char>, pos: int, escaped: bool) -> nat
    decreases data.len() - pos,
{
    if 0 <= pos < data.len() && (data[pos] != '"' || escaped) {
        1 + string_len(data, pos + 1, data[pos] == '\\')
    } else {
        0
    }
}

/// The message for a string whose closing quote is missing: `idx` is where
/// the quote was looked for and `len` the length of the text.
pub open spec fn missing_quote_message(idx: nat, len: nat) -> Seq<char> {
    "Missing end-quote: idx="@ + decimal_text(idx) + ", len="@ + decimal_text(len) + "."@
}

/// The message for a string whose closing quote is missing, as the scanner
/// reports it: with the line on which the string starts.
pub open spec fn unterminated_message(line: nat, idx: nat, len: nat) -> Seq<char> {
    "Unterminated string starting on line "@ + decimal_text(line) + ": "@ + missing_quote_message(
        idx,
        len,
    )
}

/// The message for a character that starts no token.
pub open spec fn invalid_character_message(line: nat, c: char) -> Seq<char> {
    "Invalid character on line "@ + decimal_text(line) + ": "@ + seq![c]
}

/// The length of what is skipped at `pos` before a token: white space, and
/// comments, each from `//` up to the next line feed or the end of the text.
pub open spec fn trivia_len(text: Seq<char>, pos: int) -> nat
    decreases text.len() - pos,
    via trivia_len_decreases
{
    if 0 <= pos < text.len() && is_space(text[pos]) {
        1 + trivia_len(text, pos + 1)
    } else if 0 <= pos && pos + 1 < text.len() && text[pos] == '/' && text[pos + 1] == '/' {
        let comment = 2 + run_len(text, pos + 2, |c: char| is_not_newline(c));
        comment + trivia_len(text, pos + comment)
    } else {
        0
    }
}

#[via_fn]
proof fn trivia_len_decreases(text: Seq<char>, pos: int) {
    if 0 <= pos && pos + 1 < text.len() {
        run_len_bounds(text, pos + 2, |c: char| is_not_newline(c));
    }
}

/// Whether an equal sign follows the character at `p`.
pub open spec fn equal_follows(text: Seq<char>, p: int) -> bool {
    p + 1 < text.len() && text[p + 1] == '='
}

/// The token that starts at `p`, where a character stands that is neither
/// white space nor the start of a comment: its type and its length in
/// characters, or the message of the error. `line` is the line of `p`, and
/// `value` reads a numeral.
///
/// Of two-character operators the longer one is taken. A word is a letter
/// or underscore and the letters, digits and underscores that follow it. A
/// numeral is a digit and the digits and decimal points that follow it; with
/// a second decimal point it is an error. A string runs from one double
/// quote to the next one that no backslash stands directly in front of.
pub open spec fn token_at(text: Seq<char>, p: int, line: nat, value: spec_fn(Seq<char>) -> u64)
    -> Result<(TokenTypeView, nat), Seq<char>> {
    let c = text[p];
    if c == '(' {
        Ok((TokenTypeView::Fixed(TokenType::LeftParen), 1))
    } else if c == ')' {
        Ok((TokenTypeView::Fixed(TokenType::RightParen), 1))
    } else if c == '{' {
        Ok((TokenTypeView::Fixed(TokenType::LeftBrace), 1))
    } else if c == '}' {
        Ok((TokenTypeView::Fixed(TokenType::RightBrace), 1))
    } else if c == ',' {
        Ok((TokenTypeView::Fixed(TokenType::Comma), 1))
    } else if c == '.' {
        Ok((TokenTypeView::Fixed(TokenType::Dot), 1))
    } else if c == '-' {
        Ok((TokenTypeView::Fixed(TokenType::Minus), 1))
    } else if c == '+' {
        Ok((TokenTypeView::Fixed(TokenType::Plus), 1))
    } else if c == ';' {
        Ok((TokenTypeView::Fixed(TokenType::Semicolon), 1))
    } else if c == '*' {
        Ok((TokenTypeView::Fixed(TokenType::Star), 1))
    } else if c == '/' {
        Ok((TokenTypeView::Fixed(TokenType::Slash), 1))
    } else if c == '!' {
        if equal_follows(text, p) {
            Ok((TokenTypeView::Fixed(TokenType::BangEqual), 2))
        } else {
            Ok((TokenTypeView::Fixed(TokenType::Bang), 1))
        }
    } else if c == '=' {
        if equal_follows(text, p) {
            Ok((TokenTypeView::Fixed(TokenType::EqualEqual), 2))
        } else {
            Ok((TokenTypeView::Fixed(TokenType::Equal), 1))
        }
    } else if c == '<' {
        if equal_follows(text, p) {
            Ok((TokenTypeView::Fixed(TokenType::LessEqual), 2))
        } else {
            Ok((TokenTypeView::Fixed(TokenType::Less), 1))
        }
    } else if c == '>' {
        if equal_follows(text, p) {
            Ok((TokenTypeView::Fixed(TokenType::GreaterEqual), 2))
        } else {
            Ok((TokenTypeView::Fixed(TokenType::Greater), 1))
        }
    } else if c == '"' {
        let n = string_len(text, p + 1, false);
        if p + 1 + n < text.len() {
            Ok((TokenTypeView::QuotedString(text.subrange(p + 1, p + 1 + n)), n + 2))
        } else {
            Err(unterminated_message(line, (p + 1 + n) as nat, text.len()))
        }
    } else if is_word_start(c) {
        let n = 1 + run_len(text, p + 1, |c: char| is_word_char(c));
        Ok((word_type(text.subrange(p, p + n)), n))
    } else if is_digit(c) {
        let n = 1 + run_len(text, p + 1, |c: char| is_numeral_char(c));
        let numeral = text.subrange(p, p + n);
        if count(numeral, '.') <= 1 {
            Ok((TokenTypeView::Number(value(numeral)), n))
        } else {
            Err("invalid float literal"@)
        }
    } else {
        Err(invalid_character_message(line, c))
    }
}

/// The tokens of `text` from `pos` on, where `line` is the line of `pos`:
/// every token with the line on which it starts, and the end-of-input token
/// last, with the line on which the text ends. The first error ends the
/// scan and is its result.
pub open spec fn lex(text: Seq<char>, pos: int, line: nat, value: spec_fn(Seq<char>) -> u64)
    -> Result<Seq<TokenView>, Seq<char>>
    decreases text.len() - pos,
    when 0 <= pos <= text.len()
    via lex_decreases
{
    let p = pos + trivia_len(text, pos);
    let l = line + count(text.subrange(pos, p), '\n');
    if p >= text.len() {
        Ok(seq![TokenView { typ: TokenTypeView::Fixed(TokenType::Eof), line: l }])
    } else {
        match token_at(text, p, l, value) {
            Err(message) => Err(message),
            Ok((typ, width)) => {
                let after = l + count(text.subrange(p, p + width), '\n');
                match lex(text, p + width, after, value) {
                    Err(message) => Err(message),
                    Ok(rest) => Ok(seq![TokenView { typ, line: l }] + rest),
                }
            },
        }
    }
}

/// The tokens `before`, followed by those of `rest`; the error of `rest`
/// where it is one.
pub open spec fn prepend(before: Seq<TokenView>, rest: Result<Seq<TokenView>, Seq<char>>) -> Result<
    Seq<TokenView>,
    Seq<char>,
> {
    match rest {
        Ok(tokens) => Ok(before + tokens),
        Err(message) => Err(message),
    }
}

/// Whether two token types are the same but for the bit pattern of a number.
pub open spec fn same_type(a: TokenTypeView, b: TokenTypeView) -> bool {
    if a is Number {
        b is Number
    } else {
        a == b
    }
}

/// Whether two token sequences are the same but for the bit patterns of
/// their numbers: as many tokens, each of the same type and on the same line.
pub open spec fn similar(a: Seq<TokenView>, b: Seq<TokenView>) -> bool {
    &&& a.len() == b.len()
    &&& forall|i: int|
        0 <= i < a.len() ==> (#[trigger] a[i]).line == b[i].line && same_type(a[i].typ, b[i].typ)
}

/// Whether the tokens `a` are the tokens `b` but for the bit patterns of
/// their numbers, and, where `exact` holds, the tokens `b` outright.
pub open spec fn agree(exact: bool, a: Seq<TokenView>, b: Seq<TokenView>) -> bool {
    similar(a, b) && (exact ==> a =~= b)
}

/// Whether a scan that has produced `scanned` so far, and has `rest` still
/// to come, agrees with a scan whose outcome is `whole`.
pub open spec fn tracks(
    exact: bool,
    scanned: Seq<TokenView>,
    rest: Result<Seq<TokenView>, Seq<char>>,
    whole: Result<Seq<TokenView>, Seq<char>>,
) -> bool {
    match rest {
        Err(message) => whole == Err::<Seq<TokenView>, Seq<char>>(message),
        Ok(tokens) => {
            &&& whole is Ok
            &&& whole->Ok_0.len() == scanned.len() + tokens.len()
            &&& agree(exact, scanned, whole->Ok_0.take(scanned.len() as int))
            &&& whole->Ok_0.skip(scanned.len() as int) =~= tokens
        },
    }
}

/// A scan that has produced nothing yet agrees with its own outcome.
pub proof fn tracks_start(exact: bool, whole: Result<Seq<TokenView>, Seq<char>>)
    ensures
        tracks(exact, Seq::empty(), whole, whole),
{
    if whole is Ok {
        assert(whole->Ok_0.skip(0) =~= whole->Ok_0);
        assert(whole->Ok_0.take(0) =~= Seq::<TokenView>::empty());
    }
}

/// A scan that agrees so far still agrees after one more token, where that
/// token agrees with the one that comes next.
pub proof fn tracks_push(
    exact: bool,
    scanned: Seq<TokenView>,
    token: TokenView,
    expected: TokenView,
    next: Result<Seq<TokenView>, Seq<char>>,
    whole: Result<Seq<TokenView>, Seq<char>>,
)
    requires
        tracks(exact, scanned, prepend(seq![expected], next), whole),
        token.line == expected.line,
        same_type(token.typ, expected.typ),
        exact ==> token == expected,
    ensures
        tracks(exact, scanned.push(token), next, whole),
{
    if next is Ok {
        let all = whole->Ok_0;
        let k = scanned.len() as int;
        assert(all.skip(k)[0] == all[k]);
        assert((seq![expected] + next->Ok_0)[0] == expected);
        assert(all[k] == expected);
        assert forall|i: int| 0 <= i < k + 1 implies (#[trigger] scanned.push(token)[i]).line
            == all.take(k + 1)[i].line && same_type(
            scanned.push(token)[i].typ,
            all.take(k + 1)[i].typ,
        ) by {
            if i < k {
                assert(all.take(k)[i] == all.take(k + 1)[i]);
            }
        }
        assert(all.skip(k + 1) =~= all.skip(k).skip(1));
        assert((seq![expected] + next->Ok_0).skip(1) =~= next->Ok_0);
        if exact {
            assert(scanned.push(token) =~= all.take(k + 1)) by {
                assert(scanned =~= all.take(k));
                assert(all.take(k + 1) =~= all.take(k).push(all[k]));
            }
        }
    }
}

/// A scan that has nothing more to come has the outcome it agrees with.
pub proof fn tracks_end(
    exact: bool,
    scanned: Seq<TokenView>,
    whole: Result<Seq<TokenView>, Seq<char>>,
)
    requires
        tracks(exact, scanned, Ok(Seq::empty()), whole),
    ensures
        whole is Ok,
        agree(exact, scanned, whole->Ok_0),
{
    assert(whole->Ok_0.take(scanned.len() as int) =~= whole->Ok_0);
}

/// What a scan does first: at the end of the text, after anything that is
/// skipped, it gives the end-of-input token; before it, the token that
/// starts there, followed by the scan of what comes after that token.
pub proof fn lex_first(text: Seq<char>, pos: int, line: nat, value: spec_fn(Seq<char>) -> u64)
    requires
        0 <= pos <= text.len(),
    ensures
        ({
            let p = pos + trivia_len(text, pos);
            let l = line + count(text.subrange(pos, p), '\n');
            let eof = TokenView { typ: TokenTypeView::Fixed(TokenType::Eof), line: l };
            lex(text, pos, line, value) == if p >= text.len() {
                prepend(seq![eof], Ok(Seq::empty()))
            } else {
                match token_at(text, p, l, value) {
                    Err(message) => Err(message),
                    Ok((typ, width)) => prepend(
                        seq![TokenView { typ, line: l }],
                        lex(text, p + width, l + count(text.subrange(p, p + width), '\n'), value),
                    ),
                }
            }
        }),
{
    let p = pos + trivia_len(text, pos);
    let l = line + count(text.subrange(pos, p), '\n');
    let eof = TokenView { typ: TokenTypeView::Fixed(TokenType::Eof), line: l };
    assert(seq![eof] + Seq::<TokenView>::empty() =~= seq![eof]);
    trivia_len_bounds(text, pos);
    if p < text.len() {
        token_at_bounds(text, p, l, value);
    }
}

#[via_fn]
proof fn lex_decreases(text: Seq<char>, pos: int, line: nat, value: spec_fn(Seq<char>) -> u64) {
    let p = pos + trivia_len(text, pos);
    trivia_len_bounds(text, pos);
    if p < text.len() {
        token_at_bounds(text, p, line + count(text.subrange(pos, p), '\n'), value);
    }
}

/// A token is at least one character long and stays inside the text.
pub proof fn token_at_bounds(
    text: Seq<char>,
    p: int,
    line: nat,
    value: spec_fn(Seq<char>) -> u64,
)
    requires
        0 <= p < text.len(),
    ensures
        token_at(text, p, line, value) is Ok ==> 1 <= token_at(text, p, line, value)->Ok_0.1
            && p + token_at(text, p, line, value)->Ok_0.1 <= text.len(),
{
    run_len_bounds(text, p + 1, |c: char| is_word_char(c));
    run_len_bounds(text, p + 1, |c: char| is_numeral_char(c));
}

/// A run is the one stretch whose characters all satisfy `keep` and that
/// ends at the end of `data` or before a character that does not.
pub proof fn run_len_is(data: Seq<char>, start: int, n: nat, keep: spec_fn(char) -> bool)
    requires
        0 <= start,
        start + n <= data.len(),
        forall|i: int| start <= i < start + n ==> keep(#[trigger] data[i]),
        start + n < data.len() ==> !keep(data[start + n]),
    ensures
        run_len(data, start, keep) == n,
    decreases n,
{
    if n > 0 {
        run_len_is(data, start + 1, (n - 1) as nat, keep);
    }
}

/// A run stays inside `data`, and every character of it satisfies `keep`.
pub proof fn run_len_bounds(data: Seq<char>, start: int, keep: spec_fn(char) -> bool)
    requires
        0 <= start <= data.len(),
    ensures
        start + run_len(data, start, keep) <= data.len(),
        forall|i: int|
            start <= i < start + run_len(data, start, keep) ==> keep(#[trigger] data[i]),
        start + run_len(data, start, keep) < data.len() ==> !keep(
            data[start + run_len(data, start, keep)],
        ),
    decreases data.len() - start,
{
    if start < data.len() && keep(data[start]) {
        run_len_bounds(data, start + 1, keep);
    }
}

/// The content of a quoted string stays inside `data`, and where it ends
/// before the end of `data` a double quote follows it.
pub proof fn string_len_bounds(data: Seq<char>, pos: int, escaped: bool)
    requires
        0 <= pos <= data.len(),
    ensures
        pos + string_len(data, pos, escaped) <= data.len(),
        pos + string_len(data, pos, escaped) < data.len() ==> data[pos + string_len(
            data,
            pos,
            escaped,
        )] == '"',
    decreases data.len() - pos,
{
    if pos < data.len() && (data[pos] != '"' || escaped) {
        string_len_bounds(data, pos + 1, data[pos] == '\\');
    }
}

/// What is skipped before a token stays inside the text.
pub proof fn trivia_len_bounds(text: Seq<char>, pos: int)
    requires
        0 <= pos <= text.len(),
    ensures
        pos + trivia_len(text, pos) <= text.len(),
    decreases text.len() - pos,
{
    if pos < text.len() && is_space(text[pos]) {
        trivia_len_bounds(text, pos + 1);
    } else if pos + 1 < text.len() && text[pos] == '/' && text[pos + 1] == '/' {
        let keep = |c: char| is_not_newline(c);
        run_len_bounds(text, pos + 2, keep);
        trivia_len_bounds(text, pos + 2 + run_len(text, pos + 2, keep));
    }
}

/// A character that occurs nowhere is counted zero times.
pub proof fn count_absent(s: Seq<char>, c: char)
    requires
        forall|i: int| 0 <= i < s.len() ==> #[trigger] s[i] != c,
    ensures
        count(s, c) == 0,
    decreases s.len(),
{
    if s.len() > 0 {
        count_absent(s.drop_last(), c);
    }
}

/// Counting over two stretches of one text that follow each other adds up.
pub proof fn count_split(text: Seq<char>, a: int, b: int, c: int, what: char)
    requires
        0 <= a <= b <= c <= text.len(),
    ensures
        count(text.subrange(a, c), what) == count(text.subrange(a, b), what) + count(
            text.subrange(b, c),
            what,
        ),
{
    count_concat(text.subrange(a, b), text.subrange(b, c), what);
    assert(text.subrange(a, b) + text.subrange(b, c) =~= text.subrange(a, c));
}

/// Counting in a stretch: one more character adds one where it is `c`.
pub proof fn count_push(s: Seq<char>, next: char, c: char)
    ensures
        count(s.push(next), c) == count(s, c) + if next == c {
            1nat
        } else {
            0nat
        },
{
    assert(s.push(next).drop_last() =~= s);
}

/// No character occurs more often than the sequence is long.
pub proof fn count_bound(s: Seq<char>, c: char)
    ensures
        count(s, c) <= s.len(),
    decreases s.len(),
{
    if s.len() > 0 {
        count_bound(s.drop_last(), c);
    }
}

/// Counting over two stretches that follow each other adds up.
pub proof fn count_concat(a: Seq<char>, b: Seq<char>, c: char)
    ensures
        count(a + b, c) == count(a, c) + count(b, c),
    decreases b.len(),
{
    if b.len() == 0 {
        assert(a + b =~= a);
    } else {
        count_concat(a, b.drop_last(), c);
        assert((a + b).drop_last() =~= a + b.drop_last());
    }
}

} // verus!
