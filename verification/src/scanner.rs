//! The lexer: source text to tokens.
//!
//! Scanning stops at the first lexical error and returns it; no tokens are
//! handed out from a scan that failed. A scan that succeeds ends with
//! exactly one end-of-input token.

use crate::error::LoxError;
use crate::lexis::{
    agree, count, count_absent, count_bound, count_push, count_split, invalid_character_message,
    is_digit, is_not_newline, is_numeral, is_numeral_char, is_space, is_word_char, is_word_start,
    lex, lex_first, missing_quote_message, run, run_len, run_len_bounds, run_len_is, same_type,
    string_len, string_len_bounds, token_at, tracks, tracks_end, tracks_push, tracks_start,
    trivia_len, trivia_len_bounds, unterminated_message, word_type,
};
use crate::text::push_decimal;
use crate::token::{token_views, Token, TokenType, TokenTypeView, TokenView};
use vstd::prelude::*;
use vstd::string::StringExecFns;

verus! {

/// Whether `c` is white space.
pub fn space(c: char) -> (r: bool)
    ensures
        r == is_space(c),
{
    c == ' ' || ('\u{9}' <= c && c <= '\u{d}') || c == '\u{85}' || c == '\u{a0}' || c
        == '\u{1680}' || ('\u{2000}' <= c && c <= '\u{200a}') || c == '\u{2028}' || c
        == '\u{2029}' || c == '\u{202f}' || c == '\u{205f}' || c == '\u{3000}'
}

/// Whether `c` is an ASCII decimal digit.
pub fn digit(c: char) -> (r: bool)
    ensures
        r == is_digit(c),
{
    '0' <= c && c <= '9'
}

/// Whether `c` may start a word.
pub fn word_start(c: char) -> (r: bool)
    ensures
        r == is_word_start(c),
{
    ('a' <= c && c <= 'z') || ('A' <= c && c <= 'Z') || c == '_'
}

/// Whether `c` may continue a word.
pub fn word_char(c: char) -> (r: bool)
    ensures
        r == is_word_char(c),
{
    word_start(c) || digit(c)
}

/// Whether `c` is a digit or the decimal point.
pub fn numeral_char(c: char) -> (r: bool)
    ensures
        r == is_numeral_char(c),
{
    digit(c) || c == '.'
}

/// Whether `c` is anything but the line feed.
pub fn not_newline(c: char) -> (r: bool)
    ensures
        r == is_not_newline(c),
{
    c != '\n'
}

/// Whether `should_continue` decides as `keep` does.
pub open spec fn decides<F: Fn(char) -> bool>(
    should_continue: &F,
    keep: spec_fn(char) -> bool,
) -> bool {
    forall|c: char, kept: bool| #[trigger]
        should_continue.ensures((c,), kept) ==> kept == keep(c)
}

/// Whether `to_bits` reads every numeral as `value` does.
pub open spec fn reads<P: Fn(String) -> u64>(to_bits: &P, value: spec_fn(Seq<char>) -> u64) -> bool {
    forall|numeral: String, bits: u64| #[trigger]
        to_bits.ensures((numeral,), bits) ==> bits == value(numeral@)
}

/// The characters of `data` from `start_index` on, up to the first one for
/// which `should_continue` answers no. It never fails.
pub fn take_while<F: Fn(char) -> bool>(
    data: &[char],
    start_index: usize,
    should_continue: F,
) -> (r: Result<String, LoxError>)
    requires
        forall|c: char| should_continue.requires((c,)),
    ensures
        r is Ok,
        start_index + r->Ok_0@.len() <= data@.len() || r->Ok_0@.len() == 0,
        r->Ok_0@.len() > 0 ==> r->Ok_0@ == data@.subrange(
            start_index as int,
            start_index + r->Ok_0@.len(),
        ),
        forall|i: int|
            start_index <= i < start_index + r->Ok_0@.len() ==> should_continue.ensures(
                (#[trigger] data@[i],),
                true,
            ),
        start_index + r->Ok_0@.len() < data@.len() ==> should_continue.ensures(
            (data@[start_index + r->Ok_0@.len()],),
            false,
        ),
        forall|keep: spec_fn(char) -> bool| #[trigger]
            decides(&should_continue, keep) ==> r->Ok_0@ == run(data@, start_index as int, keep),
{
    let mut current_index = start_index;
    let mut buf = String::new();
    while current_index < data.len()
        invariant
            forall|c: char| should_continue.requires((c,)),
            start_index <= current_index,
            buf@.len() == current_index - start_index,
            current_index <= data@.len() || buf@.len() == 0,
            buf@.len() > 0 ==> buf@ == data@.subrange(start_index as int, current_index as int),
            forall|i: int|
                start_index <= i < current_index ==> should_continue.ensures(
                    (#[trigger] data@[i],),
                    true,
                ),
        ensures
            start_index <= current_index,
            buf@.len() == current_index - start_index,
            current_index <= data@.len() || buf@.len() == 0,
            buf@.len() > 0 ==> buf@ == data@.subrange(start_index as int, current_index as int),
            forall|i: int|
                start_index <= i < current_index ==> should_continue.ensures(
                    (#[trigger] data@[i],),
                    true,
                ),
            current_index < data@.len() ==> should_continue.ensures(
                (data@[current_index as int],),
                false,
            ),
        decreases data.len() - current_index,
    {
        let c = data[current_index];
        if !should_continue(c) {
            break ;
        }
        buf.push(c);
        current_index = current_index + 1;
        assert(buf@ =~= data@.subrange(start_index as int, current_index as int));
    }
    proof {
        assert forall|keep: spec_fn(char) -> bool| #[trigger]
            decides(&should_continue, keep) implies buf@ == run(
            data@,
            start_index as int,
            keep,
        ) by {
            if start_index < data@.len() {
                run_len_is(data@, start_index as int, buf@.len(), keep);
                assert(buf@ =~= data@.subrange(
                    start_index as int,
                    start_index + run_len(data@, start_index as int, keep),
                ));
            } else {
                assert(buf@ =~= Seq::<char>::empty());
            }
        }
    }
    Ok(buf)
}

/// How often the decimal point occurs among the `width` characters of
/// `data` from `start` on.
fn count_points(data: &[char], start: usize, width: usize) -> (points: usize)
    requires
        start + width <= data@.len(),
    ensures
        points == count(data@.subrange(start as int, start + width), '.'),
{
    let len = data.len();
    let mut points: usize = 0;
    let mut i: usize = 0;
    while i < width
        invariant
            start + width <= data@.len() == len,
            i <= width,
            points <= i,
            points == count(data@.subrange(start as int, start + i), '.'),
        decreases width - i,
    {
        proof {
            count_push(data@.subrange(start as int, start + i), data@[start + i], '.');
            assert(data@.subrange(start as int, start + i).push(data@[start + i])
                =~= data@.subrange(start as int, start + i + 1));
        }
        if data[start + i] == '.' {
            points = points + 1;
        }
        i = i + 1;
    }
    points
}

/// Scans the numeral that starts at `start_index`: the longest run of
/// digits and decimal points. Where the run is a numeral, the result is a
/// number token type, with the bit pattern that `to_bits` reads from it,
/// and the length of the run. Where it is not (two decimal points, or no
/// digit), the scan fails.
pub fn scan_number<P: Fn(String) -> u64>(data: &[char], start_index: usize, to_bits: &P) -> (r:
    Result<(TokenType, usize), LoxError>)
    requires
        forall|numeral: String| is_numeral(numeral@) ==> to_bits.requires((numeral,)),
    ensures
        ({
            let numeral = run(data@, start_index as int, |c: char| is_numeral_char(c));
            if is_numeral(numeral) {
                &&& r is Ok
                &&& r->Ok_0.0@ is Number
                &&& r->Ok_0.1 == numeral.len()
                &&& exists|text: String|
                    text@ == numeral && #[trigger] to_bits.ensures(
                        (text,),
                        r->Ok_0.0@->Number_0,
                    )
                &&& forall|value: spec_fn(Seq<char>) -> u64| #[trigger]
                    reads(to_bits, value) ==> r->Ok_0.0@ == TokenTypeView::Number(value(numeral))
            } else {
                &&& r is Err
                &&& r->Err_0@ == "invalid float literal"@
            }
        }),
{
    let ghost keep = |c: char| is_numeral_char(c);
    let taken = take_while(data, start_index, numeral_char);
    assert(decides(&numeral_char, keep));
    let numstr = match taken {
        Ok(s) => s,
        Err(e) => { return Err(e); },
    };
    let width = numstr.as_str().unicode_len();
    let valid = if width == 0 {
        false
    } else {
        let points = count_points(data, start_index, width);
        points <= 1 && points < width
    };
    proof {
        if width == 0 {
            assert(!is_numeral(numstr@));
        } else {
            run_len_bounds(data@, start_index as int, keep);
        }
    }
    if valid {
        let ghost text = numstr;
        let bits = to_bits(numstr);
        let typ = TokenType::Number(bits);
        assert(text@ == run(data@, start_index as int, keep) && to_bits.ensures(
            (text,),
            typ@->Number_0,
        ));
        Ok((typ, width))
    } else {
        Err(LoxError::new("invalid float literal"))
    }
}

/// The token type of `word`: a keyword's, or an identifier of that name.
fn classify(word: String) -> (typ: TokenType)
    ensures
        typ@ == word_type(word@),
{
    let w = word.as_str();
    if is_text(w, "and") {
        TokenType::And
    } else if is_text(w, "class") {
        TokenType::Class
    } else if is_text(w, "else") {
        TokenType::Else
    } else if is_text(w, "false") {
        TokenType::False
    } else if is_text(w, "for") {
        TokenType::For
    } else if is_text(w, "fun") {
        TokenType::Fun
    } else if is_text(w, "if") {
        TokenType::If
    } else if is_text(w, "nil") {
        TokenType::Nil
    } else if is_text(w, "or") {
        TokenType::Or
    } else if is_text(w, "print") {
        TokenType::Print
    } else if is_text(w, "return") {
        TokenType::Return
    } else if is_text(w, "super") {
        TokenType::Super
    } else if is_text(w, "this") {
        TokenType::This
    } else if is_text(w, "true") {
        TokenType::True
    } else if is_text(w, "var") {
        TokenType::Var
    } else if is_text(w, "while") {
        TokenType::While
    } else {
        TokenType::Identifier(word)
    }
}

/// Whether two texts hold the same characters.
fn is_text(a: &str, b: &str) -> (r: bool)
    ensures
        r == (a@ == b@),
{
    String::from_str(a) == String::from_str(b)
}

/// Scans the word that starts at `start_index`: the longest run of ASCII
/// letters, digits and underscores. It fails where no letter or underscore
/// stands at `start_index`.
pub fn scan_identifier(data: &[char], start_index: usize) -> (r: Result<TokenType, LoxError>)
    ensures
        if start_index < data@.len() && is_word_start(data@[start_index as int]) {
            &&& r is Ok
            &&& r->Ok_0@ == word_type(run(data@, start_index as int, |c: char| is_word_char(c)))
        } else {
            &&& r is Err
            &&& r->Err_0@ == "Expected identifier, found number."@
        },
{
    if start_index >= data.len() || !word_start(data[start_index]) {
        Err(LoxError::new("Expected identifier, found number."))
    } else {
        let ghost keep = |c: char| is_word_char(c);
        let taken = take_while(data, start_index, word_char);
        assert(decides(&word_char, keep));
        match taken {
            Ok(ident) => Ok(classify(ident)),
            Err(e) => Err(e),
        }
    }
}

/// Scans the content of a quoted string whose opening quote stands just
/// before `start_index`. The content runs up to the first double quote that
/// no backslash stands directly in front of; backslashes stay in the
/// content as they are. The result is the string token type and the number
/// of line feeds in the content. Where the text ends before such a quote,
/// the scan fails and the message names the missing quote.
pub fn scan_quoted_string(data: &[char], start_index: usize) -> (r: Result<
    (TokenType, usize),
    LoxError,
>)
    ensures
        ({
            let n = string_len(data@, start_index as int, false);
            if start_index + n < data@.len() {
                let content = data@.subrange(start_index as int, start_index + n);
                &&& r is Ok
                &&& r->Ok_0.0@ == TokenTypeView::QuotedString(content)
                &&& r->Ok_0.1 == count(content, '\n')
            } else {
                &&& r is Err
                &&& r->Err_0@ == missing_quote_message((start_index + n) as nat, data@.len())
            }
        }),
{
    let mut line_count: usize = 0;
    let mut escaped = false;
    let mut qstr = String::new();
    let mut i: usize = start_index;
    while i < data.len() && (data[i] != '"' || escaped)
        invariant
            start_index <= i,
            i <= data@.len() || i == start_index,
            qstr@.len() == i - start_index,
            i > start_index ==> qstr@ == data@.subrange(start_index as int, i as int),
            line_count == count(qstr@, '\n'),
            line_count <= qstr@.len(),
            string_len(data@, start_index as int, false) == (i - start_index) + string_len(
                data@,
                i as int,
                escaped,
            ),
        decreases data.len() - i,
    {
        let c = data[i];
        proof {
            count_push(qstr@, c, '\n');
        }
        if c == '\n' {
            line_count = line_count + 1;
        }
        escaped = c == '\\';
        qstr.push(c);
        i = i + 1;
        assert(qstr@ =~= data@.subrange(start_index as int, i as int));
    }
    if i >= data.len() {
        let mut message = String::from_str("Missing end-quote: idx=");
        push_decimal(&mut message, i);
        message.append(", len=");
        push_decimal(&mut message, data.len());
        message.append(".");
        assert(message@ =~= missing_quote_message(i as nat, data@.len()));
        Err(LoxError::new(message.as_str()))
    } else {
        assert(qstr@ =~= data@.subrange(start_index as int, i as int));
        Ok((TokenType::QuotedString(qstr), line_count))
    }
}

/// The lexer's state: the text, a cursor that only moves forward, the line
/// of the cursor, and the tokens scanned so far.
pub struct Scanner {
    text: Vec<char>,
    current_index: usize,
    line: usize,
    tokens: Vec<Token>,
}

impl Scanner {
    /// The text that is scanned.
    pub closed spec fn text(&self) -> Seq<char> {
        self.text@
    }

    /// How many characters have been consumed.
    pub closed spec fn position(&self) -> nat {
        self.current_index as nat
    }

    /// The line of the cursor, counting from 1.
    pub closed spec fn line(&self) -> nat {
        self.line as nat
    }

    /// The tokens scanned so far.
    pub closed spec fn tokens(&self) -> Seq<TokenView> {
        token_views(self.tokens@)
    }

    /// The cursor is inside the text or at its end, and the line is no
    /// further on than the characters consumed allow.
    pub closed spec fn wf(&self) -> bool {
        &&& self.current_index <= self.text@.len()
        &&& self.text@.len() < usize::MAX
        &&& 1 <= self.line <= self.current_index + 1
    }

    /// A scanner at the start of `input`, on line 1, with no tokens yet.
    pub fn new(input: &str) -> (scanner: Scanner)
        requires
            input@.len() < usize::MAX,
        ensures
            scanner.wf(),
            scanner.text() == input@,
            scanner.position() == 0,
            scanner.line() == 1,
            scanner.tokens() == Seq::<TokenView>::empty(),
    {
        let scanner = Scanner {
            text: crate::text::chars_of(input),
            current_index: 0,
            line: 1,
            tokens: Vec::new(),
        };
        assert(scanner.tokens() =~= Seq::<TokenView>::empty());
        scanner
    }

    /// Scans the rest of the text and returns all tokens scanned so far, the
    /// end-of-input token last. `to_bits` reads a numeral: it is handed the
    /// digits, with at most one decimal point among them, and returns the
    /// bit pattern of the number.
    ///
    /// The scan stops at the first lexical error and returns it.
    ///
    /// Whatever `to_bits` returns, the scan fails exactly where `lex` does,
    /// with the same message, and otherwise adds the tokens of `lex` but for
    /// the bit patterns of numbers. Where `to_bits` reads every numeral as
    /// a function `value` does, the tokens added are those of `lex` with
    /// `value`.
    pub fn scan_tokens<P: Fn(String) -> u64>(&mut self, to_bits: &P) -> (r: Result<
        &Vec<Token>,
        LoxError,
    >)
        requires
            old(self).wf(),
            forall|numeral: String| is_numeral(numeral@) ==> to_bits.requires((numeral,)),
        ensures
            final(self).wf(),
            final(self).text() == old(self).text(),
            old(self).tokens().is_prefix_of(final(self).tokens()),
            r is Ok ==> token_views(r->Ok_0@) == final(self).tokens(),
            r is Ok ==> final(self).position() == old(self).text().len(),
            forall|value: spec_fn(Seq<char>) -> u64|
                match #[trigger] lex(
                    old(self).text(),
                    old(self).position() as int,
                    old(self).line(),
                    value,
                ) {
                    Ok(tokens) => r is Ok && agree(
                        reads(to_bits, value),
                        final(self).tokens().skip(old(self).tokens().len() as int),
                        tokens,
                    ),
                    Err(message) => r is Err && r->Err_0@ == message,
                },
    {
        let ghost text = self.text();
        let ghost start = self.position() as int;
        let ghost start_line = self.line();
        let ghost before = self.tokens();
        proof {
            assert(self.tokens().skip(before.len() as int) =~= Seq::<TokenView>::empty());
            assert forall|value: spec_fn(Seq<char>) -> u64|
                tracks(
                    reads(to_bits, value),
                    Seq::<TokenView>::empty(),
                    lex(text, start, start_line, value),
                    #[trigger] lex(text, start, start_line, value),
                ) by {
                tracks_start(reads(to_bits, value), lex(text, start, start_line, value));
            }
        }
        loop
            invariant_except_break
                forall|value: spec_fn(Seq<char>) -> u64|
                    tracks(
                        reads(to_bits, value),
                        self.tokens().skip(before.len() as int),
                        lex(text, self.position() as int, self.line(), value),
                        #[trigger] lex(text, start, start_line, value),
                    ),
            invariant
                self.wf(),
                self.text() == text,
                text == old(self).text(),
                start == old(self).position(),
                start_line == old(self).line(),
                before == old(self).tokens(),
                before.is_prefix_of(self.tokens()),
                forall|numeral: String| is_numeral(numeral@) ==> to_bits.requires((numeral,)),
            ensures
                self.position() == text.len(),
                forall|value: spec_fn(Seq<char>) -> u64|
                    (#[trigger] lex(text, start, start_line, value)) is Ok && agree(
                        reads(to_bits, value),
                        self.tokens().skip(before.len() as int),
                        lex(text, start, start_line, value)->Ok_0,
                    ),
            decreases text.len() - self.position(),
        {
            let ghost pos = self.position() as int;
            let ghost line = self.line();
            let ghost scanned = self.tokens().skip(before.len() as int);
            let ghost p = pos + trivia_len(text, pos);
            let ghost l = line + count(text.subrange(pos, p), '\n');
            proof {
                trivia_len_bounds(text, pos);
            }
            match self.scan_token(to_bits) {
                Err(msg) => {
                    proof {
                        assert forall|value: spec_fn(Seq<char>) -> u64|
                            (#[trigger] lex(text, start, start_line, value)) == Err::<
                                Seq<TokenView>,
                                Seq<char>,
                            >(msg@) by {
                            lex_first(text, pos, line, value);
                            assert(token_at(text, p, l, value) is Err);
                            assert(tracks(
                                reads(to_bits, value),
                                scanned,
                                lex(text, pos, line, value),
                                lex(text, start, start_line, value),
                            ));
                        }
                    }
                    return Err(msg);
                },
                Ok(tok) => {
                    let at_end = matches!(tok.typ, TokenType::Eof);
                    let ghost held = self.tokens();
                    self.tokens.push(tok);
                    proof {
                        assert(self.tokens() =~= held.push(tok@));
                        assert(self.tokens().skip(before.len() as int) =~= scanned.push(tok@));
                        assert forall|value: spec_fn(Seq<char>) -> u64|
                            tracks(reads(to_bits, value), scanned.push(tok@), if at_end {
                                Ok(Seq::<TokenView>::empty())
                            } else {
                                lex(text, self.position() as int, self.line(), value)
                            }, #[trigger] lex(text, start, start_line, value)) by {
                            let whole = lex(text, start, start_line, value);
                            let exact = reads(to_bits, value);
                            lex_first(text, pos, line, value);
                            assert(tracks(exact, scanned, lex(text, pos, line, value), whole));
                            if at_end {
                                tracks_push(
                                    exact,
                                    scanned,
                                    tok@,
                                    tok@,
                                    Ok(Seq::<TokenView>::empty()),
                                    whole,
                                );
                            } else {
                                assert(token_at(text, p, l, value) is Ok);
                                let typ = token_at(text, p, l, value)->Ok_0.0;
                                tracks_push(
                                    exact,
                                    scanned,
                                    tok@,
                                    TokenView { typ, line: l },
                                    lex(text, self.position() as int, self.line(), value),
                                    whole,
                                );
                            }
                        }
                    }
                    if at_end {
                        proof {
                            assert forall|value: spec_fn(Seq<char>) -> u64|
                                (#[trigger] lex(text, start, start_line, value)) is Ok && agree(
                                    reads(to_bits, value),
                                    self.tokens().skip(before.len() as int),
                                    lex(text, start, start_line, value)->Ok_0,
                                ) by {
                                tracks_end(
                                    reads(to_bits, value),
                                    self.tokens().skip(before.len() as int),
                                    lex(text, start, start_line, value),
                                );
                            }
                        }
                        break ;
                    }
                },
            }
        }
        Ok(&self.tokens)
    }

    /// Scans one token: skips white space and comments, then reads the
    /// token that starts at the cursor, or the end-of-input token where the
    /// text ends. The cursor moves past the token.
    fn scan_token<P: Fn(String) -> u64>(&mut self, to_bits: &P) -> (r: Result<Token, LoxError>)
        requires
            old(self).wf(),
            forall|numeral: String| is_numeral(numeral@) ==> to_bits.requires((numeral,)),
        ensures
            final(self).wf(),
            final(self).text() == old(self).text(),
            final(self).tokens@ == old(self).tokens@,
            r is Ok && !(r->Ok_0.typ is Eof) ==> final(self).position() > old(self).position(),
            r is Ok ==> (r->Ok_0.typ is Eof <==> old(self).position() + trivia_len(
                old(self).text(),
                old(self).position() as int,
            ) >= old(self).text().len()),
            ({
                let text = old(self).text();
                let pos = old(self).position() as int;
                let p = pos + trivia_len(text, pos);
                let l = old(self).line() + count(text.subrange(pos, p), '\n');
                if p >= text.len() {
                    &&& r is Ok
                    &&& r->Ok_0@ == (TokenView { typ: TokenTypeView::Fixed(TokenType::Eof), line: l })
                    &&& final(self).position() == text.len()
                    &&& final(self).line() == l
                } else {
                    forall|value: spec_fn(Seq<char>) -> u64|
                        match #[trigger] token_at(text, p, l, value) {
                            Ok((typ, width)) => {
                                &&& r is Ok
                                &&& r->Ok_0@.line == l
                                &&& same_type(r->Ok_0@.typ, typ)
                                &&& reads(to_bits, value) ==> r->Ok_0@.typ == typ
                                &&& final(self).position() == p + width
                                &&& final(self).line() == l + count(
                                    text.subrange(p, p + width),
                                    '\n',
                                )
                            },
                            Err(message) => r is Err && r->Err_0@ == message,
                        }
                }
            }),
        decreases old(self).text().len() - old(self).position(),
    {
        let ghost text = self.text();
        let ghost pos = self.position() as int;
        let ghost line0 = self.line();
        self.skip_whitespace();
        let line = self.line;
        let ghost p = self.position() as int;
        proof {
            trivia_len_bounds(text, p);
        }
        let c = self.advance();
        match c {
            None => Ok(Token::new(TokenType::Eof, line)),
            Some(c) => {
                proof {
                    count_absent(text.subrange(p, p + 1), '\n');
                    if p + 2 <= text.len() && text[p + 1] == '=' {
                        count_absent(text.subrange(p, p + 2), '\n');
                    }
                }
                if c == '(' {
                    Ok(Token::new(TokenType::LeftParen, line))
                } else if c == ')' {
                    Ok(Token::new(TokenType::RightParen, line))
                } else if c == '{' {
                    Ok(Token::new(TokenType::LeftBrace, line))
                } else if c == '}' {
                    Ok(Token::new(TokenType::RightBrace, line))
                } else if c == ',' {
                    Ok(Token::new(TokenType::Comma, line))
                } else if c == '.' {
                    Ok(Token::new(TokenType::Dot, line))
                } else if c == '-' {
                    Ok(Token::new(TokenType::Minus, line))
                } else if c == '+' {
                    Ok(Token::new(TokenType::Plus, line))
                } else if c == ';' {
                    Ok(Token::new(TokenType::Semicolon, line))
                } else if c == '*' {
                    Ok(Token::new(TokenType::Star, line))
                } else if c == '!' {
                    if self.match_advance('=') {
                        Ok(Token::new(TokenType::BangEqual, line))
                    } else {
                        Ok(Token::new(TokenType::Bang, line))
                    }
                } else if c == '=' {
                    if self.match_advance('=') {
                        Ok(Token::new(TokenType::EqualEqual, line))
                    } else {
                        Ok(Token::new(TokenType::Equal, line))
                    }
                } else if c == '<' {
                    if self.match_advance('=') {
                        Ok(Token::new(TokenType::LessEqual, line))
                    } else {
                        Ok(Token::new(TokenType::Less, line))
                    }
                } else if c == '>' {
                    if self.match_advance('=') {
                        Ok(Token::new(TokenType::GreaterEqual, line))
                    } else {
                        Ok(Token::new(TokenType::Greater, line))
                    }
                } else if c == '/' {
                    if self.match_advance('/') {
                        self.advance_line();
                        proof {
                            let keep = |c: char| is_not_newline(c);
                            let q = self.position() as int;
                            run_len_bounds(text, p + 2, keep);
                            count_absent(text.subrange(p, q), '\n');
                            trivia_len_bounds(text, q);
                            let end = q + trivia_len(text, q);
                            count_split(text, pos, p, end, '\n');
                            count_split(text, p, q, end, '\n');
                        }
                        self.scan_token(to_bits)
                    } else {
                        Ok(Token::new(TokenType::Slash, line))
                    }
                } else if c == '"' {
                    proof {
                        let n = string_len(text, p + 1, false);
                        string_len_bounds(text, p + 1, false);
                        if p + 1 + n < text.len() {
                            count_split(text, p, p + 1, p + n + 2, '\n');
                            count_split(text, p + 1, p + 1 + n, p + n + 2, '\n');
                            count_absent(text.subrange(p + 1 + n, p + n + 2), '\n');
                        }
                    }
                    self.scan_string_token(line)
                } else if word_start(c) {
                    self.scan_word_token(line)
                } else if digit(c) {
                    self.scan_number_token(line, to_bits)
                } else {
                    let mut message = String::from_str("Invalid character on line ");
                    push_decimal(&mut message, line);
                    message.append(": ");
                    message.push(c);
                    assert(message@ =~= invalid_character_message(line as nat, c));
                    Err(LoxError::new(message.as_str()))
                }
            },
        }
    }

    /// Reads the rest of a quoted string whose opening quote was just
    /// consumed, and moves past its closing quote.
    fn scan_string_token(&mut self, line: usize) -> (r: Result<Token, LoxError>)
        requires
            old(self).wf(),
            1 <= old(self).position(),
            line <= old(self).line(),
        ensures
            final(self).wf(),
            final(self).text() == old(self).text(),
            final(self).tokens@ == old(self).tokens@,
            ({
                let text = old(self).text();
                let start = old(self).position() as int;
                let n = string_len(text, start, false);
                if start + n < text.len() {
                    let content = text.subrange(start, start + n);
                    &&& r is Ok
                    &&& r->Ok_0@ == (TokenView {
                        typ: TokenTypeView::QuotedString(content),
                        line: line as nat,
                    })
                    &&& final(self).position() == start + n + 1
                    &&& final(self).line() == old(self).line() + count(content, '\n')
                } else {
                    &&& r is Err
                    &&& r->Err_0@ == unterminated_message(
                        line as nat,
                        (start + n) as nat,
                        text.len(),
                    )
                }
            }),
    {
        proof {
            string_len_bounds(self.text(), self.position() as int, false);
        }
        match scan_quoted_string(self.text.as_slice(), self.current_index) {
            Err(inner) => {
                let mut message = String::from_str("Unterminated string starting on line ");
                push_decimal(&mut message, line);
                message.append(": ");
                message.append(inner.message());
                assert(message@ =~= unterminated_message(
                    line as nat,
                    (self.position() + string_len(self.text(), self.position() as int, false)) as nat,
                    self.text().len(),
                ));
                Err(LoxError::new(message.as_str()))
            },
            Ok((typ, line_count)) => {
                let width = match &typ {
                    TokenType::QuotedString(the_string) => the_string.as_str().unicode_len(),
                    _ => 0,
                };
                proof {
                    count_bound(
                        self.text().subrange(
                            self.position() as int,
                            self.position() as int + width as int,
                        ),
                        '\n',
                    );
                }
                self.current_index = self.current_index + width + 1;
                self.line = self.line + line_count;
                Ok(Token::new(typ, line))
            },
        }
    }

    /// Reads the word whose first character was just consumed, and moves
    /// past it.
    fn scan_word_token(&mut self, line: usize) -> (r: Result<Token, LoxError>)
        requires
            old(self).wf(),
            1 <= old(self).position(),
            is_word_start(old(self).text()[old(self).position() - 1]),
        ensures
            final(self).wf(),
            final(self).text() == old(self).text(),
            final(self).tokens@ == old(self).tokens@,
            final(self).line() == old(self).line(),
            ({
                let text = old(self).text();
                let p = old(self).position() - 1;
                let n = 1 + run_len(text, p + 1, |c: char| is_word_char(c));
                &&& r is Ok
                &&& r->Ok_0@ == (TokenView {
                    typ: word_type(text.subrange(p, p + n)),
                    line: line as nat,
                })
                &&& !(r->Ok_0.typ is Eof)
                &&& final(self).position() == p + n
                &&& count(text.subrange(p, p + n), '\n') == 0
            }),
    {
        let ghost keep = |c: char| is_word_char(c);
        let ghost text = self.text();
        let ghost p = self.position() - 1;
        proof {
            run_len_bounds(text, p, keep);
            run_len_bounds(text, p + 1, keep);
            count_absent(text.subrange(p, p + 1 + run_len(text, p + 1, keep)), '\n');
        }
        let taken = take_while(self.text.as_slice(), self.current_index - 1, word_char);
        assert(decides(&word_char, keep));
        match taken {
            Ok(word) => {
                let width = word.as_str().unicode_len();
                let typ = classify(word);
                self.current_index = self.current_index + (width - 1);
                Ok(Token::new(typ, line))
            },
            Err(e) => Err(e),
        }
    }

    /// Reads the numeral whose first digit was just consumed, and moves
    /// past it.
    fn scan_number_token<P: Fn(String) -> u64>(&mut self, line: usize, to_bits: &P) -> (r: Result<
        Token,
        LoxError,
    >)
        requires
            old(self).wf(),
            1 <= old(self).position(),
            is_digit(old(self).text()[old(self).position() - 1]),
            forall|numeral: String| is_numeral(numeral@) ==> to_bits.requires((numeral,)),
        ensures
            final(self).wf(),
            final(self).text() == old(self).text(),
            final(self).tokens@ == old(self).tokens@,
            final(self).line() == old(self).line(),
            ({
                let text = old(self).text();
                let p = old(self).position() - 1;
                let n = 1 + run_len(text, p + 1, |c: char| is_numeral_char(c));
                let numeral = text.subrange(p, p + n);
                if count(numeral, '.') <= 1 {
                    &&& r is Ok
                    &&& r->Ok_0@.typ is Number
                    &&& r->Ok_0@.line == line
                    &&& forall|value: spec_fn(Seq<char>) -> u64| #[trigger]
                        reads(to_bits, value) ==> r->Ok_0@.typ == TokenTypeView::Number(
                            value(numeral),
                        )
                    &&& final(self).position() == p + n
                    &&& count(numeral, '\n') == 0
                } else {
                    &&& r is Err
                    &&& r->Err_0@ == "invalid float literal"@
                }
            }),
    {
        let ghost keep = |c: char| is_numeral_char(c);
        let ghost text = self.text();
        let ghost p = self.position() - 1;
        proof {
            run_len_bounds(text, p, keep);
            run_len_bounds(text, p + 1, keep);
            let n = 1 + run_len(text, p + 1, keep);
            let numeral = text.subrange(p, p + n);
            count_absent(numeral, '\n');
            count_split(text, p, p + 1, p + n, '.');
            count_absent(text.subrange(p, p + 1), '.');
            count_bound(text.subrange(p + 1, p + n), '.');
        }
        match scan_number(self.text.as_slice(), self.current_index - 1, to_bits) {
            Err(msg) => Err(msg),
            Ok((toktype, wid)) => {
                self.current_index = self.current_index + (wid - 1);
                Ok(Token::new(toktype, line))
            },
        }
    }

    /// Whether the cursor is at the end of the text.
    fn is_at_end(&self) -> (r: bool)
        requires
            self.wf(),
        ensures
            r == (self.position() >= self.text().len()),
    {
        self.current_index >= self.text.len()
    }

    /// The character at the cursor, if there is one.
    fn peek(&self) -> (c: Option<char>)
        requires
            self.wf(),
        ensures
            c == if self.position() < self.text().len() {
                Some(self.text()[self.position() as int])
            } else {
                None
            },
    {
        if self.is_at_end() {
            None
        } else {
            Some(self.text[self.current_index])
        }
    }

    /// The character at the cursor, if there is one; the cursor moves past it.
    fn advance(&mut self) -> (c: Option<char>)
        requires
            old(self).wf(),
            old(self).position() < old(self).text().len() ==> !is_space(
                old(self).text()[old(self).position() as int],
            ),
        ensures
            final(self).wf(),
            final(self).text() == old(self).text(),
            final(self).tokens@ == old(self).tokens@,
            final(self).line() == old(self).line(),
            c == old(self).peek_spec(),
            final(self).position() == if c is Some {
                old(self).position() + 1
            } else {
                old(self).position()
            },
    {
        let c = self.peek();
        if c.is_some() {
            self.current_index = self.current_index + 1;
        }
        c
    }

    /// The character at the cursor, if there is one.
    pub closed spec fn peek_spec(&self) -> Option<char> {
        if self.position() < self.text().len() {
            Some(self.text()[self.position() as int])
        } else {
            None
        }
    }

    /// Moves the cursor to the next line feed, or to the end of the text.
    fn advance_line(&mut self)
        requires
            old(self).wf(),
        ensures
            final(self).wf(),
            final(self).text() == old(self).text(),
            final(self).tokens@ == old(self).tokens@,
            final(self).line() == old(self).line(),
            final(self).position() == old(self).position() + run_len(
                old(self).text(),
                old(self).position() as int,
                |c: char| is_not_newline(c),
            ),
    {
        let ghost keep = |c: char| is_not_newline(c);
        let ghost start = self.position() as int;
        while self.current_index < self.text.len() && self.text[self.current_index] != '\n'
            invariant
                self.wf(),
                self.text() == old(self).text(),
                self.tokens@ == old(self).tokens@,
                self.line() == old(self).line(),
                start <= self.position(),
                forall|c: char| #[trigger] keep(c) == is_not_newline(c),
                run_len(self.text(), start, keep) == (self.position() - start) + run_len(
                    self.text(),
                    self.position() as int,
                    keep,
                ),
            decreases self.text.len() - self.current_index,
        {
            assert(keep(self.text()[self.position() as int]));
            self.current_index = self.current_index + 1;
        }
        assert(self.position() < self.text().len() ==> !keep(self.text()[self.position() as int]));
    }

    /// Moves the cursor past white space, counting the line feeds.
    fn skip_whitespace(&mut self)
        requires
            old(self).wf(),
        ensures
            final(self).wf(),
            final(self).text() == old(self).text(),
            final(self).tokens@ == old(self).tokens@,
            old(self).position() <= final(self).position() <= final(self).text().len(),
            final(self).position() < final(self).text().len() ==> !is_space(
                final(self).text()[final(self).position() as int],
            ),
            trivia_len(old(self).text(), old(self).position() as int) == (final(self).position()
                - old(self).position()) + trivia_len(
                old(self).text(),
                final(self).position() as int,
            ),
            final(self).line() == old(self).line() + count(
                old(self).text().subrange(
                    old(self).position() as int,
                    final(self).position() as int,
                ),
                '\n',
            ),
    {
        let ghost start = self.position() as int;
        assert(self.text().subrange(start, start) =~= Seq::<char>::empty());
        while self.current_index < self.text.len() && space(self.text[self.current_index])
            invariant
                self.wf(),
                self.text() == old(self).text(),
                self.tokens@ == old(self).tokens@,
                start == old(self).position(),
                start <= self.position(),
                trivia_len(self.text(), start) == (self.position() - start) + trivia_len(
                    self.text(),
                    self.position() as int,
                ),
                self.line() == old(self).line() + count(
                    self.text().subrange(start, self.position() as int),
                    '\n',
                ),
                self.line() + (self.text().len() - self.position()) <= self.text().len() + 1,
            decreases self.text.len() - self.current_index,
        {
            let c = self.text[self.current_index];
            proof {
                count_push(self.text().subrange(start, self.position() as int), c, '\n');
                assert(self.text().subrange(start, self.position() as int).push(c)
                    =~= self.text().subrange(start, self.position() as int + 1));
            }
            self.current_index = self.current_index + 1;
            if c == '\n' {
                self.line = self.line + 1;
            }
        }
    }

    /// Whether `expected` stands at the cursor; the cursor moves past it
    /// where it does.
    fn match_advance(&mut self, expected: char) -> (r: bool)
        requires
            old(self).wf(),
            expected != '\n',
        ensures
            final(self).wf(),
            final(self).text() == old(self).text(),
            final(self).tokens@ == old(self).tokens@,
            final(self).line() == old(self).line(),
            r == (old(self).position() < old(self).text().len() && old(self).text()[old(
                self,
            ).position() as int] == expected),
            final(self).position() == if r {
                old(self).position() + 1
            } else {
                old(self).position()
            },
    {
        if self.is_at_end() || self.text[self.current_index] != expected {
            false
        } else {
            self.current_index = self.current_index + 1;
            true
        }
    }
}

} // verus!
