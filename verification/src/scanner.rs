//! The scanner: one left-to-right pass over the source bytes, producing the
//! token sequence and the list of lexical errors.
//!
//! The first half of this file is the mathematical model: `scan_step` says
//! what one lexeme boundary produces, and `scan_from` folds steps over the
//! whole source. The second half is the executable scanner, verified
//! against that model.

use vstd::prelude::*;
use crate::error::LexError;
use crate::error::LoxError;
use crate::error::SpecLexError;
use crate::numeric::dbl_of_decimal;
use crate::token::Literal;
use crate::token::SpecLiteral;
use crate::token::SpecToken;
use crate::token::Token;
use crate::token::TokenType;

verus! {

// ---------------------------------------------------------------------------
// Byte classes
// ---------------------------------------------------------------------------

/// An ASCII decimal digit.
pub open spec fn is_digit_byte(c: u8) -> bool {
    ('0' as u8) <= c && c <= ('9' as u8)
}

/// A byte that can begin an identifier: an ASCII letter or an underscore.
pub open spec fn is_alpha_byte(c: u8) -> bool {
    (('a' as u8) <= c && c <= ('z' as u8)) || (('A' as u8) <= c && c <= ('Z' as u8)) || c == ('_' as u8)
}

/// A byte that can continue an identifier: an ASCII letter or digit
/// (underscores do not continue an identifier, they only begin one).
pub open spec fn is_alnum_byte(c: u8) -> bool {
    (('a' as u8) <= c && c <= ('z' as u8)) || (('A' as u8) <= c && c <= ('Z' as u8)) || is_digit_byte(c)
}

// ---------------------------------------------------------------------------
// Span helpers: where a run that starts at `i` ends
// ---------------------------------------------------------------------------

/// The first index at or after `i` that does not hold a digit (or the end
/// of the source).
pub open spec fn digits_end(s: Seq<u8>, i: int) -> int
    decreases s.len() - i,
{
    if i < 0 || i >= s.len() || !is_digit_byte(s[i]) {
        i
    } else {
        digits_end(s, i + 1)
    }
}

/// The first index at or after `i` that does not continue an identifier.
pub open spec fn ident_end(s: Seq<u8>, i: int) -> int
    decreases s.len() - i,
{
    if i < 0 || i >= s.len() || !is_alnum_byte(s[i]) {
        i
    } else {
        ident_end(s, i + 1)
    }
}

/// The first index at or after `i` that holds a newline (or the end of the
/// source): where a line comment stops.
pub open spec fn line_end(s: Seq<u8>, i: int) -> int
    decreases s.len() - i,
{
    if i < 0 || i >= s.len() || s[i] == ('\n' as u8) {
        i
    } else {
        line_end(s, i + 1)
    }
}

/// The first index at or after `i` that holds a double quote (or the end
/// of the source): where a string literal closes.
pub open spec fn quote_end(s: Seq<u8>, i: int) -> int
    decreases s.len() - i,
{
    if i < 0 || i >= s.len() || s[i] == ('"' as u8) {
        i
    } else {
        quote_end(s, i + 1)
    }
}

/// How many newline bytes lie in `s[i..j]`.
pub open spec fn newlines(s: Seq<u8>, i: int, j: int) -> int
    decreases j - i,
{
    if i < 0 || i >= j || j > s.len() {
        0
    } else {
        (if s[i] == ('\n' as u8) {
            1int
        } else {
            0int
        }) + newlines(s, i + 1, j)
    }
}

/// A valid number lexeme: one or more digits, optionally followed by a dot
/// and one or more further digits.
pub open spec fn is_number_lexeme(s: Seq<u8>) -> bool {
    ||| (s.len() >= 1 && forall|j: int| 0 <= j < s.len() ==> is_digit_byte(#[trigger] s[j]))
    ||| (exists|i: int|
        1 <= i && i + 1 < s.len() && #[trigger] s[i] == ('.' as u8)
            && (forall|j: int| 0 <= j < i ==> is_digit_byte(#[trigger] s[j]))
            && (forall|j: int| i < j < s.len() ==> is_digit_byte(#[trigger] s[j])))
}

// ---------------------------------------------------------------------------
// Keywords
// ---------------------------------------------------------------------------

/// The fixed keyword table: the token kind a reserved word scans to, or
/// `None` for an ordinary identifier.
pub open spec fn spec_keyword(s: Seq<u8>) -> Option<TokenType> {
    if s.len() == 2 && s[0] == ('i' as u8) && s[1] == ('f' as u8) {
        Option::Some(TokenType::If)
    } else if s.len() == 2 && s[0] == ('o' as u8) && s[1] == ('r' as u8) {
        Option::Some(TokenType::Or)
    } else if s.len() == 3 && s[0] == ('a' as u8) && s[1] == ('n' as u8) && s[2] == ('d' as u8) {
        Option::Some(TokenType::And)
    } else if s.len() == 3 && s[0] == ('f' as u8) && s[1] == ('o' as u8) && s[2] == ('r' as u8) {
        Option::Some(TokenType::For)
    } else if s.len() == 3 && s[0] == ('f' as u8) && s[1] == ('u' as u8) && s[2] == ('n' as u8) {
        Option::Some(TokenType::Fun)
    } else if s.len() == 3 && s[0] == ('n' as u8) && s[1] == ('i' as u8) && s[2] == ('l' as u8) {
        Option::Some(TokenType::Nil)
    } else if s.len() == 3 && s[0] == ('v' as u8) && s[1] == ('a' as u8) && s[2] == ('r' as u8) {
        Option::Some(TokenType::Var)
    } else if s.len() == 4 && s[0] == ('e' as u8) && s[1] == ('l' as u8) && s[2] == ('s' as u8) && s[3] == ('e' as u8) {
        Option::Some(TokenType::Else)
    } else if s.len() == 4 && s[0] == ('t' as u8) && s[1] == ('h' as u8) && s[2] == ('i' as u8) && s[3] == ('s' as u8) {
        Option::Some(TokenType::This)
    } else if s.len() == 4 && s[0] == ('t' as u8) && s[1] == ('r' as u8) && s[2] == ('u' as u8) && s[3] == ('e' as u8) {
        Option::Some(TokenType::True)
    } else if s.len() == 5 && s[0] == ('c' as u8) && s[1] == ('l' as u8) && s[2] == ('a' as u8) && s[3] == ('s' as u8) && s[4]
        == ('s' as u8) {
        Option::Some(TokenType::Class)
    } else if s.len() == 5 && s[0] == ('f' as u8) && s[1] == ('a' as u8) && s[2] == ('l' as u8) && s[3] == ('s' as u8) && s[4]
        == ('e' as u8) {
        Option::Some(TokenType::False)
    } else if s.len() == 5 && s[0] == ('p' as u8) && s[1] == ('r' as u8) && s[2] == ('i' as u8) && s[3] == ('n' as u8) && s[4]
        == ('t' as u8) {
        Option::Some(TokenType::Print)
    } else if s.len() == 5 && s[0] == ('s' as u8) && s[1] == ('u' as u8) && s[2] == ('p' as u8) && s[3] == ('e' as u8) && s[4]
        == ('r' as u8) {
        Option::Some(TokenType::Super)
    } else if s.len() == 5 && s[0] == ('w' as u8) && s[1] == ('h' as u8) && s[2] == ('i' as u8) && s[3] == ('l' as u8) && s[4]
        == ('e' as u8) {
        Option::Some(TokenType::While)
    } else if s.len() == 6 && s[0] == ('r' as u8) && s[1] == ('e' as u8) && s[2] == ('t' as u8) && s[3] == ('u' as u8) && s[4]
        == ('r' as u8) && s[5] == ('n' as u8) {
        Option::Some(TokenType::Return)
    } else {
        Option::None
    }
}

// ---------------------------------------------------------------------------
// One scan step
// ---------------------------------------------------------------------------

/// What scanning one lexeme starting at `pos` produces: at most one token,
/// at most one error, the position after the lexeme, and the line after it.
pub struct ScanStep {
    pub token: Option<SpecToken>,
    pub error: Option<SpecLexError>,
    pub next: int,
    pub line: int,
}

/// A step that emits a token spanning `s[pos..end]` with no literal payload.
pub open spec fn step_plain(s: Seq<u8>, pos: int, line: int, kind: TokenType, end: int) -> ScanStep {
    ScanStep {
        token: Option::Some(
            SpecToken { kind, lexeme: s.subrange(pos, end), literal: Option::None, line },
        ),
        error: Option::None,
        next: end,
        line,
    }
}

/// A step for `! = < >`: one byte of lookahead chooses between the
/// two-character kind (when a `=` follows) and the single-character kind.
pub open spec fn step_either(
    s: Seq<u8>,
    pos: int,
    line: int,
    two: TokenType,
    one: TokenType,
) -> ScanStep {
    if pos + 1 < s.len() && s[pos + 1] == ('=' as u8) {
        step_plain(s, pos, line, two, pos + 2)
    } else {
        step_plain(s, pos, line, one, pos + 1)
    }
}

/// A step that emits nothing and moves to `next` on line `line`.
pub open spec fn step_silent(next: int, line: int) -> ScanStep {
    ScanStep { token: Option::None, error: Option::None, next, line }
}

/// The step for a string literal opening at `pos`: the token carries the
/// bytes between the quotes, at the line the literal ends on; an unclosed
/// string is a collected error, not a token.
pub open spec fn step_string(s: Seq<u8>, pos: int, line: int) -> ScanStep {
    let j = quote_end(s, pos + 1);
    if j >= s.len() {
        let line2 = line + newlines(s, pos + 1, s.len() as int);
        ScanStep {
            token: Option::None,
            error: Option::Some(SpecLexError { line: line2, msg: "Unterminated string"@ }),
            next: s.len() as int,
            line: line2,
        }
    } else {
        let line2 = line + newlines(s, pos + 1, j);
        ScanStep {
            token: Option::Some(
                SpecToken {
                    kind: TokenType::String,
                    lexeme: s.subrange(pos, j + 1),
                    literal: Option::Some(SpecLiteral::String(s.subrange(pos + 1, j))),
                    line: line2,
                },
            ),
            error: Option::None,
            next: j + 1,
            line: line2,
        }
    }
}

/// Where the number lexeme beginning at `pos` ends: the maximal run of
/// digits, extended past a dot only when at least one digit follows it.
pub open spec fn number_end(s: Seq<u8>, pos: int) -> int {
    let d = digits_end(s, pos + 1);
    if d < s.len() && s[d] == ('.' as u8) && d + 1 < s.len() && is_digit_byte(s[d + 1]) {
        digits_end(s, d + 1)
    } else {
        d
    }
}

/// The step for a number literal beginning at `pos`: the token carries the
/// bit pattern of the double the lexeme denotes.
pub open spec fn step_number(s: Seq<u8>, pos: int, line: int) -> ScanStep {
    let end = number_end(s, pos);
    ScanStep {
        token: Option::Some(
            SpecToken {
                kind: TokenType::Number,
                lexeme: s.subrange(pos, end),
                literal: Option::Some(SpecLiteral::Number(dbl_of_decimal(s.subrange(pos, end)))),
                line,
            },
        ),
        error: Option::None,
        next: end,
        line,
    }
}

/// The step for an identifier or keyword beginning at `pos`.
pub open spec fn step_ident(s: Seq<u8>, pos: int, line: int) -> ScanStep {
    let end = ident_end(s, pos + 1);
    let kind = match spec_keyword(s.subrange(pos, end)) {
        Option::Some(k) => k,
        Option::None => TokenType::Identifier,
    };
    step_plain(s, pos, line, kind, end)
}

/// The step for a byte no lexeme can begin with: a collected error, and
/// scanning continues one byte later.
pub open spec fn step_unexpected(pos: int, line: int) -> ScanStep {
    ScanStep {
        token: Option::None,
        error: Option::Some(SpecLexError { line, msg: "Unexpected character"@ }),
        next: pos + 1,
        line,
    }
}

/// What scanning one lexeme starting at `pos` (a valid index) produces.
pub open spec fn scan_step(s: Seq<u8>, pos: int, line: int) -> ScanStep
    recommends
        0 <= pos < s.len(),
{
    let c = s[pos];
    if c == ('(' as u8) {
        step_plain(s, pos, line, TokenType::LeftParen, pos + 1)
    } else if c == (')' as u8) {
        step_plain(s, pos, line, TokenType::RightParen, pos + 1)
    } else if c == ('{' as u8) {
        step_plain(s, pos, line, TokenType::LeftBrace, pos + 1)
    } else if c == ('}' as u8) {
        step_plain(s, pos, line, TokenType::RightBrace, pos + 1)
    } else if c == (',' as u8) {
        step_plain(s, pos, line, TokenType::Comma, pos + 1)
    } else if c == ('.' as u8) {
        step_plain(s, pos, line, TokenType::Dot, pos + 1)
    } else if c == ('-' as u8) {
        step_plain(s, pos, line, TokenType::Minus, pos + 1)
    } else if c == ('+' as u8) {
        step_plain(s, pos, line, TokenType::Plus, pos + 1)
    } else if c == (';' as u8) {
        step_plain(s, pos, line, TokenType::Semicolon, pos + 1)
    } else if c == ('*' as u8) {
        step_plain(s, pos, line, TokenType::Star, pos + 1)
    } else if c == ('!' as u8) {
        step_either(s, pos, line, TokenType::BangEqual, TokenType::Bang)
    } else if c == ('=' as u8) {
        step_either(s, pos, line, TokenType::EqualEqual, TokenType::Equal)
    } else if c == ('<' as u8) {
        step_either(s, pos, line, TokenType::LessEqual, TokenType::Less)
    } else if c == ('>' as u8) {
        step_either(s, pos, line, TokenType::GreaterEqual, TokenType::Greater)
    } else if c == ('/' as u8) {
        if pos + 1 < s.len() && s[pos + 1] == ('/' as u8) {
            step_silent(line_end(s, pos + 2), line)
        } else {
            step_plain(s, pos, line, TokenType::Slash, pos + 1)
        }
    } else if c == (' ' as u8) || c == ('\r' as u8) || c == ('\t' as u8) {
        step_silent(pos + 1, line)
    } else if c == ('\n' as u8) {
        step_silent(pos + 1, line + 1)
    } else if c == ('"' as u8) {
        step_string(s, pos, line)
    } else if is_digit_byte(c) {
        step_number(s, pos, line)
    } else if is_alpha_byte(c) {
        step_ident(s, pos, line)
    } else {
        step_unexpected(pos, line)
    }
}

// ---------------------------------------------------------------------------
// The whole scan
// ---------------------------------------------------------------------------

/// Everything a scan produces: the token sequence and the collected errors.
pub struct ScanResult {
    pub tokens: Seq<SpecToken>,
    pub errors: Seq<SpecLexError>,
}

pub open spec fn opt_tok_seq(o: Option<SpecToken>) -> Seq<SpecToken> {
    match o {
        Option::Some(t) => seq![t],
        Option::None => Seq::empty(),
    }
}

pub open spec fn opt_err_seq(o: Option<SpecLexError>) -> Seq<SpecLexError> {
    match o {
        Option::Some(e) => seq![e],
        Option::None => Seq::empty(),
    }
}

/// The `EOF` token that terminates every token sequence: empty lexeme, at
/// the line the scan ended on.
pub open spec fn eof_token(line: int) -> SpecToken {
    SpecToken { kind: TokenType::EOF, lexeme: Seq::empty(), literal: Option::None, line }
}

/// Scanning the rest of the source from `pos` on line `line`: the step at
/// `pos`, then the rest; past the end, the terminating `EOF` token alone.
pub open spec fn scan_from(s: Seq<u8>, pos: int, line: int) -> ScanResult
    decreases s.len() - pos,
{
    if pos < 0 || pos >= s.len() {
        ScanResult { tokens: seq![eof_token(line)], errors: Seq::empty() }
    } else {
        let st = scan_step(s, pos, line);
        let next = if st.next <= pos {
            pos + 1
        } else if st.next > s.len() {
            s.len() as int
        } else {
            st.next
        };
        let rest = scan_from(s, next, st.line);
        ScanResult {
            tokens: opt_tok_seq(st.token) + rest.tokens,
            errors: opt_err_seq(st.error) + rest.errors,
        }
    }
}

/// What scanning a whole source produces: tokens and errors from the first
/// byte, on line 1.
pub open spec fn scan_output(s: Seq<u8>) -> ScanResult {
    scan_from(s, 0, 1)
}

// ---------------------------------------------------------------------------
// Facts about the model
// ---------------------------------------------------------------------------

/// A digit run's end lies between its start and the end of the source.
pub proof fn lemma_digits_end_bounds(s: Seq<u8>, i: int)
    requires
        0 <= i <= s.len(),
    ensures
        i <= digits_end(s, i) <= s.len(),
    decreases s.len() - i,
{
    if i < s.len() && is_digit_byte(s[i]) {
        lemma_digits_end_bounds(s, i + 1);
    }
}

/// An identifier run's end lies between its start and the end of the source.
pub proof fn lemma_ident_end_bounds(s: Seq<u8>, i: int)
    requires
        0 <= i <= s.len(),
    ensures
        i <= ident_end(s, i) <= s.len(),
    decreases s.len() - i,
{
    if i < s.len() && is_alnum_byte(s[i]) {
        lemma_ident_end_bounds(s, i + 1);
    }
}

/// A comment's end lies between its start and the end of the source.
pub proof fn lemma_line_end_bounds(s: Seq<u8>, i: int)
    requires
        0 <= i <= s.len(),
    ensures
        i <= line_end(s, i) <= s.len(),
    decreases s.len() - i,
{
    if i < s.len() && s[i] != ('\n' as u8) {
        lemma_line_end_bounds(s, i + 1);
    }
}

/// A string's closing quote lies between its start and the end of the source.
pub proof fn lemma_quote_end_bounds(s: Seq<u8>, i: int)
    requires
        0 <= i <= s.len(),
    ensures
        i <= quote_end(s, i) <= s.len(),
    decreases s.len() - i,
{
    if i < s.len() && s[i] != ('"' as u8) {
        lemma_quote_end_bounds(s, i + 1);
    }
}

/// Extending a span by one byte on the right adds that byte's newline count.
pub proof fn lemma_newlines_snoc(s: Seq<u8>, i: int, j: int)
    requires
        0 <= i,
        i <= j,
        j < s.len(),
    ensures
        newlines(s, i, j + 1) == newlines(s, i, j) + if s[j] == ('\n' as u8) {
            1int
        } else {
            0int
        },
    decreases j - i,
{
    if i < j {
        lemma_newlines_snoc(s, i + 1, j);
    } else {
        assert(newlines(s, j + 1, j + 1) == 0);
        assert(newlines(s, i, j) == 0);
    }
}

/// A newline count is non-negative and no larger than the span.
pub proof fn lemma_newlines_le(s: Seq<u8>, i: int, j: int)
    ensures
        0 <= newlines(s, i, j),
        i <= j ==> newlines(s, i, j) <= j - i,
    decreases j - i,
{
    if 0 <= i && i < j && j <= s.len() {
        lemma_newlines_le(s, i + 1, j);
    }
}

/// Every byte of a digit run is a digit.
pub proof fn lemma_digits_end_chars(s: Seq<u8>, i: int)
    requires
        0 <= i <= s.len(),
    ensures
        forall|j: int| i <= j < digits_end(s, i) ==> is_digit_byte(#[trigger] s[j]),
    decreases s.len() - i,
{
    if i < s.len() && is_digit_byte(s[i]) {
        lemma_digits_end_chars(s, i + 1);
        lemma_digits_end_bounds(s, i + 1);
    }
}

/// Every scan step moves forward, and never past the end of the source.
pub proof fn lemma_scan_step_bounds(s: Seq<u8>, pos: int, line: int)
    requires
        0 <= pos < s.len(),
    ensures
        pos < scan_step(s, pos, line).next <= s.len(),
{
    lemma_digits_end_bounds(s, pos + 1);
    let d = digits_end(s, pos + 1);
    if d < s.len() && s[d] == ('.' as u8) && d + 1 < s.len() && is_digit_byte(s[d + 1]) {
        lemma_digits_end_bounds(s, d + 1);
    }
    lemma_ident_end_bounds(s, pos + 1);
    if pos + 2 <= s.len() {
        lemma_line_end_bounds(s, pos + 2);
    }
    lemma_quote_end_bounds(s, pos + 1);
}

/// Where a run of digits known to span `s[a..b]` ends: at `b`, when
/// nothing after `b` continues it.
proof fn lemma_digits_end_stop(s: Seq<u8>, a: int, b: int)
    requires
        0 <= a <= b <= s.len(),
        forall|j: int| a <= j < b ==> is_digit_byte(#[trigger] s[j]),
        b == s.len() || !is_digit_byte(s[b]),
    ensures
        digits_end(s, a) == b,
    decreases b - a,
{
    if a < b {
        lemma_digits_end_stop(s, a + 1, b);
    }
}

/// Every token a scan step emits is well formed, and is never `EOF`.
proof fn lemma_scan_step_token_wf(s: Seq<u8>, pos: int, line: int)
    requires
        0 <= pos < s.len(),
    ensures
        scan_step(s, pos, line).token matches Option::Some(tk) ==> crate::token::wf_token(tk)
            && tk.kind != TokenType::EOF,
{
}

/// Scanning any suffix yields a well-formed token sequence.
proof fn lemma_scan_from_wf(s: Seq<u8>, pos: int, line: int)
    ensures
        crate::token::wf_tokens(scan_from(s, pos, line).tokens),
    decreases s.len() - pos,
{
    if pos < 0 || pos >= s.len() {
    } else {
        let st = scan_step(s, pos, line);
        let next = if st.next <= pos {
            pos + 1
        } else if st.next > s.len() {
            s.len() as int
        } else {
            st.next
        };
        lemma_scan_from_wf(s, next, st.line);
        lemma_scan_step_token_wf(s, pos, line);
        let rest = scan_from(s, next, st.line).tokens;
        let toks = scan_from(s, pos, line).tokens;
        let head = opt_tok_seq(st.token);
        assert(toks == head + rest);
        assert(toks.last() == rest.last());
        assert forall|i: int| 0 <= i < toks.len() - 1 implies (#[trigger] toks[i].kind)
            != TokenType::EOF by {
            if i < head.len() {
                assert(toks[i] == head[i]);
            } else {
                assert(toks[i] == rest[i - head.len()]);
            }
        }
        assert forall|i: int| 0 <= i < toks.len() implies crate::token::wf_token(
            #[trigger] toks[i],
        ) by {
            if i < head.len() {
                assert(toks[i] == head[i]);
            } else {
                assert(toks[i] == rest[i - head.len()]);
            }
        }
    }
}

/// Law: every token sequence the scanner produces is well formed — every
/// literal token carries its payload, and exactly one `EOF` token
/// terminates the sequence.
pub proof fn lemma_scan_output_wf(s: Seq<u8>)
    ensures
        crate::token::wf_tokens(scan_output(s).tokens),
{
    lemma_scan_from_wf(s, 0, 1);
}

/// Law: scanning a source that is one valid number literal yields exactly
/// one `NUMBER` token — whose payload is the parsed value of the whole
/// literal — followed by `EOF` on the same line, and no lexical error.
pub proof fn lemma_scan_number_literal(s: Seq<u8>)
    requires
        is_number_lexeme(s),
    ensures
        scan_output(s).errors =~= Seq::<SpecLexError>::empty(),
        scan_output(s).tokens =~= seq![
            SpecToken {
                kind: TokenType::Number,
                lexeme: s,
                literal: Option::Some(SpecLiteral::Number(dbl_of_decimal(s))),
                line: 1,
            },
            eof_token(1),
        ],
{
    let len = s.len() as int;
    assert(is_digit_byte(s[0]));
    if forall|j: int| 0 <= j < s.len() ==> is_digit_byte(#[trigger] s[j]) {
        lemma_digits_end_stop(s, 1, len);
        assert(number_end(s, 0) == len);
    } else {
        let i = choose|i: int|
            1 <= i && i + 1 < s.len() && #[trigger] s[i] == ('.' as u8) && (forall|j: int|
                0 <= j < i ==> is_digit_byte(#[trigger] s[j])) && (forall|j: int|
                i < j < s.len() ==> is_digit_byte(#[trigger] s[j]));
        assert(!is_digit_byte('.' as u8));
        lemma_digits_end_stop(s, 1, i);
        lemma_digits_end_stop(s, i + 1, len);
        assert(number_end(s, 0) == len);
    }
    let st = scan_step(s, 0, 1);
    assert(st.token == Option::Some(
        SpecToken {
            kind: TokenType::Number,
            lexeme: s.subrange(0, len),
            literal: Option::Some(SpecLiteral::Number(dbl_of_decimal(s.subrange(0, len)))),
            line: 1,
        },
    ));
    assert(s.subrange(0, len) =~= s);
    assert(scan_from(s, len, 1).tokens =~= seq![eof_token(1)]);
    assert(scan_from(s, len, 1).errors =~= Seq::<SpecLexError>::empty());
    assert(scan_output(s).tokens =~= opt_tok_seq(st.token) + scan_from(s, len, 1).tokens);
    assert(scan_output(s).errors =~= scan_from(s, len, 1).errors);
}

// ---------------------------------------------------------------------------
// Views of token and error vectors
// ---------------------------------------------------------------------------

/// The models of a vector of tokens, in order.
pub open spec fn tok_views(ts: Seq<Token>) -> Seq<SpecToken> {
    ts.map_values(|t: Token| t@)
}

/// The models of a vector of lexical errors, in order.
pub open spec fn err_views(es: Seq<LexError>) -> Seq<SpecLexError> {
    es.map_values(|e: LexError| e@)
}

proof fn lemma_tok_views_push(ts: Seq<Token>, t: Token)
    ensures
        tok_views(ts.push(t)) == tok_views(ts) + seq![t@],
{
    assert(tok_views(ts.push(t)) =~= tok_views(ts) + seq![t@]);
}

proof fn lemma_err_views_push(es: Seq<LexError>, e: LexError)
    ensures
        err_views(es.push(e)) == err_views(es) + seq![e@],
{
    assert(err_views(es.push(e)) =~= err_views(es) + seq![e@]);
}

// ---------------------------------------------------------------------------
// The executable scanner
// ---------------------------------------------------------------------------

/// The scanner's working state: the source bytes, the tokens and errors
/// collected so far, and the three cursors of the pass — the start of the
/// current lexeme, the scan position, and the 1-based line counter.
pub struct Scanner {
    source: Vec<u8>,
    tokens: Vec<Token>,
    start: usize,
    current: usize,
    line: usize,
    errors: Vec<LexError>,
}

impl Scanner {
    /// The source bytes this scanner was made for.
    pub closed spec fn src(self) -> Seq<u8> {
        self.source@
    }

    /// A scanner as `new` hands it out: nothing scanned yet.
    pub closed spec fn fresh(self) -> bool {
        &&& self.tokens@.len() == 0
        &&& self.errors@.len() == 0
        &&& self.start == 0
        &&& self.current == 0
        &&& self.line == 1
        &&& self.source@.len() < usize::MAX
    }

    /// The working invariant of the pass: the position stays inside the
    /// source and the line counter cannot outrun the position.
    spec fn inv(self) -> bool {
        &&& self.current <= self.source@.len()
        &&& self.source@.len() < usize::MAX
        &&& 1 <= self.line
        &&& self.line <= self.current + 1
    }

    pub fn new(source: Vec<u8>) -> (s: Scanner)
        requires
            source@.len() < usize::MAX,
        ensures
            s.fresh(),
            s.src() == source@,
    {
        Scanner {
            source,
            tokens: Vec::new(),
            start: 0,
            current: 0,
            line: 1,
            errors: Vec::new(),
        }
    }

    /// The token kind a reserved word scans to, or `None` for an ordinary
    /// identifier: the fixed keyword table as one lookup function.
    fn keyword_lookup(lex: &Vec<u8>) -> (r: Option<TokenType>)
        ensures
            r == spec_keyword(lex@),
    {
        let n = lex.len();
        if n == 2 && lex[0] == 'i' as u8 && lex[1] == 'f' as u8 {
            Option::Some(TokenType::If)
        } else if n == 2 && lex[0] == 'o' as u8 && lex[1] == 'r' as u8 {
            Option::Some(TokenType::Or)
        } else if n == 3 && lex[0] == 'a' as u8 && lex[1] == 'n' as u8 && lex[2] == 'd' as u8 {
            Option::Some(TokenType::And)
        } else if n == 3 && lex[0] == 'f' as u8 && lex[1] == 'o' as u8 && lex[2] == 'r' as u8 {
            Option::Some(TokenType::For)
        } else if n == 3 && lex[0] == 'f' as u8 && lex[1] == 'u' as u8 && lex[2] == 'n' as u8 {
            Option::Some(TokenType::Fun)
        } else if n == 3 && lex[0] == 'n' as u8 && lex[1] == 'i' as u8 && lex[2] == 'l' as u8 {
            Option::Some(TokenType::Nil)
        } else if n == 3 && lex[0] == 'v' as u8 && lex[1] == 'a' as u8 && lex[2] == 'r' as u8 {
            Option::Some(TokenType::Var)
        } else if n == 4 && lex[0] == 'e' as u8 && lex[1] == 'l' as u8 && lex[2] == 's' as u8
            && lex[3] == 'e' as u8 {
            Option::Some(TokenType::Else)
        } else if n == 4 && lex[0] == 't' as u8 && lex[1] == 'h' as u8 && lex[2] == 'i' as u8
            && lex[3] == 's' as u8 {
            Option::Some(TokenType::This)
        } else if n == 4 && lex[0] == 't' as u8 && lex[1] == 'r' as u8 && lex[2] == 'u' as u8
            && lex[3] == 'e' as u8 {
            Option::Some(TokenType::True)
        } else if n == 5 && lex[0] == 'c' as u8 && lex[1] == 'l' as u8 && lex[2] == 'a' as u8
            && lex[3] == 's' as u8 && lex[4] == 's' as u8 {
            Option::Some(TokenType::Class)
        } else if n == 5 && lex[0] == 'f' as u8 && lex[1] == 'a' as u8 && lex[2] == 'l' as u8
            && lex[3] == 's' as u8 && lex[4] == 'e' as u8 {
            Option::Some(TokenType::False)
        } else if n == 5 && lex[0] == 'p' as u8 && lex[1] == 'r' as u8 && lex[2] == 'i' as u8
            && lex[3] == 'n' as u8 && lex[4] == 't' as u8 {
            Option::Some(TokenType::Print)
        } else if n == 5 && lex[0] == 's' as u8 && lex[1] == 'u' as u8 && lex[2] == 'p' as u8
            && lex[3] == 'e' as u8 && lex[4] == 'r' as u8 {
            Option::Some(TokenType::Super)
        } else if n == 5 && lex[0] == 'w' as u8 && lex[1] == 'h' as u8 && lex[2] == 'i' as u8
            && lex[3] == 'l' as u8 && lex[4] == 'e' as u8 {
            Option::Some(TokenType::While)
        } else if n == 6 && lex[0] == 'r' as u8 && lex[1] == 'e' as u8 && lex[2] == 't' as u8
            && lex[3] == 'u' as u8 && lex[4] == 'r' as u8 && lex[5] == 'n' as u8 {
            Option::Some(TokenType::Return)
        } else {
            Option::None
        }
    }

    /// Scans the whole source: on success the complete token sequence,
    /// terminated by exactly one `EOF` token; otherwise every lexical
    /// error found in the single pass, in source order.
    pub fn scan_tokens(self) -> (r: Result<Vec<Token>, LoxError>)
        requires
            self.fresh(),
        ensures
            ({
                let out = scan_output(self.src());
                match r {
                    Result::Ok(ts) => out.errors.len() == 0 && tok_views(ts@) == out.tokens,
                    Result::Err(e) => {
                        &&& out.errors.len() > 0
                        &&& e matches LoxError::Lexer(es) && err_views(es@) == out.errors
                    },
                }
            }),
    {
        let ghost orig = self;
        let mut sc = self;
        while !sc.is_at_end()
            invariant
                sc.inv(),
                sc.source@ == orig.source@,
                scan_output(orig.source@).tokens == tok_views(sc.tokens@) + scan_from(
                    sc.source@,
                    sc.current as int,
                    sc.line as int,
                ).tokens,
                scan_output(orig.source@).errors == err_views(sc.errors@) + scan_from(
                    sc.source@,
                    sc.current as int,
                    sc.line as int,
                ).errors,
            decreases sc.source@.len() - sc.current,
        {
            let ghost pre = sc;
            sc.start = sc.current;
            sc.scan_token();
            proof {
                let s = pre.source@;
                let pos = pre.current as int;
                let line = pre.line as int;
                let st = scan_step(s, pos, line);
                lemma_scan_step_bounds(s, pos, line);
                assert(scan_from(s, pos, line).tokens =~= opt_tok_seq(st.token) + scan_from(
                    s,
                    st.next,
                    st.line,
                ).tokens);
                assert(scan_from(s, pos, line).errors =~= opt_err_seq(st.error) + scan_from(
                    s,
                    st.next,
                    st.line,
                ).errors);
                assert(tok_views(sc.tokens@) + scan_from(s, st.next, st.line).tokens =~= tok_views(
                    pre.tokens@,
                ) + scan_from(s, pos, line).tokens);
                assert(err_views(sc.errors@) + scan_from(s, st.next, st.line).errors =~= err_views(
                    pre.errors@,
                ) + scan_from(s, pos, line).errors);
            }
        }
        let ghost endline = sc.line as int;
        let eof = Token::new(TokenType::EOF, Vec::new(), Option::None, sc.line);
        proof {
            assert(eof@ == eof_token(endline));
            lemma_tok_views_push(sc.tokens@, eof);
        }
        sc.tokens.push(eof);
        proof {
            assert(scan_from(sc.source@, sc.current as int, endline).tokens =~= seq![
                eof_token(endline),
            ]);
            assert(tok_views(sc.tokens@) =~= scan_output(orig.source@).tokens);
            assert(err_views(sc.errors@) =~= scan_output(orig.source@).errors);
        }
        if sc.errors.is_empty() {
            Result::Ok(sc.tokens)
        } else {
            Result::Err(LoxError::from(sc.errors))
        }
    }

    /// Scans one lexeme: exactly the step the model prescribes at the
    /// current position.
    fn scan_token(&mut self)
        requires
            old(self).inv(),
            old(self).current < old(self).source@.len(),
            old(self).start == old(self).current,
        ensures
            final(self).inv(),
            final(self).source@ == old(self).source@,
            ({
                let st = scan_step(
                    old(self).source@,
                    old(self).current as int,
                    old(self).line as int,
                );
                &&& final(self).current as int == st.next
                &&& final(self).line as int == st.line
                &&& tok_views(final(self).tokens@) == tok_views(old(self).tokens@) + opt_tok_seq(
                    st.token,
                )
                &&& err_views(final(self).errors@) == err_views(old(self).errors@) + opt_err_seq(
                    st.error,
                )
            }),
    {
        let c = self.advance();
        if c == '(' as u8 {
            self.add_token(TokenType::LeftParen, Option::None);
        } else if c == ')' as u8 {
            self.add_token(TokenType::RightParen, Option::None);
        } else if c == '{' as u8 {
            self.add_token(TokenType::LeftBrace, Option::None);
        } else if c == '}' as u8 {
            self.add_token(TokenType::RightBrace, Option::None);
        } else if c == ',' as u8 {
            self.add_token(TokenType::Comma, Option::None);
        } else if c == '.' as u8 {
            self.add_token(TokenType::Dot, Option::None);
        } else if c == '-' as u8 {
            self.add_token(TokenType::Minus, Option::None);
        } else if c == '+' as u8 {
            self.add_token(TokenType::Plus, Option::None);
        } else if c == ';' as u8 {
            self.add_token(TokenType::Semicolon, Option::None);
        } else if c == '*' as u8 {
            self.add_token(TokenType::Star, Option::None);
        } else if c == '!' as u8 {
            let token_type = if self.match_char('=' as u8) {
                TokenType::BangEqual
            } else {
                TokenType::Bang
            };
            self.add_token(token_type, Option::None);
        } else if c == '=' as u8 {
            let token_type = if self.match_char('=' as u8) {
                TokenType::EqualEqual
            } else {
                TokenType::Equal
            };
            self.add_token(token_type, Option::None);
        } else if c == '<' as u8 {
            let token_type = if self.match_char('=' as u8) {
                TokenType::LessEqual
            } else {
                TokenType::Less
            };
            self.add_token(token_type, Option::None);
        } else if c == '>' as u8 {
            let token_type = if self.match_char('=' as u8) {
                TokenType::GreaterEqual
            } else {
                TokenType::Greater
            };
            self.add_token(token_type, Option::None);
        } else if c == '/' as u8 {
            if self.match_char('/' as u8) {
                // A line comment: consume through the end of the line,
                // emitting nothing.
                let ghost s = self.source@;
                let ghost c0 = self.current as int;
                while self.current < self.source.len() && self.source[self.current] != '\n' as u8
                    invariant
                        self.inv(),
                        self.source@ == s,
                        c0 <= self.current as int,
                        line_end(s, c0) == line_end(s, self.current as int),
                        self.tokens@ == old(self).tokens@,
                        self.errors@ == old(self).errors@,
                        self.line == old(self).line,
                        self.start == old(self).start,
                    decreases self.source@.len() - self.current,
                {
                    self.current = self.current + 1;
                }
            } else {
                self.add_token(TokenType::Slash, Option::None);
            }
        } else if c == ' ' as u8 || c == '\r' as u8 || c == '\t' as u8 {
            // Whitespace: no token.
        } else if c == '\n' as u8 {
            self.line = self.line + 1;
        } else if c == '"' as u8 {
            self.string();
        } else if c >= '0' as u8 && c <= '9' as u8 {
            self.number();
        } else if (c >= 'a' as u8 && c <= 'z' as u8) || (c >= 'A' as u8 && c <= 'Z' as u8) || c
            == '_' as u8 {
            self.identifier();
        } else {
            let e = LexError { line: self.line, msg: "Unexpected character" };
            proof {
                lemma_err_views_push(self.errors@, e);
            }
            self.errors.push(e);
        }
    }

    fn is_at_end(&self) -> (r: bool)
        ensures
            r == (self.current >= self.source@.len()),
    {
        self.current >= self.source.len()
    }

    /// Consumes and returns the byte at the scan position.
    fn advance(&mut self) -> (c: u8)
        requires
            old(self).inv(),
            old(self).current < old(self).source@.len(),
        ensures
            final(self).inv(),
            *final(self) == (Scanner { current: (old(self).current + 1) as usize, ..*old(self) }),
            c == old(self).source@[old(self).current as int],
    {
        self.current = self.current + 1;
        self.source[self.current - 1]
    }

    /// Emits a token for the current lexeme `source[start..current]`.
    fn add_token(&mut self, token_type: TokenType, literal: Option<Literal>)
        requires
            old(self).inv(),
            old(self).start <= old(self).current <= old(self).source@.len(),
        ensures
            final(self).inv(),
            final(self).source@ == old(self).source@,
            final(self).start == old(self).start,
            final(self).current == old(self).current,
            final(self).line == old(self).line,
            final(self).errors@ == old(self).errors@,
            tok_views(final(self).tokens@) == tok_views(old(self).tokens@) + seq![
                SpecToken {
                    kind: token_type,
                    lexeme: old(self).source@.subrange(
                        old(self).start as int,
                        old(self).current as int,
                    ),
                    literal: match literal {
                        Option::Some(l) => Option::Some(l@),
                        Option::None => Option::None,
                    },
                    line: old(self).line as int,
                },
            ],
    {
        let text = crate::bytes::copy_range(&self.source, self.start, self.current);
        let t = Token::new(token_type, text, literal, self.line);
        proof {
            lemma_tok_views_push(self.tokens@, t);
        }
        self.tokens.push(t);
    }

    /// Consumes the next byte only when it equals `expected`.
    fn match_char(&mut self, expected: u8) -> (r: bool)
        requires
            old(self).inv(),
        ensures
            final(self).inv(),
            r == (old(self).current < old(self).source@.len() && old(self).source@[old(
                self,
            ).current as int] == expected),
            *final(self) == (Scanner {
                current: if r {
                    (old(self).current + 1) as usize
                } else {
                    old(self).current
                },
                ..*old(self)
            }),
    {
        if self.current >= self.source.len() || self.source[self.current] != expected {
            false
        } else {
            self.current = self.current + 1;
            true
        }
    }

    /// The byte at the scan position, if any; does not consume it.
    fn peek(&self) -> (r: Option<u8>)
        ensures
            r == (if self.current < self.source@.len() {
                Option::Some(self.source@[self.current as int])
            } else {
                Option::<u8>::None
            }),
    {
        if self.current >= self.source.len() {
            Option::None
        } else {
            Option::Some(self.source[self.current])
        }
    }

    /// The byte one past the scan position, if any.
    fn peek_next(&self) -> (r: Option<u8>)
        requires
            self.current < usize::MAX,
        ensures
            r == (if self.current + 1 < self.source@.len() {
                Option::Some(self.source@[self.current + 1])
            } else {
                Option::<u8>::None
            }),
    {
        if self.current + 1 >= self.source.len() {
            Option::None
        } else {
            Option::Some(self.source[self.current + 1])
        }
    }

    /// Scans the rest of a string literal whose opening quote was just
    /// consumed: the token carries the bytes between the quotes, and an
    /// unclosed string is a collected error with no token.
    fn string(&mut self)
        requires
            old(self).inv(),
            old(self).start + 1 == old(self).current,
            old(self).start < old(self).source@.len(),
            old(self).source@[old(self).start as int] == '"' as u8,
        ensures
            final(self).inv(),
            final(self).source@ == old(self).source@,
            ({
                let st = step_string(old(self).source@, old(self).start as int, old(self).line as int);
                &&& final(self).current as int == st.next
                &&& final(self).line as int == st.line
                &&& tok_views(final(self).tokens@) == tok_views(old(self).tokens@) + opt_tok_seq(
                    st.token,
                )
                &&& err_views(final(self).errors@) == err_views(old(self).errors@) + opt_err_seq(
                    st.error,
                )
            }),
    {
        let ghost s = self.source@;
        let ghost body_start = self.current as int;
        let ghost line0 = self.line as int;
        while self.current < self.source.len() && self.source[self.current] != '"' as u8
            invariant
                self.inv(),
                self.source@ == s,
                1 <= body_start <= self.current as int <= s.len(),
                quote_end(s, body_start) == quote_end(s, self.current as int),
                self.line as int == line0 + newlines(s, body_start, self.current as int),
                self.tokens@ == old(self).tokens@,
                self.errors@ == old(self).errors@,
                self.start == old(self).start,
            decreases self.source@.len() - self.current,
        {
            proof {
                lemma_newlines_snoc(s, body_start, self.current as int);
                lemma_newlines_le(s, body_start, self.current as int);
            }
            if self.source[self.current] == '\n' as u8 {
                self.line = self.line + 1;
            }
            self.current = self.current + 1;
        }
        if self.current >= self.source.len() {
            // The source ended before a closing quote: a collected error,
            // and no token for the malformed string.
            let e = LexError { line: self.line, msg: "Unterminated string" };
            proof {
                lemma_err_views_push(self.errors@, e);
            }
            self.errors.push(e);
        } else {
            self.current = self.current + 1;
            let value = crate::bytes::copy_range(&self.source, self.start + 1, self.current - 1);
            self.add_token(TokenType::String, Option::Some(Literal::String(value)));
        }
    }

    fn is_digit(c: Option<u8>) -> (r: bool)
        ensures
            r == (c matches Option::Some(b) && is_digit_byte(b)),
    {
        if let Option::Some(c) = c {
            c >= '0' as u8 && c <= '9' as u8
        } else {
            false
        }
    }

    /// Scans the rest of a number literal whose first digit was just
    /// consumed: the maximal digit run, extended past a dot only when a
    /// digit follows, parsed to the bit pattern of the nearest double.
    fn number(&mut self)
        requires
            old(self).inv(),
            old(self).start + 1 == old(self).current,
            old(self).start < old(self).source@.len(),
            is_digit_byte(old(self).source@[old(self).start as int]),
        ensures
            final(self).inv(),
            final(self).source@ == old(self).source@,
            ({
                let st = step_number(old(self).source@, old(self).start as int, old(self).line as int);
                &&& final(self).current as int == st.next
                &&& final(self).line as int == st.line
                &&& tok_views(final(self).tokens@) == tok_views(old(self).tokens@) + opt_tok_seq(
                    st.token,
                )
                &&& err_views(final(self).errors@) == err_views(old(self).errors@) + opt_err_seq(
                    st.error,
                )
            }),
    {
        let ghost s = self.source@;
        let ghost pos = self.start as int;
        while Self::is_digit(self.peek())
            invariant
                self.inv(),
                self.source@ == s,
                pos + 1 <= self.current as int <= s.len(),
                digits_end(s, pos + 1) == digits_end(s, self.current as int),
                self.tokens@ == old(self).tokens@,
                self.errors@ == old(self).errors@,
                self.line == old(self).line,
                self.start == old(self).start,
            decreases self.source@.len() - self.current,
        {
            self.current = self.current + 1;
        }
        proof {
            assert(digits_end(s, self.current as int) == self.current as int);
        }
        let dot_and_digit = match (self.peek(), self.peek_next()) {
            (Option::Some(d), Option::Some(n)) => d == '.' as u8 && n >= '0' as u8 && n
                <= '9' as u8,
            _ => false,
        };
        if dot_and_digit {
            self.current = self.current + 1;
            let ghost d1 = (self.current - 1) as int;
            while Self::is_digit(self.peek())
                invariant
                    self.inv(),
                    self.source@ == s,
                    d1 + 1 <= self.current as int <= s.len(),
                    digits_end(s, d1 + 1) == digits_end(s, self.current as int),
                    self.tokens@ == old(self).tokens@,
                    self.errors@ == old(self).errors@,
                    self.line == old(self).line,
                    self.start == old(self).start,
                decreases self.source@.len() - self.current,
            {
                self.current = self.current + 1;
            }
            proof {
                assert(digits_end(s, self.current as int) == self.current as int);
            }
        }
        let value = crate::bytes::copy_range(&self.source, self.start, self.current);
        proof {
            lemma_digits_end_chars(s, pos + 1);
            let end = number_end(s, pos);
            assert(self.current as int == end);
            if digits_end(s, pos + 1) < end {
                lemma_digits_end_chars(s, digits_end(s, pos + 1) + 1);
            }
            assert(is_number_lexeme(value@)) by {
                let lex = s.subrange(pos, end);
                let d = digits_end(s, pos + 1);
                if d < end {
                    // The dot sits at `d - pos` inside the lexeme, with
                    // digits on both sides of it.
                    let i = d - pos;
                    assert(lex[i] == '.' as u8);
                    assert(forall|j: int| 0 <= j < i ==> is_digit_byte(#[trigger] lex[j]));
                    assert(forall|j: int| i < j < lex.len() ==> is_digit_byte(#[trigger] lex[j]));
                } else {
                    assert(forall|j: int| 0 <= j < lex.len() ==> is_digit_byte(#[trigger] lex[j]));
                }
            }
        }
        let bits = crate::numeric::num_from_decimal(&value);
        self.add_token(TokenType::Number, Option::Some(Literal::Number(bits)));
    }

    fn is_alpha_numeric(c: Option<u8>) -> (r: bool)
        ensures
            r == (c matches Option::Some(b) && is_alnum_byte(b)),
    {
        if let Option::Some(c) = c {
            (c >= 'a' as u8 && c <= 'z' as u8) || (c >= 'A' as u8 && c <= 'Z' as u8) || (c
                >= '0' as u8 && c <= '9' as u8)
        } else {
            false
        }
    }

    /// Scans the rest of an identifier whose first byte was just consumed,
    /// then looks the lexeme up in the keyword table.
    fn identifier(&mut self)
        requires
            old(self).inv(),
            old(self).start + 1 == old(self).current,
            old(self).start < old(self).source@.len(),
        ensures
            final(self).inv(),
            final(self).source@ == old(self).source@,
            ({
                let st = step_ident(old(self).source@, old(self).start as int, old(self).line as int);
                &&& final(self).current as int == st.next
                &&& final(self).line as int == st.line
                &&& tok_views(final(self).tokens@) == tok_views(old(self).tokens@) + opt_tok_seq(
                    st.token,
                )
                &&& err_views(final(self).errors@) == err_views(old(self).errors@) + opt_err_seq(
                    st.error,
                )
            }),
    {
        let ghost s = self.source@;
        let ghost pos = self.start as int;
        while Self::is_alpha_numeric(self.peek())
            invariant
                self.inv(),
                self.source@ == s,
                pos + 1 <= self.current as int <= s.len(),
                ident_end(s, pos + 1) == ident_end(s, self.current as int),
                self.tokens@ == old(self).tokens@,
                self.errors@ == old(self).errors@,
                self.line == old(self).line,
                self.start == old(self).start,
            decreases self.source@.len() - self.current,
        {
            self.current = self.current + 1;
        }
        proof {
            assert(ident_end(s, self.current as int) == self.current as int);
        }
        let value = crate::bytes::copy_range(&self.source, self.start, self.current);
        let token_type = match Self::keyword_lookup(&value) {
            Option::Some(keyword) => keyword,
            Option::None => TokenType::Identifier,
        };
        self.add_token(token_type, Option::None);
    }
}

} // verus!
