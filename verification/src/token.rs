//! Lexical analysis of template text.
//!
//! Outside an expression, bytes accumulate into `Text` tokens up to the next
//! `{{` marker.  Inside `{{ ... }}`, the lexer recognizes identifiers, numeric
//! literals, quoted string literals, the four arithmetic operators, the pipe
//! separator, parentheses, and skips whitespace.

use vstd::prelude::*;

use crate::num::Num;
use crate::num::SCALE;
use crate::num::clamp_fin;
use crate::num::pow10;

verus! {

/// One token kind, with its payload where it has one.
#[derive(Clone, Debug)]
pub enum Tok {
    Text(Vec<u8>),
    Ident(Vec<u8>),
    Number(Num),
    StrLit(Vec<u8>),
    OpenExpr,
    CloseExpr,
    Plus,
    Minus,
    Star,
    Slash,
    Pipe,
    LParen,
    RParen,
}

/// The mathematical shape of a token kind.
pub enum TokS {
    Text(Seq<u8>),
    Ident(Seq<u8>),
    Number(Num),
    StrLit(Seq<u8>),
    OpenExpr,
    CloseExpr,
    Plus,
    Minus,
    Star,
    Slash,
    Pipe,
    LParen,
    RParen,
}

/// A token together with the byte offset where it starts.
#[derive(Clone, Debug)]
pub struct Token {
    pub tok: Tok,
    pub off: usize,
}

/// The mathematical shape of a token.
pub struct TokenS {
    pub tok: TokS,
    pub off: usize,
}

impl DeepView for Tok {
    type V = TokS;

    open spec fn deep_view(&self) -> TokS {
        match self {
            Tok::Text(v) => TokS::Text(v.deep_view()),
            Tok::Ident(v) => TokS::Ident(v.deep_view()),
            Tok::Number(n) => TokS::Number(*n),
            Tok::StrLit(v) => TokS::StrLit(v.deep_view()),
            Tok::OpenExpr => TokS::OpenExpr,
            Tok::CloseExpr => TokS::CloseExpr,
            Tok::Plus => TokS::Plus,
            Tok::Minus => TokS::Minus,
            Tok::Star => TokS::Star,
            Tok::Slash => TokS::Slash,
            Tok::Pipe => TokS::Pipe,
            Tok::LParen => TokS::LParen,
            Tok::RParen => TokS::RParen,
        }
    }
}

impl DeepView for Token {
    type V = TokenS;

    open spec fn deep_view(&self) -> TokenS {
        TokenS { tok: self.tok.deep_view(), off: self.off }
    }
}

/// A lexing failure, at the byte offset where it was noticed.
#[derive(Clone, Copy, PartialEq, Eq, Structural, Debug)]
pub enum LexError {
    UnterminatedExpression { at: usize },
    InvalidCharacter { at: usize },
}

pub open spec fn is_ws(b: u8) -> bool {
    b == 32 || b == 9 || b == 10 || b == 13
}

pub open spec fn is_digit(b: u8) -> bool {
    48 <= b && b <= 57
}

pub open spec fn is_alpha(b: u8) -> bool {
    (65 <= b && b <= 90) || (97 <= b && b <= 122) || b == 95
}

pub open spec fn is_ident_byte(b: u8) -> bool {
    is_alpha(b) || is_digit(b)
}

/// First position at or after `i` where a `{{` marker starts, or the input
/// length when there is none.
pub open spec fn text_end(s: Seq<u8>, i: int) -> int
    decreases s.len() - i,
    when 0 <= i <= s.len()
{
    if i >= s.len() {
        s.len() as int
    } else if i + 1 < s.len() && s[i] == 123 && s[i + 1] == 123 {
        i
    } else {
        text_end(s, i + 1)
    }
}

pub proof fn lemma_text_end(s: Seq<u8>, i: int)
    requires
        0 <= i <= s.len(),
    ensures
        i <= text_end(s, i) <= s.len(),
        text_end(s, i) < s.len() ==> text_end(s, i) + 2 <= s.len() && s[text_end(s, i)] == 123
            && s[text_end(s, i) + 1] == 123,
    decreases s.len() - i,
{
    if i < s.len() && !(i + 1 < s.len() && s[i] == 123 && s[i + 1] == 123) {
        lemma_text_end(s, i + 1);
    }
}

/// First position at or after `i` holding a non-whitespace byte.
pub open spec fn ws_end(s: Seq<u8>, i: int) -> int
    decreases s.len() - i,
    when 0 <= i <= s.len()
{
    if i >= s.len() {
        s.len() as int
    } else if is_ws(s[i]) {
        ws_end(s, i + 1)
    } else {
        i
    }
}

pub proof fn lemma_ws_end(s: Seq<u8>, i: int)
    requires
        0 <= i <= s.len(),
    ensures
        i <= ws_end(s, i) <= s.len(),
        ws_end(s, i) < s.len() ==> !is_ws(s[ws_end(s, i)]),
    decreases s.len() - i,
{
    if i < s.len() && is_ws(s[i]) {
        lemma_ws_end(s, i + 1);
    }
}

/// First position at or after `i` holding a byte that cannot continue an
/// identifier.
pub open spec fn ident_end(s: Seq<u8>, i: int) -> int
    decreases s.len() - i,
    when 0 <= i <= s.len()
{
    if i >= s.len() {
        s.len() as int
    } else if is_ident_byte(s[i]) {
        ident_end(s, i + 1)
    } else {
        i
    }
}

pub proof fn lemma_ident_end(s: Seq<u8>, i: int)
    requires
        0 <= i <= s.len(),
    ensures
        i <= ident_end(s, i) <= s.len(),
        i < s.len() && is_ident_byte(s[i]) ==> i + 1 <= ident_end(s, i),
    decreases s.len() - i,
{
    if i < s.len() && is_ident_byte(s[i]) {
        lemma_ident_end(s, i + 1);
    }
}

/// First position at or after `i` holding a non-digit byte.
pub open spec fn digits_end(s: Seq<u8>, i: int) -> int
    decreases s.len() - i,
    when 0 <= i <= s.len()
{
    if i >= s.len() {
        s.len() as int
    } else if is_digit(s[i]) {
        digits_end(s, i + 1)
    } else {
        i
    }
}

pub proof fn lemma_digits_end(s: Seq<u8>, i: int)
    requires
        0 <= i <= s.len(),
    ensures
        i <= digits_end(s, i) <= s.len(),
        i < s.len() && is_digit(s[i]) ==> i + 1 <= digits_end(s, i),
        forall|k: int| i <= k < digits_end(s, i) ==> is_digit(s[k]),
    decreases s.len() - i,
{
    if i < s.len() && is_digit(s[i]) {
        lemma_digits_end(s, i + 1);
    }
}

/// First position at or after `i` holding a closing quote, or the input
/// length when there is none.
pub open spec fn quote_end(s: Seq<u8>, i: int) -> int
    decreases s.len() - i,
    when 0 <= i <= s.len()
{
    if i >= s.len() {
        s.len() as int
    } else if s[i] == 34 {
        i
    } else {
        quote_end(s, i + 1)
    }
}

pub proof fn lemma_quote_end(s: Seq<u8>, i: int)
    requires
        0 <= i <= s.len(),
    ensures
        i <= quote_end(s, i) <= s.len(),
    decreases s.len() - i,
{
    if i < s.len() && s[i] != 34 {
        lemma_quote_end(s, i + 1);
    }
}

/// Value of the decimal digit run `s[i..j)`.
pub open spec fn dec_value(s: Seq<u8>, i: int, j: int) -> int
    decreases j - i,
    when i <= j
{
    if j <= i {
        0
    } else {
        dec_value(s, i, j - 1) * 10 + (s[j - 1] - 48)
    }
}

pub proof fn lemma_dec_value_bounds(s: Seq<u8>, i: int, j: int)
    requires
        0 <= i <= j <= s.len(),
        forall|k: int| i <= k < j ==> is_digit(s[k]),
    ensures
        0 <= dec_value(s, i, j) < pow10((j - i) as nat),
    decreases j - i,
{
    if j > i {
        lemma_dec_value_bounds(s, i, j - 1);
        assert(pow10((j - i) as nat) == 10 * pow10((j - i - 1) as nat));
    }
}

/// The value of a numeric literal with integer digits `s[i..j)` and
/// fractional digits `s[f0..f1)`; fractional digits beyond the ninth are
/// ignored.
pub open spec fn num_lit(s: Seq<u8>, i: int, j: int, f0: int, f1: int) -> Num {
    let ip = dec_value(s, i, j);
    let flen = if f1 - f0 > 9 {
        9
    } else {
        f1 - f0
    };
    let frac = dec_value(s, f0, f0 + flen) * (pow10((9 - flen) as nat) as int);
    clamp_fin(ip * (SCALE as int) + frac)
}

/// The token starting at position `i`, which must hold a non-whitespace byte
/// that is not the start of a `}}` marker, and the position just after it.
pub open spec fn next_tok(s: Seq<u8>, i: int) -> Result<(TokS, int), LexError>
    recommends
        0 <= i < s.len(),
{
    let n = s.len();
    let b = s[i];
    if b == 43 {
        Ok((TokS::Plus, i + 1))
    } else if b == 45 {
        Ok((TokS::Minus, i + 1))
    } else if b == 42 {
        Ok((TokS::Star, i + 1))
    } else if b == 47 {
        Ok((TokS::Slash, i + 1))
    } else if b == 124 {
        Ok((TokS::Pipe, i + 1))
    } else if b == 40 {
        Ok((TokS::LParen, i + 1))
    } else if b == 41 {
        Ok((TokS::RParen, i + 1))
    } else if b == 34 {
        let q = quote_end(s, i + 1);
        if q >= s.len() {
            Err(LexError::UnterminatedExpression { at: i as usize })
        } else {
            Ok((TokS::StrLit(s.subrange(i + 1, q)), q + 1))
        }
    } else if is_digit(b) {
        let j = digits_end(s, i);
        if j + 2 <= s.len() && s[j] == 46 && is_digit(s[j + 1]) {
            let k = digits_end(s, j + 1);
            Ok((TokS::Number(num_lit(s, i, j, j + 1, k)), k))
        } else {
            Ok((TokS::Number(clamp_fin(dec_value(s, i, j) * (SCALE as int))), j))
        }
    } else if is_alpha(b) {
        Ok((TokS::Ident(s.subrange(i, ident_end(s, i))), ident_end(s, i)))
    } else {
        Err(LexError::InvalidCharacter { at: i as usize })
    }
}

pub proof fn lemma_next_tok_advances(s: Seq<u8>, i: int)
    requires
        0 <= i < s.len(),
    ensures
        next_tok(s, i) matches Ok(tn) ==> i < tn.1 <= s.len(),
{
    lemma_quote_end(s, i + 1);
    lemma_digits_end(s, i);
    lemma_ident_end(s, i);
    if is_digit(s[i]) {
        let j = digits_end(s, i);
        if j + 2 <= s.len() && s[j] == 46 && is_digit(s[j + 1]) {
            lemma_digits_end(s, j + 1);
        }
    }
}

/// Tokens of the text mode starting at `i`: literal text up to the next `{{`
/// marker, then the expression mode behind it.
pub open spec fn lex_text(s: Seq<u8>, i: int) -> Result<Seq<TokenS>, LexError>
    decreases s.len() - i,
    when 0 <= i <= s.len()
    via lex_text_dec
{
    let j = text_end(s, i);
    let pre: Seq<TokenS> = if j > i {
        seq![TokenS { tok: TokS::Text(s.subrange(i, j)), off: i as usize }]
    } else {
        Seq::empty()
    };
    if j >= s.len() {
        Ok(pre)
    } else {
        match lex_expr(s, j + 2, j) {
            Ok(ts) => Ok(pre + seq![TokenS { tok: TokS::OpenExpr, off: j as usize }] + ts),
            Err(e) => Err(e),
        }
    }
}

/// Tokens of the expression mode starting at `i`, inside the `{{` marker that
/// began at `open_at`, up to and including the closing `}}`.
pub open spec fn lex_expr(s: Seq<u8>, i: int, open_at: int) -> Result<Seq<TokenS>, LexError>
    decreases s.len() - i,
    when 0 <= i <= s.len() && 0 <= open_at
    via lex_expr_dec
{
    let w = ws_end(s, i);
    if w >= s.len() {
        Err(LexError::UnterminatedExpression { at: open_at as usize })
    } else if w + 2 <= s.len() && s[w] == 125 && s[w + 1] == 125 {
        match lex_text(s, w + 2) {
            Ok(ts) => Ok(seq![TokenS { tok: TokS::CloseExpr, off: w as usize }] + ts),
            Err(e) => Err(e),
        }
    } else {
        match next_tok(s, w) {
            Ok(tn) => match lex_expr(s, tn.1, open_at) {
                Ok(ts) => Ok(seq![TokenS { tok: tn.0, off: w as usize }] + ts),
                Err(e) => Err(e),
            },
            Err(e) => Err(e),
        }
    }
}

#[via_fn]
proof fn lex_text_dec(s: Seq<u8>, i: int) {
    lemma_text_end(s, i);
}

#[via_fn]
proof fn lex_expr_dec(s: Seq<u8>, i: int, open_at: int) {
    lemma_ws_end(s, i);
    let w = ws_end(s, i);
    if w < s.len() {
        lemma_next_tok_advances(s, w);
    }
}

/// The token sequence of a whole template.
pub open spec fn spec_tokenize(s: Seq<u8>) -> Result<Seq<TokenS>, LexError> {
    lex_text(s, 0)
}

/// A fresh copy of the bytes `s[i..j)`.
fn copy_range(s: &Vec<u8>, i: usize, j: usize) -> (r: Vec<u8>)
    requires
        i <= j <= s@.len(),
    ensures
        r@ == s@.subrange(i as int, j as int),
{
    let mut r: Vec<u8> = Vec::new();
    let mut k: usize = i;
    while k < j
        invariant
            i <= k <= j <= s@.len(),
            r@ == s@.subrange(i as int, k as int),
        decreases j - k,
    {
        r.push(s[k]);
        k = k + 1;
        assert(r@ =~= s@.subrange(i as int, k as int));
    }
    r
}

fn text_end_exec(s: &Vec<u8>, i: usize) -> (j: usize)
    requires
        i <= s@.len(),
    ensures
        j as int == text_end(s@, i as int),
        i <= j <= s@.len(),
{
    proof {
        lemma_text_end(s@, i as int);
    }
    let mut j: usize = i;
    while !(j >= s.len() || (j + 1 < s.len() && s[j] == 123 && s[j + 1] == 123))
        invariant
            i <= j <= s@.len(),
            text_end(s@, i as int) == text_end(s@, j as int),
        decreases s@.len() - j,
    {
        j = j + 1;
    }
    j
}

fn ws_end_exec(s: &Vec<u8>, i: usize) -> (j: usize)
    requires
        i <= s@.len(),
    ensures
        j as int == ws_end(s@, i as int),
        i <= j <= s@.len(),
{
    proof {
        lemma_ws_end(s@, i as int);
    }
    let mut j: usize = i;
    while !(j >= s.len() || !(s[j] == 32 || s[j] == 9 || s[j] == 10 || s[j] == 13))
        invariant
            i <= j <= s@.len(),
            ws_end(s@, i as int) == ws_end(s@, j as int),
        decreases s@.len() - j,
    {
        j = j + 1;
    }
    j
}

fn ident_end_exec(s: &Vec<u8>, i: usize) -> (j: usize)
    requires
        i <= s@.len(),
    ensures
        j as int == ident_end(s@, i as int),
        i <= j <= s@.len(),
{
    proof {
        lemma_ident_end(s@, i as int);
    }
    let mut j: usize = i;
    while !(j >= s.len() || !((65 <= s[j] && s[j] <= 90) || (97 <= s[j] && s[j] <= 122) || s[j]
        == 95 || (48 <= s[j] && s[j] <= 57)))
        invariant
            i <= j <= s@.len(),
            ident_end(s@, i as int) == ident_end(s@, j as int),
        decreases s@.len() - j,
    {
        j = j + 1;
    }
    j
}

fn digits_end_exec(s: &Vec<u8>, i: usize) -> (j: usize)
    requires
        i <= s@.len(),
    ensures
        j as int == digits_end(s@, i as int),
        i <= j <= s@.len(),
{
    proof {
        lemma_digits_end(s@, i as int);
    }
    let mut j: usize = i;
    while !(j >= s.len() || !(48 <= s[j] && s[j] <= 57))
        invariant
            i <= j <= s@.len(),
            digits_end(s@, i as int) == digits_end(s@, j as int),
        decreases s@.len() - j,
    {
        j = j + 1;
    }
    j
}

fn quote_end_exec(s: &Vec<u8>, i: usize) -> (j: usize)
    requires
        i <= s@.len(),
    ensures
        j as int == quote_end(s@, i as int),
        i <= j <= s@.len(),
{
    proof {
        lemma_quote_end(s@, i as int);
    }
    let mut j: usize = i;
    while !(j >= s.len() || s[j] == 34)
        invariant
            i <= j <= s@.len(),
            quote_end(s@, i as int) == quote_end(s@, j as int),
        decreases s@.len() - j,
    {
        j = j + 1;
    }
    j
}

/// Value of a digit run, saturating just above the largest mantissa that can
/// precede the decimal scaling.
fn dec_value_capped(s: &Vec<u8>, i: usize, j: usize) -> (acc: u64)
    requires
        i <= j <= s@.len(),
        forall|k: int| i <= k < j ==> is_digit(s@[k]),
    ensures
        dec_value(s@, i as int, j as int) <= 9_223_372_036 ==> acc == dec_value(
            s@,
            i as int,
            j as int,
        ),
        dec_value(s@, i as int, j as int) > 9_223_372_036 ==> acc == 9_223_372_037,
{
    let mut acc: u64 = 0;
    let mut k: usize = i;
    while k < j
        invariant
            i <= k <= j <= s@.len(),
            forall|t: int| i <= t < j ==> is_digit(s@[t]),
            dec_value(s@, i as int, k as int) <= 9_223_372_036 ==> acc == dec_value(
                s@,
                i as int,
                k as int,
            ),
            dec_value(s@, i as int, k as int) > 9_223_372_036 ==> acc == 9_223_372_037,
            acc <= 9_223_372_037,
        decreases j - k,
    {
        proof {
            lemma_dec_value_bounds(s@, i as int, k as int);
        }
        let d = s[k];
        if acc <= 9_223_372_036 {
            let next: u64 = acc * 10 + ((d - 48) as u64);
            if next > 9_223_372_036 {
                acc = 9_223_372_037;
            } else {
                acc = next;
            }
        } else {
            proof {
                assert(dec_value(s@, i as int, k as int + 1) == dec_value(s@, i as int, k as int)
                    * 10 + (s@[k as int] - 48));
            }
        }
        k = k + 1;
    }
    acc
}

/// Value of the leading fractional digits, scaled to nine digits.
fn frac_value(s: &Vec<u8>, f0: usize, f1: usize) -> (f: u64)
    requires
        f0 <= f1 <= s@.len(),
        forall|k: int| f0 <= k < f1 ==> is_digit(s@[k]),
    ensures
        ({
            let flen: int = if f1 - f0 > 9 {
                9
            } else {
                f1 - f0
            };
            f == dec_value(s@, f0 as int, f0 + flen) * (pow10((9 - flen) as nat) as int)
                && f < 1_000_000_000
        }),
{
    let n = s.len();
    let take: usize = if f1 - f0 > 9 {
        9
    } else {
        f1 - f0
    };
    proof {
        assert(f0 + take <= n);
    }
    let mut acc: u64 = 0;
    let mut t: usize = 0;
    while t < take
        invariant
            t <= take <= 9,
            f0 + take <= s@.len(),
            f0 + take <= usize::MAX,
            forall|k: int| f0 <= k < f0 + take ==> is_digit(s@[k]),
            acc == dec_value(s@, f0 as int, f0 + t),
            acc < pow10(t as nat),
        decreases take - t,
    {
        proof {
            assert(pow10((t + 1) as nat) == 10 * pow10(t as nat));
            crate::num::lemma_pow10_mono(t as nat, 8);
            assert(pow10(8) == 100_000_000) by {
                reveal_with_fuel(pow10, 10);
            }
        }
        let d = s[f0 + t];
        acc = acc * 10 + ((d - 48) as u64);
        t = t + 1;
    }
    let scale_up = crate::num::pow10_small((9 - take) as u32);
    proof {
        crate::num::lemma_pow10_add(take as nat, (9 - take) as nat);
        crate::num::lemma_pow10_pos((9 - take) as nat);
        assert(acc * (pow10((9 - take as int) as nat) as int) < pow10(9)) by (nonlinear_arith)
            requires
                0 <= acc < pow10(take as nat),
                pow10(take as nat) * pow10((9 - take as int) as nat) == pow10(9),
                pow10((9 - take as int) as nat) >= 1,
        ;
        assert(pow10(9) == 1_000_000_000) by {
            reveal_with_fuel(pow10, 10);
        }
    }
    acc * (scale_up as u64)
}

/// The token starting at non-whitespace position `i` inside an expression,
/// and the position just after it.
fn next_tok_exec(s: &Vec<u8>, i: usize) -> (r: Result<(Tok, usize), LexError>)
    requires
        i < s@.len(),
    ensures
        r matches Ok(tn) ==> next_tok(s@, i as int) == Ok::<(TokS, int), LexError>(
            (tn.0.deep_view(), tn.1 as int),
        ) && i < tn.1 <= s@.len(),
        r matches Err(e) ==> next_tok(s@, i as int) == Err::<(TokS, int), LexError>(e),
{
    let n = s.len();
    let b = s[i];
    if b == 43 {
        Ok((Tok::Plus, i + 1))
    } else if b == 45 {
        Ok((Tok::Minus, i + 1))
    } else if b == 42 {
        Ok((Tok::Star, i + 1))
    } else if b == 47 {
        Ok((Tok::Slash, i + 1))
    } else if b == 124 {
        Ok((Tok::Pipe, i + 1))
    } else if b == 40 {
        Ok((Tok::LParen, i + 1))
    } else if b == 41 {
        Ok((Tok::RParen, i + 1))
    } else if b == 34 {
        let q = quote_end_exec(s, i + 1);
        if q >= n {
            Err(LexError::UnterminatedExpression { at: i })
        } else {
            let lit = copy_range(s, i + 1, q);
            proof {
                assert(lit.deep_view() =~= s@.subrange(i as int + 1, q as int));
            }
            Ok((Tok::StrLit(lit), q + 1))
        }
    } else if 48 <= b && b <= 57 {
        let j = digits_end_exec(s, i);
        proof {
            lemma_digits_end(s@, i as int);
        }
        if j < n && s[j] == 46 && j + 1 < n && 48 <= s[j + 1] && s[j + 1] <= 57 {
            let k = digits_end_exec(s, j + 1);
            proof {
                lemma_digits_end(s@, j as int + 1);
            }
            let ip = dec_value_capped(s, i, j);
            if ip > 9_223_372_036 {
                proof {
                    let f0 = j as int + 1;
                    let f1 = k as int;
                    let flen: int = if f1 - f0 > 9 {
                        9
                    } else {
                        f1 - f0
                    };
                    lemma_dec_value_bounds(s@, f0, f0 + flen);
                    crate::num::lemma_pow10_pos((9 - flen) as nat);
                    assert(dec_value(s@, f0, f0 + flen) * (pow10((9 - flen) as nat) as int) >= 0)
                        by (nonlinear_arith)
                        requires
                            dec_value(s@, f0, f0 + flen) >= 0,
                            pow10((9 - flen) as nat) >= 1,
                    ;
                    assert(dec_value(s@, i as int, j as int) * (SCALE as int) > i64::MAX as int);
                }
                Ok((Tok::Number(Num::PosInf), k))
            } else {
                let frac = frac_value(s, j + 1, k);
                let m: i128 = (ip as i128) * (SCALE as i128) + (frac as i128);
                let v = crate::num::clamp_i128(m);
                Ok((Tok::Number(v), k))
            }
        } else {
            let ip = dec_value_capped(s, i, j);
            if ip > 9_223_372_036 {
                proof {
                    assert(dec_value(s@, i as int, j as int) * (SCALE as int) > i64::MAX as int);
                }
                Ok((Tok::Number(Num::PosInf), j))
            } else {
                let m: i128 = (ip as i128) * (SCALE as i128);
                let v = crate::num::clamp_i128(m);
                Ok((Tok::Number(v), j))
            }
        }
    } else if (65 <= b && b <= 90) || (97 <= b && b <= 122) || b == 95 {
        let j = ident_end_exec(s, i);
        proof {
            lemma_ident_end(s@, i as int);
        }
        let name = copy_range(s, i, j);
        proof {
            assert(name.deep_view() =~= s@.subrange(i as int, j as int));
        }
        Ok((Tok::Ident(name), j))
    } else {
        Err(LexError::InvalidCharacter { at: i })
    }
}

/// Runs the text mode from `i`, appending the tokens found to `out`.
fn lex_text_exec(s: &Vec<u8>, i: usize, out: &mut Vec<Token>) -> (r: Result<(), LexError>)
    requires
        i <= s@.len(),
    ensures
        r matches Ok(_) ==> lex_text(s@, i as int) matches Ok(ts)
            && final(out).deep_view() == old(out).deep_view() + ts,
        r matches Err(e) ==> lex_text(s@, i as int) == Err::<Seq<TokenS>, LexError>(e),
    decreases s@.len() - i,
{
    let j = text_end_exec(s, i);
    proof {
        lemma_text_end(s@, i as int);
    }
    let ghost pre: Seq<TokenS> = if j > i {
        seq![TokenS { tok: TokS::Text(s@.subrange(i as int, j as int)), off: i as usize }]
    } else {
        Seq::empty()
    };
    if j > i {
        let txt = copy_range(s, i, j);
        proof {
            assert(txt.deep_view() =~= s@.subrange(i as int, j as int));
        }
        out.push(Token { tok: Tok::Text(txt), off: i });
    }
    proof {
        assert(out.deep_view() =~= old(out).deep_view() + pre);
    }
    if j >= s.len() {
        Ok(())
    } else {
        out.push(Token { tok: Tok::OpenExpr, off: j });
        let ghost opened = old(out).deep_view() + pre + seq![
            TokenS { tok: TokS::OpenExpr, off: j as usize },
        ];
        proof {
            assert(out.deep_view() =~= opened);
        }
        let r = lex_expr_exec(s, j + 2, j, out);
        match r {
            Ok(_) => {
                proof {
                    let ts = lex_expr(s@, j as int + 2, j as int).unwrap();
                    assert(out.deep_view() == opened + ts);
                    assert(out.deep_view() =~= old(out).deep_view() + lex_text(
                        s@,
                        i as int,
                    ).unwrap());
                }
                Ok(())
            },
            Err(e) => Err(e),
        }
    }
}

/// Runs the expression mode from `i`, appending the tokens found to `out`.
fn lex_expr_exec(s: &Vec<u8>, i: usize, open_at: usize, out: &mut Vec<Token>) -> (r: Result<
    (),
    LexError,
>)
    requires
        i <= s@.len(),
    ensures
        r matches Ok(_) ==> lex_expr(s@, i as int, open_at as int) matches Ok(ts)
            && final(out).deep_view() == old(out).deep_view() + ts,
        r matches Err(e) ==> lex_expr(s@, i as int, open_at as int) == Err::<
            Seq<TokenS>,
            LexError,
        >(e),
    decreases s@.len() - i,
{
    let w = ws_end_exec(s, i);
    proof {
        lemma_ws_end(s@, i as int);
    }
    if w >= s.len() {
        Err(LexError::UnterminatedExpression { at: open_at })
    } else if s[w] == 125 && w + 1 < s.len() && s[w + 1] == 125 {
        out.push(Token { tok: Tok::CloseExpr, off: w });
        let ghost closed = old(out).deep_view() + seq![
            TokenS { tok: TokS::CloseExpr, off: w as usize },
        ];
        proof {
            assert(out.deep_view() =~= closed);
        }
        let r = lex_text_exec(s, w + 2, out);
        match r {
            Ok(_) => {
                proof {
                    let ts = lex_text(s@, w as int + 2).unwrap();
                    assert(out.deep_view() == closed + ts);
                    assert(out.deep_view() =~= old(out).deep_view() + lex_expr(
                        s@,
                        i as int,
                        open_at as int,
                    ).unwrap());
                }
                Ok(())
            },
            Err(e) => Err(e),
        }
    } else {
        match next_tok_exec(s, w) {
            Ok((t, nx)) => {
                let ghost ts0 = t.deep_view();
                out.push(Token { tok: t, off: w });
                let ghost headed = old(out).deep_view() + seq![
                    TokenS { tok: ts0, off: w as usize },
                ];
                proof {
                    assert(out.deep_view() =~= headed);
                }
                let r = lex_expr_exec(s, nx, open_at, out);
                match r {
                    Ok(_) => {
                        proof {
                            let ts = lex_expr(s@, nx as int, open_at as int).unwrap();
                            assert(out.deep_view() == headed + ts);
                            assert(out.deep_view() =~= old(out).deep_view() + lex_expr(
                                s@,
                                i as int,
                                open_at as int,
                            ).unwrap());
                        }
                        Ok(())
                    },
                    Err(e) => Err(e),
                }
            },
            Err(e) => Err(e),
        }
    }
}

/// Lexes a whole template into its token sequence, or reports the first
/// lexical error: `UnterminatedExpression` when a `{{` marker or a string
/// literal is never closed, `InvalidCharacter` for a byte that no token class
/// accepts inside an expression.
pub fn tokenize(s: &Vec<u8>) -> (r: Result<Vec<Token>, LexError>)
    ensures
        r matches Ok(ts) ==> spec_tokenize(s@) == Ok::<Seq<TokenS>, LexError>(ts.deep_view()),
        r matches Err(e) ==> spec_tokenize(s@) == Err::<Seq<TokenS>, LexError>(e),
{
    let mut out: Vec<Token> = Vec::new();
    match lex_text_exec(s, 0, &mut out) {
        Ok(_) => {
            proof {
                assert(out.deep_view() =~= lex_text(s@, 0).unwrap());
            }
            Ok(out)
        },
        Err(e) => Err(e),
    }
}

} // verus!
