//! Parsing of a token stream into a program: alternating literal-text and
//! expression segments in source order.
//!
//! Expression parsing follows the grammar
//! ```text
//! expression := pipeline
//! pipeline   := sum ( "|" IDENT arg* )*
//! arg        := NUMBER
//! sum        := term (("+"|"-") term)*
//! term       := primary (("*"|"/") primary)*
//! primary    := IDENT | NUMBER | STRING | "(" expression ")"
//! ```
//! with `*` and `/` binding tighter than `+` and `-`, all left associative.
//! Parsing is purely syntactic: filter signatures and field existence are
//! checked later, at compilation.

use vstd::prelude::*;

use crate::num::Num;
use crate::token::Tok;
use crate::token::TokS;
use crate::token::TokenS;
use crate::token::Token;
use crate::value::clone_bytes;

verus! {

/// An arithmetic operator.
#[derive(Clone, Copy, PartialEq, Eq, Structural, Debug)]
pub enum BinOp {
    Add,
    Sub,
    Mul,
    Div,
}

/// An expression tree.
#[derive(Debug)]
pub enum Expr {
    Field(Vec<u8>),
    NumLit(Num),
    StrLit(Vec<u8>),
    Bin(BinOp, Box<Expr>, Box<Expr>),
    Filter(Vec<u8>, Vec<Num>, Box<Expr>),
}

/// The mathematical shape of an expression tree.
pub enum ExprS {
    Field(Seq<u8>),
    NumLit(Num),
    StrLit(Seq<u8>),
    Bin(BinOp, Box<ExprS>, Box<ExprS>),
    Filter(Seq<u8>, Seq<Num>, Box<ExprS>),
}

/// The mathematical shape of an expression tree.
pub open spec fn view_expr(e: Expr) -> ExprS
    decreases e,
{
    match e {
        Expr::Field(name) => ExprS::Field(name.deep_view()),
        Expr::NumLit(n) => ExprS::NumLit(n),
        Expr::StrLit(v) => ExprS::StrLit(v.deep_view()),
        Expr::Bin(op, l, r) => ExprS::Bin(op, Box::new(view_expr(*l)), Box::new(view_expr(*r))),
        Expr::Filter(name, args, input) => ExprS::Filter(
            name.deep_view(),
            args.deep_view(),
            Box::new(view_expr(*input)),
        ),
    }
}

impl DeepView for Expr {
    type V = ExprS;

    open spec fn deep_view(&self) -> ExprS {
        view_expr(*self)
    }
}

/// One segment of a program: literal text, or an expression to evaluate.
#[derive(Debug)]
pub enum Segment {
    Literal(Vec<u8>),
    Expression(Expr),
}

/// The mathematical shape of a segment.
pub enum SegmentS {
    Literal(Seq<u8>),
    Expression(ExprS),
}

impl DeepView for Segment {
    type V = SegmentS;

    open spec fn deep_view(&self) -> SegmentS {
        match self {
            Segment::Literal(v) => SegmentS::Literal(v.deep_view()),
            Segment::Expression(e) => SegmentS::Expression(e.deep_view()),
        }
    }
}

/// Token kinds, for reporting what a parse expected and what it found.
#[derive(Clone, Copy, PartialEq, Eq, Structural, Debug)]
pub enum TokKind {
    Text,
    Ident,
    Number,
    StrLit,
    OpenExpr,
    CloseExpr,
    Plus,
    Minus,
    Star,
    Slash,
    Pipe,
    LParen,
    RParen,
    End,
}

/// A parsing failure, at the byte offset of the offending token.
#[derive(Clone, Copy, PartialEq, Eq, Structural, Debug)]
pub enum ParseError {
    UnexpectedToken { expected: TokKind, found: TokKind, at: usize },
    ExpectedExpression { at: usize },
    ExpectedFilterName { at: usize },
}

pub open spec fn kind_of(t: TokS) -> TokKind {
    match t {
        TokS::Text(_) => TokKind::Text,
        TokS::Ident(_) => TokKind::Ident,
        TokS::Number(_) => TokKind::Number,
        TokS::StrLit(_) => TokKind::StrLit,
        TokS::OpenExpr => TokKind::OpenExpr,
        TokS::CloseExpr => TokKind::CloseExpr,
        TokS::Plus => TokKind::Plus,
        TokS::Minus => TokKind::Minus,
        TokS::Star => TokKind::Star,
        TokS::Slash => TokKind::Slash,
        TokS::Pipe => TokKind::Pipe,
        TokS::LParen => TokKind::LParen,
        TokS::RParen => TokKind::RParen,
    }
}

/// The kind of the token at `i`, or `End` past the stream.
pub open spec fn kind_at(ts: Seq<TokenS>, i: int) -> TokKind {
    if 0 <= i < ts.len() {
        kind_of(ts[i].tok)
    } else {
        TokKind::End
    }
}

/// The byte offset of the token at `i`, or of the last token past the stream.
pub open spec fn pos_at(ts: Seq<TokenS>, i: int) -> usize {
    if 0 <= i < ts.len() {
        ts[i].off
    } else if ts.len() > 0 {
        ts[ts.len() - 1].off
    } else {
        0
    }
}

/// The next parsing position after a sub-parse that started just above `i`
/// and reported `j`: clamped so that parsing always advances and stays inside
/// the stream.  Well-formed sub-parses never need the clamps.
pub open spec fn next_pos(ts: Seq<TokenS>, i: int, j: int) -> int {
    let lo = if j <= i {
        i + 1
    } else {
        j
    };
    if lo > ts.len() {
        ts.len() as int
    } else {
        lo
    }
}

/// Parses `IDENT | NUMBER | STRING | "(" expression ")"` at `i`.
pub open spec fn parse_primary(ts: Seq<TokenS>, i: int) -> Result<(ExprS, int), ParseError>
    decreases ts.len() - i, 0int,
    when 0 <= i <= ts.len()
{
    if i >= ts.len() {
        Err(ParseError::ExpectedExpression { at: pos_at(ts, i) })
    } else {
        match ts[i].tok {
            TokS::Ident(name) => Ok((ExprS::Field(name), i + 1)),
            TokS::Number(n) => Ok((ExprS::NumLit(n), i + 1)),
            TokS::StrLit(v) => Ok((ExprS::StrLit(v), i + 1)),
            TokS::LParen => match parse_expr(ts, i + 1) {
                Ok(ej) => if kind_at(ts, ej.1) == TokKind::RParen {
                    Ok((ej.0, ej.1 + 1))
                } else {
                    Err(
                        ParseError::UnexpectedToken {
                            expected: TokKind::RParen,
                            found: kind_at(ts, ej.1),
                            at: pos_at(ts, ej.1),
                        },
                    )
                },
                Err(e) => Err(e),
            },
            _ => Err(ParseError::ExpectedExpression { at: pos_at(ts, i) }),
        }
    }
}

/// Parses the rest of a `term` after its first operand.
pub open spec fn parse_term_tail(ts: Seq<TokenS>, acc: ExprS, j: int) -> Result<
    (ExprS, int),
    ParseError,
>
    decreases ts.len() - j, 1int,
    when 0 <= j <= ts.len()
{
    if j >= ts.len() {
        Ok((acc, j))
    } else {
        let op = if ts[j].tok is Star {
            Some(BinOp::Mul)
        } else if ts[j].tok is Slash {
            Some(BinOp::Div)
        } else {
            None
        };
        match op {
            Some(op) => match parse_primary(ts, j + 1) {
                Ok(ej) => parse_term_tail(
                    ts,
                    ExprS::Bin(op, Box::new(acc), Box::new(ej.0)),
                    next_pos(ts, j, ej.1),
                ),
                Err(e) => Err(e),
            },
            None => Ok((acc, j)),
        }
    }
}

/// Parses `term := primary (("*"|"/") primary)*` at `i`.
pub open spec fn parse_term(ts: Seq<TokenS>, i: int) -> Result<(ExprS, int), ParseError>
    decreases ts.len() - i, 2int,
    when 0 <= i <= ts.len()
{
    match parse_primary(ts, i) {
        Ok(ej) => parse_term_tail(ts, ej.0, next_pos(ts, i, ej.1)),
        Err(e) => Err(e),
    }
}

/// Parses the rest of a `sum` after its first operand.
pub open spec fn parse_sum_tail(ts: Seq<TokenS>, acc: ExprS, j: int) -> Result<
    (ExprS, int),
    ParseError,
>
    decreases ts.len() - j, 3int,
    when 0 <= j <= ts.len()
{
    if j >= ts.len() {
        Ok((acc, j))
    } else {
        let op = if ts[j].tok is Plus {
            Some(BinOp::Add)
        } else if ts[j].tok is Minus {
            Some(BinOp::Sub)
        } else {
            None
        };
        match op {
            Some(op) => match parse_term(ts, j + 1) {
                Ok(ej) => parse_sum_tail(
                    ts,
                    ExprS::Bin(op, Box::new(acc), Box::new(ej.0)),
                    next_pos(ts, j, ej.1),
                ),
                Err(e) => Err(e),
            },
            None => Ok((acc, j)),
        }
    }
}

/// Parses `sum := term (("+"|"-") term)*` at `i`.
pub open spec fn parse_sum(ts: Seq<TokenS>, i: int) -> Result<(ExprS, int), ParseError>
    decreases ts.len() - i, 4int,
    when 0 <= i <= ts.len()
{
    match parse_term(ts, i) {
        Ok(ej) => parse_sum_tail(ts, ej.0, next_pos(ts, i, ej.1)),
        Err(e) => Err(e),
    }
}

/// Collects the numeric-literal arguments of a pipeline stage.
pub open spec fn parse_args(ts: Seq<TokenS>, k: int) -> (Seq<Num>, int)
    decreases ts.len() - k, 0int,
    when 0 <= k <= ts.len()
{
    if k >= ts.len() {
        (Seq::empty(), k)
    } else {
        match ts[k].tok {
            TokS::Number(n) => {
                let rest = parse_args(ts, k + 1);
                (seq![n] + rest.0, rest.1)
            },
            _ => (Seq::empty(), k),
        }
    }
}

/// Parses the pipeline stages after an expression: each `|` is followed by a
/// filter name and its numeric arguments.
pub open spec fn parse_pipe_tail(ts: Seq<TokenS>, acc: ExprS, j: int) -> Result<
    (ExprS, int),
    ParseError,
>
    decreases ts.len() - j, 5int,
    when 0 <= j <= ts.len()
{
    if j >= ts.len() {
        Ok((acc, j))
    } else if ts[j].tok is Pipe {
        if j + 1 >= ts.len() {
            Err(ParseError::ExpectedFilterName { at: pos_at(ts, j + 1) })
        } else {
            match ts[j + 1].tok {
                TokS::Ident(name) => {
                    let ar = parse_args(ts, j + 2);
                    parse_pipe_tail(
                        ts,
                        ExprS::Filter(name, ar.0, Box::new(acc)),
                        next_pos(ts, j + 1, ar.1),
                    )
                },
                _ => Err(ParseError::ExpectedFilterName { at: pos_at(ts, j + 1) }),
            }
        }
    } else {
        Ok((acc, j))
    }
}

/// Parses `expression := pipeline` at `i`.
pub open spec fn parse_expr(ts: Seq<TokenS>, i: int) -> Result<(ExprS, int), ParseError>
    decreases ts.len() - i, 6int,
    when 0 <= i <= ts.len()
{
    match parse_sum(ts, i) {
        Ok(ej) => parse_pipe_tail(ts, ej.0, next_pos(ts, i, ej.1)),
        Err(e) => Err(e),
    }
}

/// Parses the whole program: text segments, and `{{ expression }}` segments.
pub open spec fn parse_program(ts: Seq<TokenS>, i: int) -> Result<Seq<SegmentS>, ParseError>
    decreases ts.len() - i, 7int,
    when 0 <= i <= ts.len()
{
    if i >= ts.len() {
        Ok(Seq::empty())
    } else {
        match ts[i].tok {
            TokS::Text(v) => match parse_program(ts, i + 1) {
                Ok(rest) => Ok(seq![SegmentS::Literal(v)] + rest),
                Err(e) => Err(e),
            },
            TokS::OpenExpr => match parse_expr(ts, i + 1) {
                Ok(ej) => if kind_at(ts, ej.1) == TokKind::CloseExpr {
                    match parse_program(ts, next_pos(ts, i, ej.1 + 1)) {
                        Ok(rest) => Ok(seq![SegmentS::Expression(ej.0)] + rest),
                        Err(e) => Err(e),
                    }
                } else {
                    Err(
                        ParseError::UnexpectedToken {
                            expected: TokKind::CloseExpr,
                            found: kind_at(ts, ej.1),
                            at: pos_at(ts, ej.1),
                        },
                    )
                },
                Err(e) => Err(e),
            },
            _ => Err(
                ParseError::UnexpectedToken {
                    expected: TokKind::OpenExpr,
                    found: kind_of(ts[i].tok),
                    at: ts[i].off,
                },
            ),
        }
    }
}

/// The program a token sequence parses to.
pub open spec fn spec_parse(ts: Seq<TokenS>) -> Result<Seq<SegmentS>, ParseError> {
    parse_program(ts, 0)
}

fn kind_of_exec(t: &Tok) -> (k: TokKind)
    ensures
        k == kind_of(t.deep_view()),
{
    match t {
        Tok::Text(_) => TokKind::Text,
        Tok::Ident(_) => TokKind::Ident,
        Tok::Number(_) => TokKind::Number,
        Tok::StrLit(_) => TokKind::StrLit,
        Tok::OpenExpr => TokKind::OpenExpr,
        Tok::CloseExpr => TokKind::CloseExpr,
        Tok::Plus => TokKind::Plus,
        Tok::Minus => TokKind::Minus,
        Tok::Star => TokKind::Star,
        Tok::Slash => TokKind::Slash,
        Tok::Pipe => TokKind::Pipe,
        Tok::LParen => TokKind::LParen,
        Tok::RParen => TokKind::RParen,
    }
}

fn kind_at_exec(ts: &Vec<Token>, i: usize) -> (k: TokKind)
    ensures
        k == kind_at(ts.deep_view(), i as int),
{
    if i < ts.len() {
        kind_of_exec(&ts[i].tok)
    } else {
        TokKind::End
    }
}

fn pos_at_exec(ts: &Vec<Token>, i: usize) -> (p: usize)
    ensures
        p == pos_at(ts.deep_view(), i as int),
{
    if i < ts.len() {
        ts[i].off
    } else if ts.len() > 0 {
        ts[ts.len() - 1].off
    } else {
        0
    }
}

fn parse_primary_exec(ts: &Vec<Token>, i: usize) -> (r: Result<(Expr, usize), ParseError>)
    requires
        i <= ts@.len(),
    ensures
        r matches Ok(ej) ==> parse_primary(ts.deep_view(), i as int) == Ok::<
            (ExprS, int),
            ParseError,
        >((ej.0.deep_view(), ej.1 as int)) && i < ej.1 <= ts@.len(),
        r matches Err(e) ==> parse_primary(ts.deep_view(), i as int) == Err::<
            (ExprS, int),
            ParseError,
        >(e),
    decreases ts@.len() - i, 0int,
{
    if i >= ts.len() {
        return Err(ParseError::ExpectedExpression { at: pos_at_exec(ts, i) });
    }
    match &ts[i].tok {
        Tok::Ident(name) => {
            let nm = clone_bytes(name);
            proof {
                assert(nm.deep_view() =~= name.deep_view());
            }
            Ok((Expr::Field(nm), i + 1))
        },
        Tok::Number(n) => Ok((Expr::NumLit(*n), i + 1)),
        Tok::StrLit(v) => {
            let sv = clone_bytes(v);
            proof {
                assert(sv.deep_view() =~= v.deep_view());
            }
            Ok((Expr::StrLit(sv), i + 1))
        },
        Tok::LParen => {
            match parse_expr_exec(ts, i + 1) {
                Ok((e, j)) => {
                    if kind_at_exec(ts, j) == TokKind::RParen {
                        Ok((e, j + 1))
                    } else {
                        Err(
                            ParseError::UnexpectedToken {
                                expected: TokKind::RParen,
                                found: kind_at_exec(ts, j),
                                at: pos_at_exec(ts, j),
                            },
                        )
                    }
                },
                Err(e) => Err(e),
            }
        },
        _ => Err(ParseError::ExpectedExpression { at: pos_at_exec(ts, i) }),
    }
}

fn parse_term_tail_exec(ts: &Vec<Token>, acc: Expr, j: usize) -> (r: Result<
    (Expr, usize),
    ParseError,
>)
    requires
        j <= ts@.len(),
    ensures
        r matches Ok(ej) ==> parse_term_tail(ts.deep_view(), acc.deep_view(), j as int) == Ok::<
            (ExprS, int),
            ParseError,
        >((ej.0.deep_view(), ej.1 as int)) && j <= ej.1 <= ts@.len(),
        r matches Err(e) ==> parse_term_tail(ts.deep_view(), acc.deep_view(), j as int) == Err::<
            (ExprS, int),
            ParseError,
        >(e),
    decreases ts@.len() - j, 1int,
{
    if j >= ts.len() {
        return Ok((acc, j));
    }
    let op = match &ts[j].tok {
        Tok::Star => Some(BinOp::Mul),
        Tok::Slash => Some(BinOp::Div),
        _ => None,
    };
    match op {
        Some(op) => match parse_primary_exec(ts, j + 1) {
            Ok((rhs, k)) => parse_term_tail_exec(ts, Expr::Bin(op, Box::new(acc), Box::new(rhs)), k),
            Err(e) => Err(e),
        },
        None => Ok((acc, j)),
    }
}

fn parse_term_exec(ts: &Vec<Token>, i: usize) -> (r: Result<(Expr, usize), ParseError>)
    requires
        i <= ts@.len(),
    ensures
        r matches Ok(ej) ==> parse_term(ts.deep_view(), i as int) == Ok::<
            (ExprS, int),
            ParseError,
        >((ej.0.deep_view(), ej.1 as int)) && i < ej.1 <= ts@.len(),
        r matches Err(e) ==> parse_term(ts.deep_view(), i as int) == Err::<
            (ExprS, int),
            ParseError,
        >(e),
    decreases ts@.len() - i, 2int,
{
    match parse_primary_exec(ts, i) {
        Ok((e, j)) => parse_term_tail_exec(ts, e, j),
        Err(e) => Err(e),
    }
}

fn parse_sum_tail_exec(ts: &Vec<Token>, acc: Expr, j: usize) -> (r: Result<
    (Expr, usize),
    ParseError,
>)
    requires
        j <= ts@.len(),
    ensures
        r matches Ok(ej) ==> parse_sum_tail(ts.deep_view(), acc.deep_view(), j as int) == Ok::<
            (ExprS, int),
            ParseError,
        >((ej.0.deep_view(), ej.1 as int)) && j <= ej.1 <= ts@.len(),
        r matches Err(e) ==> parse_sum_tail(ts.deep_view(), acc.deep_view(), j as int) == Err::<
            (ExprS, int),
            ParseError,
        >(e),
    decreases ts@.len() - j, 3int,
{
    if j >= ts.len() {
        return Ok((acc, j));
    }
    let op = match &ts[j].tok {
        Tok::Plus => Some(BinOp::Add),
        Tok::Minus => Some(BinOp::Sub),
        _ => None,
    };
    match op {
        Some(op) => match parse_term_exec(ts, j + 1) {
            Ok((rhs, k)) => parse_sum_tail_exec(ts, Expr::Bin(op, Box::new(acc), Box::new(rhs)), k),
            Err(e) => Err(e),
        },
        None => Ok((acc, j)),
    }
}

fn parse_sum_exec(ts: &Vec<Token>, i: usize) -> (r: Result<(Expr, usize), ParseError>)
    requires
        i <= ts@.len(),
    ensures
        r matches Ok(ej) ==> parse_sum(ts.deep_view(), i as int) == Ok::<
            (ExprS, int),
            ParseError,
        >((ej.0.deep_view(), ej.1 as int)) && i < ej.1 <= ts@.len(),
        r matches Err(e) ==> parse_sum(ts.deep_view(), i as int) == Err::<
            (ExprS, int),
            ParseError,
        >(e),
    decreases ts@.len() - i, 4int,
{
    match parse_term_exec(ts, i) {
        Ok((e, j)) => parse_sum_tail_exec(ts, e, j),
        Err(e) => Err(e),
    }
}

fn parse_args_exec(ts: &Vec<Token>, k: usize) -> (r: (Vec<Num>, usize))
    requires
        k <= ts@.len(),
    ensures
        parse_args(ts.deep_view(), k as int) == (r.0.deep_view(), r.1 as int),
        k <= r.1 <= ts@.len(),
    decreases ts@.len() - k, 0int,
{
    if k >= ts.len() {
        let out: Vec<Num> = Vec::new();
        proof {
            assert(out.deep_view() =~= Seq::<Num>::empty());
        }
        return (out, k);
    }
    match &ts[k].tok {
        Tok::Number(n) => {
            let nv = *n;
            let (mut rest, e) = parse_args_exec(ts, k + 1);
            let ghost rv = rest.deep_view();
            rest.insert(0, nv);
            proof {
                assert(rest.deep_view() =~= seq![nv] + rv);
            }
            (rest, e)
        },
        _ => {
            let out: Vec<Num> = Vec::new();
            proof {
                assert(out.deep_view() =~= Seq::<Num>::empty());
            }
            (out, k)
        },
    }
}

fn parse_pipe_tail_exec(ts: &Vec<Token>, acc: Expr, j: usize) -> (r: Result<
    (Expr, usize),
    ParseError,
>)
    requires
        j <= ts@.len(),
    ensures
        r matches Ok(ej) ==> parse_pipe_tail(ts.deep_view(), acc.deep_view(), j as int) == Ok::<
            (ExprS, int),
            ParseError,
        >((ej.0.deep_view(), ej.1 as int)) && j <= ej.1 <= ts@.len(),
        r matches Err(e) ==> parse_pipe_tail(ts.deep_view(), acc.deep_view(), j as int) == Err::<
            (ExprS, int),
            ParseError,
        >(e),
    decreases ts@.len() - j, 5int,
{
    if j >= ts.len() {
        return Ok((acc, j));
    }
    let is_pipe = matches!(&ts[j].tok, Tok::Pipe);
    if !is_pipe {
        return Ok((acc, j));
    }
    if j + 1 >= ts.len() {
        return Err(ParseError::ExpectedFilterName { at: pos_at_exec(ts, j + 1) });
    }
    match &ts[j + 1].tok {
        Tok::Ident(name) => {
            let nm = clone_bytes(name);
            proof {
                assert(nm.deep_view() =~= name.deep_view());
            }
            let (args, k) = parse_args_exec(ts, j + 2);
            parse_pipe_tail_exec(ts, Expr::Filter(nm, args, Box::new(acc)), k)
        },
        _ => Err(ParseError::ExpectedFilterName { at: pos_at_exec(ts, j + 1) }),
    }
}

fn parse_expr_exec(ts: &Vec<Token>, i: usize) -> (r: Result<(Expr, usize), ParseError>)
    requires
        i <= ts@.len(),
    ensures
        r matches Ok(ej) ==> parse_expr(ts.deep_view(), i as int) == Ok::<
            (ExprS, int),
            ParseError,
        >((ej.0.deep_view(), ej.1 as int)) && i < ej.1 <= ts@.len(),
        r matches Err(e) ==> parse_expr(ts.deep_view(), i as int) == Err::<
            (ExprS, int),
            ParseError,
        >(e),
    decreases ts@.len() - i, 6int,
{
    match parse_sum_exec(ts, i) {
        Ok((e, j)) => parse_pipe_tail_exec(ts, e, j),
        Err(e) => Err(e),
    }
}

fn parse_program_exec(ts: &Vec<Token>, i: usize, out: &mut Vec<Segment>) -> (r: Result<
    (),
    ParseError,
>)
    requires
        i <= ts@.len(),
    ensures
        r matches Ok(_) ==> parse_program(ts.deep_view(), i as int) matches Ok(segs)
            && final(out).deep_view() == old(out).deep_view() + segs,
        r matches Err(e) ==> parse_program(ts.deep_view(), i as int) == Err::<
            Seq<SegmentS>,
            ParseError,
        >(e),
    decreases ts@.len() - i, 7int,
{
    if i >= ts.len() {
        proof {
            assert(out.deep_view() =~= old(out).deep_view() + Seq::<SegmentS>::empty());
        }
        return Ok(());
    }
    match &ts[i].tok {
        Tok::Text(v) => {
            let tv = clone_bytes(v);
            proof {
                assert(tv.deep_view() =~= v.deep_view());
            }
            out.push(Segment::Literal(tv));
            let ghost mid = old(out).deep_view() + seq![
                SegmentS::Literal(ts.deep_view()[i as int].tok->Text_0),
            ];
            proof {
                assert(out.deep_view() =~= mid);
            }
            match parse_program_exec(ts, i + 1, out) {
                Ok(_) => {
                    proof {
                        let rest = parse_program(ts.deep_view(), i as int + 1).unwrap();
                        assert(out.deep_view() == mid + rest);
                        assert(out.deep_view() =~= old(out).deep_view() + parse_program(
                            ts.deep_view(),
                            i as int,
                        ).unwrap());
                    }
                    Ok(())
                },
                Err(e) => Err(e),
            }
        },
        Tok::OpenExpr => {
            match parse_expr_exec(ts, i + 1) {
                Ok((e, j)) => {
                    if kind_at_exec(ts, j) == TokKind::CloseExpr {
                        let ghost ev = e.deep_view();
                        out.push(Segment::Expression(e));
                        let ghost mid = old(out).deep_view() + seq![SegmentS::Expression(ev)];
                        proof {
                            assert(out.deep_view() =~= mid);
                        }
                        match parse_program_exec(ts, j + 1, out) {
                            Ok(_) => {
                                proof {
                                    let rest = parse_program(
                                        ts.deep_view(),
                                        j as int + 1,
                                    ).unwrap();
                                    assert(out.deep_view() == mid + rest);
                                    assert(out.deep_view() =~= old(out).deep_view()
                                        + parse_program(ts.deep_view(), i as int).unwrap());
                                }
                                Ok(())
                            },
                            Err(e) => Err(e),
                        }
                    } else {
                        Err(
                            ParseError::UnexpectedToken {
                                expected: TokKind::CloseExpr,
                                found: kind_at_exec(ts, j),
                                at: pos_at_exec(ts, j),
                            },
                        )
                    }
                },
                Err(e) => Err(e),
            }
        },
        _ => Err(
            ParseError::UnexpectedToken {
                expected: TokKind::OpenExpr,
                found: kind_of_exec(&ts[i].tok),
                at: ts[i].off,
            },
        ),
    }
}

/// Parses a token sequence into a program, or reports the first syntactic
/// error.
pub fn parse(ts: &Vec<Token>) -> (r: Result<Vec<Segment>, ParseError>)
    ensures
        r matches Ok(p) ==> spec_parse(ts.deep_view()) == Ok::<Seq<SegmentS>, ParseError>(
            p.deep_view(),
        ),
        r matches Err(e) ==> spec_parse(ts.deep_view()) == Err::<Seq<SegmentS>, ParseError>(e),
{
    let mut out: Vec<Segment> = Vec::new();
    match parse_program_exec(ts, 0, &mut out) {
        Ok(_) => {
            proof {
                assert(out.deep_view() =~= parse_program(ts.deep_view(), 0).unwrap());
            }
            Ok(out)
        },
        Err(e) => Err(e),
    }
}

} // verus!
