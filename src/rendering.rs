use vstd::prelude::*;
use crate::ast::{BinaryOp, ExprV, StmtV, UnaryOp};
use crate::lexer::{
    alpha, alphanumeric, eof_token, keyword_kind, lex, newlines, option_seq, quote_end, scan,
    scan_step, token_at, word_end,
};
use crate::parser::{
    advanced, at_end, binary_op_of, check, literal_of, matches_any, parse, parse_binary,
    parse_binary_rest, parse_declaration, parse_expression, parse_operand, parse_primary,
    parse_program, parse_terminated, parse_unary, parse_var_declaration,
    tier_kinds, unary_op_of, well_formed_tokens, finish_var,
};
use crate::token::{LiteralV, TokenKind, TokenV};

verus! {

/// The binary tier whose operators include `k`, if any.
pub open spec fn kind_tier(k: TokenKind) -> Option<nat> {
    match k {
        TokenKind::Slash | TokenKind::Star => Some(0),
        TokenKind::Minus | TokenKind::Plus => Some(1),
        TokenKind::GreaterEqual
        | TokenKind::GreaterThan
        | TokenKind::LessEqual
        | TokenKind::LessThan => Some(2),
        TokenKind::EqualEqual | TokenKind::BangEqual => Some(3),
        _ => None,
    }
}

/// The token kind that stands for a binary operator.
pub open spec fn binary_kind(op: BinaryOp) -> TokenKind {
    match op {
        BinaryOp::Plus => TokenKind::Plus,
        BinaryOp::Minus => TokenKind::Minus,
        BinaryOp::Star => TokenKind::Star,
        BinaryOp::Slash => TokenKind::Slash,
        BinaryOp::Equal => TokenKind::Equal,
        BinaryOp::GreaterEqual => TokenKind::GreaterEqual,
        BinaryOp::GreaterThan => TokenKind::GreaterThan,
        BinaryOp::EqualEqual => TokenKind::EqualEqual,
        BinaryOp::BangEqual => TokenKind::BangEqual,
        BinaryOp::LessEqual => TokenKind::LessEqual,
        BinaryOp::LessThan => TokenKind::LessThan,
        BinaryOp::And => TokenKind::And,
        BinaryOp::Or => TokenKind::Or,
    }
}

/// The token kind that stands for a unary operator.
pub open spec fn unary_kind(op: UnaryOp) -> TokenKind {
    match op {
        UnaryOp::Bang => TokenKind::Bang,
        UnaryOp::Minus => TokenKind::Minus,
    }
}

/// The text of the tokens that the rendering writes with a fixed text.
pub open spec fn fixed_text(kind: TokenKind) -> Seq<char> {
    match kind {
        TokenKind::LeftParen => seq!['('],
        TokenKind::RightParen => seq![')'],
        TokenKind::Semicolon => seq![';'],
        TokenKind::Minus => seq!['-'],
        TokenKind::Plus => seq!['+'],
        TokenKind::Star => seq!['*'],
        TokenKind::Slash => seq!['/'],
        TokenKind::Bang => seq!['!'],
        TokenKind::Equal => seq!['='],
        TokenKind::LessThan => seq!['<'],
        TokenKind::GreaterThan => seq!['>'],
        TokenKind::BangEqual => seq!['!', '='],
        TokenKind::EqualEqual => seq!['=', '='],
        TokenKind::LessEqual => seq!['<', '='],
        TokenKind::GreaterEqual => seq!['>', '='],
        TokenKind::Print => seq!['p', 'r', 'i', 'n', 't'],
        TokenKind::Var => seq!['v', 'a', 'r'],
        TokenKind::True => seq!['t', 'r', 'u', 'e'],
        TokenKind::False => seq!['f', 'a', 'l', 's', 'e'],
        TokenKind::Null => seq!['n', 'u', 'l', 'l'],
        TokenKind::And => seq!['a', 'n', 'd'],
        TokenKind::Or => seq!['o', 'r'],
        _ => seq![],
    }
}

/// A token of kind `kind` without a literal value.
pub open spec fn plain(kind: TokenKind) -> TokenV {
    TokenV { kind, lexeme: fixed_text(kind), literal: None, line: 1 }
}

/// An identifier token for `name`.
pub open spec fn identifier(name: Seq<char>) -> TokenV {
    TokenV { kind: TokenKind::Identifier, lexeme: name, literal: None, line: 1 }
}

/// The token that stands for a literal.
pub open spec fn literal_token(l: LiteralV) -> TokenV {
    match l {
        LiteralV::Number(_) => TokenV {
            kind: TokenKind::Number,
            lexeme: seq![],
            literal: Some(l),
            line: 1,
        },
        LiteralV::StringLiteral(body) => TokenV {
            kind: TokenKind::StringLiteral,
            lexeme: seq!['"'] + body + seq!['"'],
            literal: Some(l),
            line: 1,
        },
        LiteralV::Null => plain(TokenKind::Null),
        LiteralV::True => plain(TokenKind::True),
        LiteralV::False => plain(TokenKind::False),
    }
}

/// The tokens of an expression, with every operation in parentheses.
pub open spec fn render(e: ExprV) -> Seq<TokenV>
    decreases e,
{
    match e {
        ExprV::Literal(l) => seq![literal_token(l)],
        ExprV::Variable(name) => seq![identifier(name)],
        ExprV::Grouping { exp } => seq![plain(TokenKind::LeftParen)] + render(*exp) + seq![
            plain(TokenKind::RightParen),
        ],
        ExprV::Unary { op, right } => seq![plain(TokenKind::LeftParen), plain(unary_kind(op))]
            + render(*right) + seq![plain(TokenKind::RightParen)],
        ExprV::Binary { left, op, right } => seq![plain(TokenKind::LeftParen)] + render(*left)
            + seq![plain(binary_kind(op))] + render(*right) + seq![plain(TokenKind::RightParen)],
    }
}

/// An expression whose binary operators all belong to a tier of the grammar.
pub open spec fn renderable(e: ExprV) -> bool
    decreases e,
{
    match e {
        ExprV::Binary { left, op, right } => kind_tier(binary_kind(op)) is Some && renderable(
            *left,
        ) && renderable(*right),
        ExprV::Unary { right, .. } => renderable(*right),
        ExprV::Grouping { exp } => renderable(*exp),
        _ => true,
    }
}

/// An expression with its groupings removed.
pub open spec fn strip(e: ExprV) -> ExprV
    decreases e,
{
    match e {
        ExprV::Binary { left, op, right } => ExprV::Binary {
            left: Box::new(strip(*left)),
            op,
            right: Box::new(strip(*right)),
        },
        ExprV::Unary { op, right } => ExprV::Unary { op, right: Box::new(strip(*right)) },
        ExprV::Grouping { exp } => strip(*exp),
        _ => e,
    }
}

/// The tokens of a statement.
pub open spec fn render_stmt(s: StmtV) -> Seq<TokenV> {
    match s {
        StmtV::Expression(e) => render(e) + seq![plain(TokenKind::Semicolon)],
        StmtV::Print(e) => seq![plain(TokenKind::Print)] + render(e) + seq![
            plain(TokenKind::Semicolon),
        ],
        StmtV::Var { name, initializer } => match initializer {
            None => seq![plain(TokenKind::Var), identifier(name), plain(TokenKind::Semicolon)],
            Some(e) => seq![plain(TokenKind::Var), identifier(name), plain(TokenKind::Equal)]
                + render(e) + seq![plain(TokenKind::Semicolon)],
        },
    }
}

/// A statement whose expression, if any, is renderable.
pub open spec fn stmt_renderable(s: StmtV) -> bool {
    match s {
        StmtV::Expression(e) => renderable(e),
        StmtV::Print(e) => renderable(e),
        StmtV::Var { initializer, .. } => match initializer {
            None => true,
            Some(e) => renderable(e),
        },
    }
}

/// A statement with the groupings of its expression removed.
pub open spec fn strip_stmt(s: StmtV) -> StmtV {
    match s {
        StmtV::Expression(e) => StmtV::Expression(strip(e)),
        StmtV::Print(e) => StmtV::Print(strip(e)),
        StmtV::Var { name, initializer } => StmtV::Var {
            name,
            initializer: match initializer {
                None => None,
                Some(e) => Some(strip(e)),
            },
        },
    }
}

proof fn lemma_tier_kinds(k: TokenKind, t: nat)
    requires
        t <= 3,
    ensures
        tier_kinds(t).contains(k) <==> kind_tier(k) == Some(t),
{
    let s = tier_kinds(t);
    if kind_tier(k) == Some(t) {
        if t == 0 {
            if k == TokenKind::Slash {
                assert(s[0] == k);
            } else {
                assert(s[1] == k);
            }
        } else if t == 1 {
            if k == TokenKind::Minus {
                assert(s[0] == k);
            } else {
                assert(s[1] == k);
            }
        } else if t == 2 {
            if k == TokenKind::GreaterEqual {
                assert(s[0] == k);
            } else if k == TokenKind::GreaterThan {
                assert(s[1] == k);
            } else if k == TokenKind::LessEqual {
                assert(s[2] == k);
            } else {
                assert(s[3] == k);
            }
        } else {
            if k == TokenKind::EqualEqual {
                assert(s[0] == k);
            } else {
                assert(s[1] == k);
            }
        }
    }
    if s.contains(k) {
        let i = choose|i: int| 0 <= i < s.len() && s[i] == k;
        if t == 2 {
            assert(i == 0 || i == 1 || i == 2 || i == 3);
        } else {
            assert(i == 0 || i == 1);
        }
    }
}

/// An operand read at the unary level is the whole tier `t` where no operator of a tier up
/// to `t` follows it.
proof fn lemma_tier_passes(ts: Seq<TokenV>, t: nat, p: int, x: ExprV, q: int)
    requires
        0 <= p < q < ts.len(),
        t <= 3,
        parse_unary(ts, p) == (Ok::<ExprV, crate::error::ParseErrorV>(x), q),
        kind_tier(ts[q].kind) is None || kind_tier(ts[q].kind)->0 > t,
    ensures
        parse_binary(ts, t, p) == (Ok::<ExprV, crate::error::ParseErrorV>(x), q),
    decreases t,
{
    if t > 0 {
        lemma_tier_passes(ts, (t - 1) as nat, p, x, q);
    }
    lemma_tier_kinds(ts[q].kind, t);
    assert(!matches_any(ts, q, tier_kinds(t)));
    assert(parse_operand(ts, t, p) == (Ok::<ExprV, crate::error::ParseErrorV>(x), q));
}


/// Two operands read at the unary level around an operator of tier `k`, with no operator
/// after them, are the tiers below `k` up to the operator, and one binary expression from
/// tier `k` on.
proof fn lemma_tier_folds(
    ts: Seq<TokenV>,
    t: nat,
    a: int,
    x: ExprV,
    b: int,
    op: BinaryOp,
    y: ExprV,
    c: int,
)
    requires
        0 <= a < b < c < ts.len(),
        t <= 3,
        parse_unary(ts, a) == (Ok::<ExprV, crate::error::ParseErrorV>(x), b),
        ts[b].kind == binary_kind(op),
        kind_tier(binary_kind(op)) is Some,
        parse_unary(ts, b + 1) == (Ok::<ExprV, crate::error::ParseErrorV>(y), c),
        b + 1 < c,
        kind_tier(ts[c].kind) is None,
    ensures
        t < kind_tier(binary_kind(op))->0 ==> parse_binary(ts, t, a) == (Ok::<
            ExprV,
            crate::error::ParseErrorV,
        >(x), b),
        t >= kind_tier(binary_kind(op))->0 ==> parse_binary(ts, t, a) == (Ok::<
            ExprV,
            crate::error::ParseErrorV,
        >(ExprV::Binary { left: Box::new(x), op, right: Box::new(y) }), c),
    decreases t,
{
    let k = kind_tier(binary_kind(op))->0;
    let folded = ExprV::Binary { left: Box::new(x), op, right: Box::new(y) };
    if t < k {
        lemma_tier_passes(ts, t, a, x, b);
    } else if t == k {
        if t > 0 {
            lemma_tier_folds(ts, (t - 1) as nat, a, x, b, op, y, c);
            lemma_tier_passes(ts, (t - 1) as nat, b + 1, y, c);
        }
        assert(parse_operand(ts, t, a) == (Ok::<ExprV, crate::error::ParseErrorV>(x), b));
        assert(parse_operand(ts, t, b + 1) == (Ok::<ExprV, crate::error::ParseErrorV>(y), c));
        lemma_tier_kinds(ts[b].kind, t);
        assert(matches_any(ts, b, tier_kinds(t)));
        assert(binary_op_of(ts[b].kind) == Ok::<BinaryOp, crate::error::ParseErrorV>(op));
        lemma_tier_kinds(ts[c].kind, t);
        assert(parse_binary_rest(ts, t, c, folded) == (Ok::<ExprV, crate::error::ParseErrorV>(
            folded,
        ), c));
        assert(parse_binary_rest(ts, t, b, x) == (Ok::<ExprV, crate::error::ParseErrorV>(folded), c));
    } else {
        lemma_tier_folds(ts, (t - 1) as nat, a, x, b, op, y, c);
        assert(parse_operand(ts, t, a) == (Ok::<ExprV, crate::error::ParseErrorV>(folded), c));
        lemma_tier_kinds(ts[c].kind, t);
    }
}

/// Where the tokens from `p` are `whole`, those from `p + off` are the part of `whole` that
/// starts at `off`.
proof fn lemma_tokens_part(
    ts: Seq<TokenV>,
    p: int,
    whole: Seq<TokenV>,
    off: int,
    part: Seq<TokenV>,
)
    requires
        0 <= p,
        p + whole.len() <= ts.len(),
        ts.subrange(p, p + whole.len()) == whole,
        0 <= off,
        off + part.len() <= whole.len(),
        whole.subrange(off, off + part.len()) == part,
    ensures
        ts.subrange(p + off, p + off + part.len()) == part,
{
    assert forall|i: int| 0 <= i < part.len() implies ts.subrange(
        p + off,
        p + off + part.len(),
    )[i] == part[i] by {
        assert(ts.subrange(p, p + whole.len())[off + i] == whole[off + i]);
        assert(whole.subrange(off, off + part.len())[i] == whole[off + i]);
    }
    assert(ts.subrange(p + off, p + off + part.len()) =~= part);
}

/// The rendering of an expression, read at the unary level, gives back the expression up to
/// groupings, and stops right after the rendering.
proof fn lemma_parse_render(ts: Seq<TokenV>, p: int, e: ExprV)
    requires
        0 <= p,
        p + render(e).len() < ts.len(),
        ts.subrange(p, p + render(e).len()) == render(e),
        renderable(e),
    ensures
        parse_unary(ts, p).0 is Ok,
        parse_unary(ts, p).1 == p + render(e).len(),
        strip(parse_unary(ts, p).0->Ok_0) == strip(e),
    decreases e,
{
    let n = render(e).len() as int;
    let whole = render(e);
    assert forall|i: int| 0 <= i < n implies ts[p + i] == whole[i] by {
        assert(ts.subrange(p, p + n)[i] == ts[p + i]);
    }
    assert(ts[p] == whole[0]);
    assert(!matches_any(ts, p, seq![TokenKind::Bang, TokenKind::Minus])) by {
        let k = ts[p].kind;
        if seq![TokenKind::Bang, TokenKind::Minus].contains(k) {
            let i = choose|i: int| 0 <= i < 2 && seq![TokenKind::Bang, TokenKind::Minus][i] == k;
            assert(i == 0 || i == 1);
        }
    }
    assert(parse_unary(ts, p) == parse_primary(ts, p));
    match e {
        ExprV::Literal(l) => {
            assert(ts[p] == literal_token(l));
            assert(literal_of(ts[p]) == Ok::<LiteralV, crate::error::ParseErrorV>(l));
            assert(advanced(ts, p) == p + 1);
            assert(parse_primary(ts, p) == (Ok::<ExprV, crate::error::ParseErrorV>(e), p + 1));
        },
        ExprV::Variable(name) => {
            assert(ts[p] == identifier(name));
            assert(parse_primary(ts, p) == (Ok::<ExprV, crate::error::ParseErrorV>(e), p + 1));
        },
        ExprV::Grouping { exp } => {
            let inner = render(*exp);
            let m = inner.len() as int;
            assert(whole.subrange(1, 1 + m) =~= inner);
            lemma_tokens_part(ts, p, whole, 1, inner);
            lemma_parse_render(ts, p + 1, *exp);
            let (r, q) = parse_unary(ts, p + 1);
            assert(q == p + 1 + m);
            assert(ts[q] == whole[1 + m]);
            lemma_tier_passes(ts, 3, p + 1, r->Ok_0, q);
            assert(parse_expression(ts, p + 1) == parse_binary(ts, 3, p + 1));
            let g = ExprV::Grouping { exp: Box::new(r->Ok_0) };
            assert(ts[p + n - 1] == whole[n - 1]);
            assert(parse_primary(ts, p) == (Ok::<ExprV, crate::error::ParseErrorV>(g), q + 1));
            assert(strip(g) == strip(r->Ok_0));
        },
        ExprV::Unary { op, right } => {
            let inner = render(*right);
            let m = inner.len() as int;
            assert(whole.subrange(2, 2 + m) =~= inner);
            lemma_tokens_part(ts, p, whole, 2, inner);
            lemma_parse_render(ts, p + 2, *right);
            let (r, q) = parse_unary(ts, p + 2);
            assert(q == p + 2 + m);
            assert(ts[p + 1] == whole[1]);
            assert(matches_any(ts, p + 1, seq![TokenKind::Bang, TokenKind::Minus])) by {
                if op == UnaryOp::Bang {
                    assert(seq![TokenKind::Bang, TokenKind::Minus][0] == TokenKind::Bang);
                } else {
                    assert(seq![TokenKind::Bang, TokenKind::Minus][1] == TokenKind::Minus);
                }
            }
            assert(unary_op_of(ts[p + 1].kind) == Ok::<UnaryOp, crate::error::ParseErrorV>(op));
            let u = ExprV::Unary { op, right: Box::new(r->Ok_0) };
            assert(parse_unary(ts, p + 1) == (Ok::<ExprV, crate::error::ParseErrorV>(u), q));
            assert(ts[q] == whole[2 + m]);
            lemma_tier_passes(ts, 3, p + 1, u, q);
            assert(parse_expression(ts, p + 1) == parse_binary(ts, 3, p + 1));
            let g = ExprV::Grouping { exp: Box::new(u) };
            assert(ts[p + n - 1] == whole[n - 1]);
            assert(parse_primary(ts, p) == (Ok::<ExprV, crate::error::ParseErrorV>(g), q + 1));
            assert(strip(g) == strip(u));
        },
        ExprV::Binary { left, op, right } => {
            let l = render(*left);
            let r = render(*right);
            let nl = l.len() as int;
            let nr = r.len() as int;
            assert(whole.subrange(1, 1 + nl) =~= l);
            assert(whole.subrange(2 + nl, 2 + nl + nr) =~= r);
            lemma_tokens_part(ts, p, whole, 1, l);
            lemma_tokens_part(ts, p, whole, 2 + nl, r);
            lemma_parse_render(ts, p + 1, *left);
            lemma_parse_render(ts, p + 2 + nl, *right);
            let (lr, b) = parse_unary(ts, p + 1);
            let (rr, c) = parse_unary(ts, p + 2 + nl);
            assert(nr >= 1) by {
                reveal_with_fuel(render, 1);
            }
            assert(ts[b] == whole[1 + nl]);
            assert(ts[c] == whole[2 + nl + nr]);
            lemma_tier_folds(ts, 3, p + 1, lr->Ok_0, b, op, rr->Ok_0, c);
            assert(parse_expression(ts, p + 1) == parse_binary(ts, 3, p + 1));
            let f = ExprV::Binary { left: Box::new(lr->Ok_0), op, right: Box::new(rr->Ok_0) };
            let g = ExprV::Grouping { exp: Box::new(f) };
            assert(ts[p + n - 1] == whole[n - 1]);
            assert(parse_primary(ts, p) == (Ok::<ExprV, crate::error::ParseErrorV>(g), c + 1));
            assert(strip(g) == strip(f));
        },
    }
}


/// The rendering of an expression at `p`, followed by a semicolon, is read as that
/// expression up to groupings, and reading stops at the semicolon.
proof fn lemma_expression_render(ts: Seq<TokenV>, p: int, e: ExprV)
    requires
        0 <= p,
        p + render(e).len() < ts.len(),
        ts.subrange(p, p + render(e).len()) == render(e),
        ts[p + render(e).len()].kind == TokenKind::Semicolon,
        renderable(e),
    ensures
        parse_expression(ts, p).0 is Ok,
        parse_expression(ts, p).1 == p + render(e).len(),
        strip(parse_expression(ts, p).0->Ok_0) == strip(e),
{
    lemma_parse_render(ts, p, e);
    let (r, q) = parse_unary(ts, p);
    assert(q > p) by {
        reveal_with_fuel(render, 1);
    }
    lemma_tier_passes(ts, 3, p, r->Ok_0, q);
}

/// The tokens of `s`, then the terminal token.
pub open spec fn rendered_program(s: StmtV) -> Seq<TokenV> {
    render_stmt(s).push(eof_token(1))
}

/// Facts on the tokens of a rendered statement: they end in the terminal token and, before
/// it, are the rendering.
proof fn lemma_rendered_program(s: StmtV)
    ensures
        well_formed_tokens(rendered_program(s)),
        rendered_program(s).subrange(0, render_stmt(s).len() as int) == render_stmt(s),
        rendered_program(s)[render_stmt(s).len() as int] == eof_token(1),
        forall|i: int|
            0 <= i < render_stmt(s).len() ==> rendered_program(s)[i] == render_stmt(s)[i],
{
    let body = render_stmt(s);
    let ts = rendered_program(s);
    assert(ts.subrange(0, body.len() as int) =~= body);
}

/// The declaration read at the start of a rendered expression statement, or print statement
/// where `print`.
proof fn lemma_declaration_terminated(s: StmtV, e: ExprV, print: bool)
    requires
        renderable(e),
        s == (if print {
            StmtV::Print(e)
        } else {
            StmtV::Expression(e)
        }),
    ensures
        parse_declaration(rendered_program(s), 0).0 is Ok,
        parse_declaration(rendered_program(s), 0).1 == render_stmt(s).len(),
        strip_stmt(parse_declaration(rendered_program(s), 0).0->Ok_0) == strip_stmt(s),
{
    lemma_rendered_program(s);
    let body = render_stmt(s);
    let ts = rendered_program(s);
    let m = render(e).len() as int;
    let off: int = if print {
        1
    } else {
        0
    };
    assert(body.subrange(off, off + m) =~= render(e));
    lemma_tokens_part(ts, 0, body, off, render(e));
    assert(ts[off + m] == body[off + m]);
    lemma_expression_render(ts, off, e);
    if print {
        assert(parse_declaration(ts, 0) == parse_terminated(ts, 1, true));
    } else {
        assert(ts[0] == render(e)[0]);
        assert(!check(ts, 0, TokenKind::Var)) by {
            reveal_with_fuel(render, 1);
        }
        assert(!check(ts, 0, TokenKind::Print)) by {
            reveal_with_fuel(render, 1);
        }
        assert(parse_declaration(ts, 0) == parse_terminated(ts, 0, false));
    }
}

/// The declaration read at the start of a rendered variable declaration.
proof fn lemma_declaration_var(s: StmtV, name: Seq<char>, initializer: Option<ExprV>)
    requires
        s == (StmtV::Var { name, initializer }),
        stmt_renderable(s),
    ensures
        parse_declaration(rendered_program(s), 0).0 is Ok,
        parse_declaration(rendered_program(s), 0).1 == render_stmt(s).len(),
        strip_stmt(parse_declaration(rendered_program(s), 0).0->Ok_0) == strip_stmt(s),
{
    lemma_rendered_program(s);
    let body = render_stmt(s);
    let ts = rendered_program(s);
    match initializer {
        None => {
            assert(parse_var_declaration(ts, 1) == finish_var(ts, 2, name, None));
        },
        Some(e) => {
            let m = render(e).len() as int;
            assert(body.subrange(3, 3 + m) =~= render(e));
            lemma_tokens_part(ts, 0, body, 3, render(e));
            assert(ts[3 + m] == body[3 + m]);
            lemma_expression_render(ts, 3, e);
        },
    }
}

/// Parsing the tokens of a statement, then the terminal token, gives back that statement
/// alone, up to groupings; the one condition is that every binary operator in it belongs to
/// a tier of the grammar.
pub proof fn lemma_round_trip(s: StmtV)
    requires
        stmt_renderable(s),
    ensures
        ({
            let r = parse(rendered_program(s));
            &&& r is Ok
            &&& r->Ok_0.len() == 1
            &&& strip_stmt(r->Ok_0[0]) == strip_stmt(s)
        }),
{
    lemma_rendered_program(s);
    let ts = rendered_program(s);
    let n = render_stmt(s).len() as int;
    match s {
        StmtV::Expression(e) => lemma_declaration_terminated(s, e, false),
        StmtV::Print(e) => lemma_declaration_terminated(s, e, true),
        StmtV::Var { name, initializer } => lemma_declaration_var(s, name, initializer),
    }
    let (r, q) = parse_declaration(ts, 0);
    assert(!at_end(ts, 0)) by {
        reveal_with_fuel(render, 1);
    }
    assert(parse_program(ts, n, seq![r->Ok_0], seq![]) == (seq![r->Ok_0], Seq::<
        crate::error::ParseErrorV,
    >::empty()));
    assert(seq![].push(r->Ok_0) =~= seq![r->Ok_0]);
}


/// The text of a token sequence: the text of each token, followed by a space.
pub open spec fn text_of(ts: Seq<TokenV>) -> Seq<char>
    decreases ts.len(),
{
    if ts.len() == 0 {
        seq![]
    } else {
        ts[0].lexeme + seq![' '] + text_of(ts.drop_first())
    }
}

/// A name that scans as an identifier: a letter or an underscore, then letters, digits and
/// underscores, and no keyword.
pub open spec fn is_identifier_name(name: Seq<char>) -> bool {
    &&& name.len() > 0
    &&& alpha(name[0])
    &&& forall|i: int| 0 <= i < name.len() ==> alphanumeric(#[trigger] name[i])
    &&& keyword_kind(name) == TokenKind::Identifier
}

/// A string body that scans back as itself on one line: no quote, backslash or newline.
pub open spec fn is_plain_string(body: Seq<char>) -> bool {
    forall|i: int|
        0 <= i < body.len() ==> #[trigger] body[i] != '"' && body[i] != '\\' && body[i] != '\n'
}

/// A rendered token that scanning reads back from its text.
pub open spec fn scans_back(t: TokenV) -> bool {
    if t.kind == TokenKind::Identifier {
        t == identifier(t.lexeme) && is_identifier_name(t.lexeme)
    } else if t.kind == TokenKind::StringLiteral {
        &&& t.literal matches Some(LiteralV::StringLiteral(body))
        &&& t == literal_token(t.literal->0)
        &&& is_plain_string(t.literal->0->StringLiteral_0)
    } else {
        t == plain(t.kind) && fixed_text(t.kind).len() > 0
    }
}

/// Whether every token of `ts` scans back from its text.
pub open spec fn all_scan_back(ts: Seq<TokenV>) -> bool
    decreases ts.len(),
{
    ts.len() == 0 || (scans_back(ts[0]) && all_scan_back(ts.drop_first()))
}

/// An expression that renders to a text which scans back to its tokens: no number literal
/// (a double has no text here), plain strings, and names that are identifiers.
pub open spec fn text_renderable(e: ExprV) -> bool
    decreases e,
{
    match e {
        ExprV::Binary { left, op, right } => kind_tier(binary_kind(op)) is Some
            && text_renderable(*left) && text_renderable(*right),
        ExprV::Unary { right, .. } => text_renderable(*right),
        ExprV::Grouping { exp } => text_renderable(*exp),
        ExprV::Literal(l) => match l {
            LiteralV::Number(_) => false,
            LiteralV::StringLiteral(body) => is_plain_string(body),
            _ => true,
        },
        ExprV::Variable(name) => is_identifier_name(name),
    }
}

/// A statement that renders to a text which scans back to its tokens.
pub open spec fn stmt_text_renderable(s: StmtV) -> bool {
    match s {
        StmtV::Expression(e) => text_renderable(e),
        StmtV::Print(e) => text_renderable(e),
        StmtV::Var { name, initializer } => is_identifier_name(name) && match initializer {
            None => true,
            Some(e) => text_renderable(e),
        },
    }
}

proof fn lemma_all_scan_back_concat(a: Seq<TokenV>, b: Seq<TokenV>)
    requires
        all_scan_back(a),
        all_scan_back(b),
    ensures
        all_scan_back(a + b),
    decreases a.len(),
{
    if a.len() > 0 {
        lemma_all_scan_back_concat(a.drop_first(), b);
        assert((a + b).drop_first() =~= a.drop_first() + b);
    }
}

proof fn lemma_all_scan_back_one(t: TokenV)
    requires
        scans_back(t),
    ensures
        all_scan_back(seq![t]),
{
    assert(seq![t].drop_first() =~= Seq::<TokenV>::empty());
    assert(all_scan_back(Seq::<TokenV>::empty()));
}

proof fn lemma_text_renderable(e: ExprV)
    requires
        text_renderable(e),
    ensures
        renderable(e),
        all_scan_back(render(e)),
    decreases e,
{
    let lp = plain(TokenKind::LeftParen);
    let rp = plain(TokenKind::RightParen);
    lemma_all_scan_back_one(lp);
    lemma_all_scan_back_one(rp);
    match e {
        ExprV::Literal(l) => {
            lemma_all_scan_back_one(literal_token(l));
        },
        ExprV::Variable(name) => {
            lemma_all_scan_back_one(identifier(name));
        },
        ExprV::Grouping { exp } => {
            lemma_text_renderable(*exp);
            lemma_all_scan_back_concat(seq![lp], render(*exp));
            lemma_all_scan_back_concat(seq![lp] + render(*exp), seq![rp]);
        },
        ExprV::Unary { op, right } => {
            lemma_text_renderable(*right);
            let u = plain(unary_kind(op));
            lemma_all_scan_back_one(u);
            lemma_all_scan_back_concat(seq![lp], seq![u]);
            assert(seq![lp] + seq![u] =~= seq![lp, u]);
            lemma_all_scan_back_concat(seq![lp, u], render(*right));
            lemma_all_scan_back_concat(seq![lp, u] + render(*right), seq![rp]);
        },
        ExprV::Binary { left, op, right } => {
            lemma_text_renderable(*left);
            lemma_text_renderable(*right);
            let o = plain(binary_kind(op));
            lemma_all_scan_back_one(o);
            lemma_all_scan_back_concat(seq![lp], render(*left));
            lemma_all_scan_back_concat(seq![lp] + render(*left), seq![o]);
            lemma_all_scan_back_concat(seq![lp] + render(*left) + seq![o], render(*right));
            lemma_all_scan_back_concat(
                seq![lp] + render(*left) + seq![o] + render(*right),
                seq![rp],
            );
        },
    }
}


proof fn lemma_word_end_run(s: Seq<char>, i: int, j: int)
    requires
        0 <= i <= j < s.len(),
        forall|k: int| i <= k < j ==> alphanumeric(#[trigger] s[k]),
        !alphanumeric(s[j]),
    ensures
        word_end(s, i) == j,
    decreases j - i,
{
    if i < j {
        lemma_word_end_run(s, i + 1, j);
    }
}

proof fn lemma_quote_end_run(s: Seq<char>, i: int, j: int)
    requires
        0 <= i <= j < s.len(),
        forall|k: int| i <= k < j ==> #[trigger] s[k] != '"' && s[k] != '\\',
        s[j] == '"',
    ensures
        quote_end(s, i) == j,
    decreases j - i,
{
    if i < j {
        lemma_quote_end_run(s, i + 1, j);
    }
}

proof fn lemma_no_newlines(b: Seq<char>)
    requires
        forall|k: int| 0 <= k < b.len() ==> #[trigger] b[k] != '\n',
    ensures
        newlines(b) == 0,
    decreases b.len(),
{
    if b.len() > 0 {
        lemma_no_newlines(b.drop_last());
    }
}

/// The keywords that the rendering writes scan back as their own kinds.
proof fn lemma_keyword_text(k: TokenKind)
    requires
        k == TokenKind::Print || k == TokenKind::Var || k == TokenKind::True || k
            == TokenKind::False || k == TokenKind::Null || k == TokenKind::And || k
            == TokenKind::Or,
    ensures
        keyword_kind(fixed_text(k)) == k,
{
    reveal_strlit("and");
    reveal_strlit("class");
    reveal_strlit("else");
    reveal_strlit("false");
    reveal_strlit("for");
    reveal_strlit("fun");
    reveal_strlit("if");
    reveal_strlit("null");
    reveal_strlit("or");
    reveal_strlit("print");
    reveal_strlit("return");
    reveal_strlit("super");
    reveal_strlit("this");
    reveal_strlit("true");
    reveal_strlit("var");
    reveal_strlit("while");
    let w = fixed_text(k);
    if k == TokenKind::Print {
        assert(w =~= "print"@);
    } else if k == TokenKind::Var {
        assert(w =~= "var"@);
    } else if k == TokenKind::True {
        assert(w =~= "true"@);
    } else if k == TokenKind::False {
        assert(w =~= "false"@);
    } else if k == TokenKind::Null {
        assert(w =~= "null"@);
    } else if k == TokenKind::And {
        assert(w =~= "and"@);
    } else {
        assert(w =~= "or"@);
    }
}

/// A word of the rendering, followed by a space, scans back as its token.
proof fn lemma_scan_word(s: Seq<char>, i: int, t: TokenV)
    requires
        0 <= i,
        i + t.lexeme.len() < s.len(),
        s.subrange(i, i + t.lexeme.len()) == t.lexeme,
        s[i + t.lexeme.len()] == ' ',
        t.lexeme.len() > 0,
        alpha(t.lexeme[0]),
        forall|k: int| 0 <= k < t.lexeme.len() ==> alphanumeric(#[trigger] t.lexeme[k]),
        keyword_kind(t.lexeme) == t.kind,
        t.literal is None,
        t.line == 1,
    ensures
        scan_step(s, i, 1) == Ok::<(Option<TokenV>, int, nat), crate::error::LexErrorV>(
            (Some(t), i + t.lexeme.len(), 1nat),
        ),
{
    let w = t.lexeme;
    let n = w.len() as int;
    assert forall|k: int| i <= k < i + n implies alphanumeric(#[trigger] s[k]) by {
        assert(s.subrange(i, i + n)[k - i] == s[k]);
    }
    assert(s[i] == w[0]) by {
        assert(s.subrange(i, i + n)[0] == s[i]);
    }
    lemma_word_end_run(s, i + 1, i + n);
    assert(token_at(keyword_kind(s.subrange(i, i + n)), s, i, i + n, None, 1) =~= t);
}

/// A rendered token, followed by a space, scans back as itself.
proof fn lemma_scan_back(s: Seq<char>, i: int, t: TokenV)
    requires
        scans_back(t),
        0 <= i,
        i + t.lexeme.len() < s.len(),
        s.subrange(i, i + t.lexeme.len()) == t.lexeme,
        s[i + t.lexeme.len()] == ' ',
    ensures
        scan_step(s, i, 1) == Ok::<(Option<TokenV>, int, nat), crate::error::LexErrorV>(
            (Some(t), i + t.lexeme.len(), 1nat),
        ),
{
    let w = t.lexeme;
    let n = w.len() as int;
    assert forall|k: int| 0 <= k < n implies s[i + k] == w[k] by {
        assert(s.subrange(i, i + n)[k] == s[i + k]);
    }
    if t.kind == TokenKind::Identifier {
        lemma_scan_word(s, i, t);
    } else if t.kind == TokenKind::StringLiteral {
        let body = t.literal->0->StringLiteral_0;
        let m = body.len() as int;
        assert(w == seq!['"'] + body + seq!['"']);
        assert(w[0] == '"');
        assert(s[i] == '"');
        assert forall|k: int| i + 1 <= k < i + 1 + m implies #[trigger] s[k] != '"' && s[k]
            != '\\' by {
            assert(s[k] == w[k - i]);
            assert(w[k - i] == body[k - i - 1]);
        }
        assert(s[i + 1 + m] == w[m + 1]);
        lemma_quote_end_run(s, i + 1, i + 1 + m);
        assert(s.subrange(i + 1, i + 1 + m) =~= body) by {
            assert forall|k: int| 0 <= k < m implies s.subrange(i + 1, i + 1 + m)[k]
                == body[k] by {
                assert(s[i + 1 + k] == w[k + 1]);
            }
        }
        lemma_no_newlines(body);
        assert(token_at(
            TokenKind::StringLiteral,
            s,
            i,
            i + m + 2,
            Some(LiteralV::StringLiteral(body)),
            1,
        ) =~= t);
    } else if t.kind == TokenKind::Print || t.kind == TokenKind::Var || t.kind == TokenKind::True
        || t.kind == TokenKind::False || t.kind == TokenKind::Null || t.kind == TokenKind::And
        || t.kind == TokenKind::Or {
        lemma_keyword_text(t.kind);
        lemma_scan_word(s, i, t);
    } else {
        lemma_scan_symbol(s, i, t);
    }
}

/// A rendered operator or punctuation token, followed by a space, scans back as itself.
proof fn lemma_scan_symbol(s: Seq<char>, i: int, t: TokenV)
    requires
        t == plain(t.kind),
        fixed_text(t.kind).len() > 0,
        !(t.kind == TokenKind::Print || t.kind == TokenKind::Var || t.kind == TokenKind::True
            || t.kind == TokenKind::False || t.kind == TokenKind::Null || t.kind == TokenKind::And
            || t.kind == TokenKind::Or),
        0 <= i,
        i + t.lexeme.len() < s.len(),
        forall|k: int| 0 <= k < t.lexeme.len() ==> s[i + k] == t.lexeme[k],
        s[i + t.lexeme.len()] == ' ',
    ensures
        scan_step(s, i, 1) == Ok::<(Option<TokenV>, int, nat), crate::error::LexErrorV>(
            (Some(t), i + t.lexeme.len(), 1nat),
        ),
{
    let n = t.lexeme.len() as int;
    assert(s[i] == t.lexeme[0]);
    if n == 2 {
        assert(s[i + 1] == t.lexeme[1]);
    }
    assert(s.subrange(i, i + n) =~= t.lexeme);
    match t.kind {
        TokenKind::LeftParen => {},
        TokenKind::RightParen => {},
        TokenKind::Semicolon => {},
        TokenKind::Minus => {},
        TokenKind::Plus => {},
        TokenKind::Star => {},
        TokenKind::Slash => {},
        TokenKind::Bang => {},
        TokenKind::Equal => {},
        TokenKind::LessThan => {},
        TokenKind::GreaterThan => {},
        TokenKind::BangEqual => {},
        TokenKind::EqualEqual => {},
        TokenKind::LessEqual => {},
        TokenKind::GreaterEqual => {},
        _ => {},
    }
}


/// Scanning the text of rendered tokens from `i` reads those tokens back, then the terminal
/// token.
proof fn lemma_scan_text(s: Seq<char>, i: int, ts: Seq<TokenV>, acc: Seq<TokenV>)
    requires
        0 <= i <= s.len(),
        s.subrange(i, s.len() as int) == text_of(ts),
        all_scan_back(ts),
    ensures
        scan(s, i, 1, acc) == Ok::<Seq<TokenV>, crate::error::LexErrorV>(
            (acc + ts).push(eof_token(1)),
        ),
    decreases ts.len(),
{
    if ts.len() == 0 {
        assert(acc + ts =~= acc);
        assert(s.subrange(i, s.len() as int).len() == 0);
        assert(i == s.len());
    } else {
        let t = ts[0];
        let rest = ts.drop_first();
        let w = t.lexeme;
        let n = w.len() as int;
        let tail = s.subrange(i, s.len() as int);
        assert(tail == w + seq![' '] + text_of(rest));
        assert(tail.len() == n + 1 + text_of(rest).len());
        assert(n > 0);
        assert forall|k: int| 0 <= k < n implies s[i + k] == w[k] by {
            assert(tail[k] == s[i + k]);
        }
        assert(s.subrange(i, i + n) =~= w);
        assert(s[i + n] == ' ') by {
            assert(tail[n] == s[i + n]);
        }
        lemma_scan_back(s, i, t);
        assert(acc + option_seq(Some(t)) =~= acc.push(t));
        assert(scan_step(s, i + n, 1) == Ok::<(Option<TokenV>, int, nat), crate::error::LexErrorV>(
            (None, i + n + 1, 1nat),
        ));
        assert(acc.push(t) + option_seq(None) =~= acc.push(t));
        assert(s.subrange(i + n + 1, s.len() as int) =~= text_of(rest)) by {
            assert forall|k: int| 0 <= k < text_of(rest).len() implies s.subrange(
                i + n + 1,
                s.len() as int,
            )[k] == text_of(rest)[k] by {
                assert(tail[n + 1 + k] == s[i + n + 1 + k]);
            }
        }
        lemma_scan_text(s, i + n + 1, rest, acc.push(t));
        assert(acc.push(t) + rest =~= acc + ts);
        assert(scan(s, i + n, 1, acc.push(t)) == scan(s, i + n + 1, 1, acc.push(t)));
        assert(scan(s, i, 1, acc) == scan(s, i + n, 1, acc.push(t)));
    }
}

/// Writing a statement as text, scanning that text and parsing the tokens gives back the
/// statement alone, up to groupings. The statement holds no number literal (a double has no
/// text here), its strings are plain, its names are identifiers, and its binary operators
/// belong to tiers of the grammar.
pub proof fn lemma_text_round_trip(s: StmtV)
    requires
        stmt_text_renderable(s),
    ensures
        lex(text_of(render_stmt(s))) == Ok::<Seq<TokenV>, crate::error::LexErrorV>(
            rendered_program(s),
        ),
        ({
            let r = parse(rendered_program(s));
            &&& r is Ok
            &&& r->Ok_0.len() == 1
            &&& strip_stmt(r->Ok_0[0]) == strip_stmt(s)
        }),
{
    let body = render_stmt(s);
    let var = plain(TokenKind::Var);
    let semi = plain(TokenKind::Semicolon);
    lemma_all_scan_back_one(semi);
    match s {
        StmtV::Expression(e) => {
            lemma_text_renderable(e);
            lemma_all_scan_back_concat(render(e), seq![semi]);
        },
        StmtV::Print(e) => {
            lemma_text_renderable(e);
            let p = plain(TokenKind::Print);
            lemma_all_scan_back_one(p);
            lemma_all_scan_back_concat(seq![p], render(e));
            lemma_all_scan_back_concat(seq![p] + render(e), seq![semi]);
        },
        StmtV::Var { name, initializer } => {
            let id = identifier(name);
            lemma_all_scan_back_one(var);
            lemma_all_scan_back_one(id);
            match initializer {
                None => {
                    lemma_all_scan_back_concat(seq![var], seq![id]);
                    lemma_all_scan_back_concat(seq![var] + seq![id], seq![semi]);
                    assert(seq![var] + seq![id] + seq![semi] =~= body);
                },
                Some(e) => {
                    lemma_text_renderable(e);
                    let eq = plain(TokenKind::Equal);
                    lemma_all_scan_back_one(eq);
                    lemma_all_scan_back_concat(seq![var], seq![id]);
                    lemma_all_scan_back_concat(seq![var] + seq![id], seq![eq]);
                    assert(seq![var] + seq![id] + seq![eq] =~= seq![var, id, eq]);
                    lemma_all_scan_back_concat(seq![var, id, eq], render(e));
                    lemma_all_scan_back_concat(seq![var, id, eq] + render(e), seq![semi]);
                },
            }
        },
    }
    let text = text_of(body);
    assert(text.subrange(0, text.len() as int) =~= text);
    lemma_scan_text(text, 0, body, seq![]);
    assert(seq![] + body =~= body);
    lemma_round_trip(s);
}

} // verus!
