use vstd::prelude::*;
use crate::ast::{view_stmts, BinaryOp, Expr, ExprV, Stmt, StmtV, UnaryOp};
use crate::error::{view_parse_errors, ParseError, ParseErrorV};
use crate::token::{view_tokens, Literal, LiteralV, Token, TokenKind, TokenV};

verus! {

/// The view of a result.
pub open spec fn viewed<T: View, E: View>(r: Result<T, E>) -> Result<T::V, E::V> {
    match r {
        Ok(v) => Ok(v@),
        Err(e) => Err(e@),
    }
}

/// A token sequence that the parser can walk: it ends in the terminal token.
pub open spec fn well_formed_tokens(ts: Seq<TokenV>) -> bool {
    ts.len() > 0 && ts.last().kind == TokenKind::EOF
}

/// Whether the token at `p` is the terminal one.
pub open spec fn at_end(ts: Seq<TokenV>, p: int) -> bool {
    ts[p].kind == TokenKind::EOF
}

/// Whether the token at `p` is of kind `k` (the terminal token never is).
pub open spec fn check(ts: Seq<TokenV>, p: int, k: TokenKind) -> bool {
    !at_end(ts, p) && ts[p].kind == k
}

/// Whether the token at `p` is of one of the kinds `kinds` (the terminal token never is).
pub open spec fn matches_any(ts: Seq<TokenV>, p: int, kinds: Seq<TokenKind>) -> bool {
    !at_end(ts, p) && kinds.contains(ts[p].kind)
}

/// The position after `p`; the terminal token is never passed.
pub open spec fn advanced(ts: Seq<TokenV>, p: int) -> int {
    if at_end(ts, p) {
        p
    } else {
        p + 1
    }
}

/// The binary operator that a token kind stands for.
pub open spec fn binary_op_of(k: TokenKind) -> Result<BinaryOp, ParseErrorV> {
    match k {
        TokenKind::And => Ok(BinaryOp::And),
        TokenKind::Or => Ok(BinaryOp::Or),
        TokenKind::Plus => Ok(BinaryOp::Plus),
        TokenKind::Minus => Ok(BinaryOp::Minus),
        TokenKind::Star => Ok(BinaryOp::Star),
        TokenKind::Slash => Ok(BinaryOp::Slash),
        TokenKind::GreaterEqual => Ok(BinaryOp::GreaterEqual),
        TokenKind::GreaterThan => Ok(BinaryOp::GreaterThan),
        TokenKind::EqualEqual => Ok(BinaryOp::EqualEqual),
        TokenKind::BangEqual => Ok(BinaryOp::BangEqual),
        TokenKind::LessEqual => Ok(BinaryOp::LessEqual),
        TokenKind::LessThan => Ok(BinaryOp::LessThan),
        TokenKind::Equal => Ok(BinaryOp::Equal),
        _ => Err(ParseErrorV::InvalidConversion("could not convert to binary operator"@)),
    }
}

/// The unary operator that a token kind stands for.
pub open spec fn unary_op_of(k: TokenKind) -> Result<UnaryOp, ParseErrorV> {
    match k {
        TokenKind::Bang => Ok(UnaryOp::Bang),
        TokenKind::Minus => Ok(UnaryOp::Minus),
        _ => Err(ParseErrorV::InvalidConversion("could not convert to unary operator"@)),
    }
}

/// The literal that a token stands for.
pub open spec fn literal_of(t: TokenV) -> Result<LiteralV, ParseErrorV> {
    match t.kind {
        TokenKind::Number | TokenKind::StringLiteral => match t.literal {
            Some(l) => Ok(l),
            None => Err(ParseErrorV::MissingValue { val: t.lexeme, line: t.line }),
        },
        TokenKind::False => Ok(LiteralV::False),
        TokenKind::True => Ok(LiteralV::True),
        TokenKind::Null => Ok(LiteralV::Null),
        _ => Err(ParseErrorV::InvalidConversion("could not convert literal"@)),
    }
}

/// The operators of each binary tier, from the tightest: factor, term, comparison, equality.
pub open spec fn tier_kinds(tier: nat) -> Seq<TokenKind> {
    if tier == 0 {
        seq![TokenKind::Slash, TokenKind::Star]
    } else if tier == 1 {
        seq![TokenKind::Minus, TokenKind::Plus]
    } else if tier == 2 {
        seq![
            TokenKind::GreaterEqual,
            TokenKind::GreaterThan,
            TokenKind::LessEqual,
            TokenKind::LessThan,
        ]
    } else {
        seq![TokenKind::EqualEqual, TokenKind::BangEqual]
    }
}

/// The tier of `expression`: equality, the loosest.
pub open spec fn top_tier() -> nat {
    3
}

/// The result where the cursor would leave the tokens. Parsing never gets there (the
/// parser's own contracts keep the cursor in place), but the guards that lead here make each
/// recursion visibly shorter.
pub open spec fn out_of_bounds<T>(p: int) -> (Result<T, ParseErrorV>, int) {
    (Err(ParseErrorV::IndexOutOfBounds), p)
}

/// `primary := NUMBER | STRING | "true" | "false" | "null" | IDENTIFIER | "(" expression ")"`:
/// what is read from `p`, and where reading stopped.
pub open spec fn parse_primary(ts: Seq<TokenV>, p: int) -> (Result<ExprV, ParseErrorV>, int)
    decreases ts.len() - p, 0nat,
{
    if !(0 <= p < ts.len()) {
        out_of_bounds(p)
    } else if check(ts, p, TokenKind::LeftParen) {
        let (r, q) = parse_expression(ts, p + 1);
        if !(p + 1 <= q < ts.len()) {
            out_of_bounds(q)
        } else {
            match r {
                Err(e) => (Err(e), q),
                Ok(e) => if check(ts, q, TokenKind::RightParen) {
                    (Ok(ExprV::Grouping { exp: Box::new(e) }), q + 1)
                } else {
                    (Err(ParseErrorV::InvalidGrouping("Expect ')' after expression"@)), q)
                },
            }
        }
    } else if check(ts, p, TokenKind::Identifier) {
        (Ok(ExprV::Variable(ts[p].lexeme)), p + 1)
    } else {
        match literal_of(ts[p]) {
            Ok(l) => (Ok(ExprV::Literal(l)), advanced(ts, p)),
            Err(e) => (Err(e), p),
        }
    }
}

/// `unary := ("!" | "-") unary | primary`.
pub open spec fn parse_unary(ts: Seq<TokenV>, p: int) -> (Result<ExprV, ParseErrorV>, int)
    decreases ts.len() - p, 1nat,
{
    if !(0 <= p < ts.len()) {
        out_of_bounds(p)
    } else if matches_any(ts, p, seq![TokenKind::Bang, TokenKind::Minus]) {
        match unary_op_of(ts[p].kind) {
            Err(e) => (Err(e), p + 1),
            Ok(op) => {
                let (r, q) = parse_unary(ts, p + 1);
                if !(p + 1 <= q < ts.len()) {
                    out_of_bounds(q)
                } else {
                    match r {
                        Err(e) => (Err(e), q),
                        Ok(e) => (Ok(ExprV::Unary { op, right: Box::new(e) }), q),
                    }
                }
            },
        }
    } else {
        parse_primary(ts, p)
    }
}

/// An operand of tier `tier`: a unary expression below the factor tier, else an expression
/// of the tier below.
pub open spec fn parse_operand(ts: Seq<TokenV>, tier: nat, p: int) -> (
    Result<ExprV, ParseErrorV>,
    int,
)
    decreases ts.len() - p, 3 * tier + 2,
{
    if tier == 0 {
        parse_unary(ts, p)
    } else {
        parse_binary(ts, (tier - 1) as nat, p)
    }
}

/// `tier := operand (op operand)*`, folded to the left.
pub open spec fn parse_binary(ts: Seq<TokenV>, tier: nat, p: int) -> (
    Result<ExprV, ParseErrorV>,
    int,
)
    decreases ts.len() - p, 3 * tier + 4,
{
    if !(0 <= p < ts.len()) {
        out_of_bounds(p)
    } else {
        let (r, q) = parse_operand(ts, tier, p);
        if !(p <= q < ts.len()) {
            out_of_bounds(q)
        } else {
            match r {
                Err(e) => (Err(e), q),
                Ok(e) => parse_binary_rest(ts, tier, q, e),
            }
        }
    }
}

/// The rest of a tier from `p`, after the operands folded into `acc`.
pub open spec fn parse_binary_rest(ts: Seq<TokenV>, tier: nat, p: int, acc: ExprV) -> (
    Result<ExprV, ParseErrorV>,
    int,
)
    decreases ts.len() - p, 3 * tier + 3,
{
    if !(0 <= p < ts.len()) {
        out_of_bounds(p)
    } else if matches_any(ts, p, tier_kinds(tier)) {
        match binary_op_of(ts[p].kind) {
            Err(e) => (Err(e), p + 1),
            Ok(op) => {
                let (r, q) = parse_operand(ts, tier, p + 1);
                if !(p + 1 <= q < ts.len()) {
                    out_of_bounds(q)
                } else {
                    match r {
                        Err(e) => (Err(e), q),
                        Ok(right) => parse_binary_rest(
                            ts,
                            tier,
                            q,
                            ExprV::Binary { left: Box::new(acc), op, right: Box::new(right) },
                        ),
                    }
                }
            },
        }
    } else {
        (Ok(acc), p)
    }
}

/// `expression := equality`.
pub open spec fn parse_expression(ts: Seq<TokenV>, p: int) -> (Result<ExprV, ParseErrorV>, int)
    decreases ts.len() - p, 3 * top_tier() + 5,
{
    parse_binary(ts, top_tier(), p)
}

/// A print statement (where `print`) or an expression statement: an expression read from
/// `p`, then a semicolon.
pub open spec fn parse_terminated(ts: Seq<TokenV>, p: int, print: bool) -> (
    Result<StmtV, ParseErrorV>,
    int,
) {
    let (r, q) = parse_expression(ts, p);
    match r {
        Err(e) => (Err(e), q),
        Ok(e) => if check(ts, q, TokenKind::Semicolon) {
            (Ok(if print { StmtV::Print(e) } else { StmtV::Expression(e) }), q + 1)
        } else {
            (Err(ParseErrorV::InvalidGrouping("Expect ; after statement"@)), q)
        },
    }
}

/// `statement := "print" expression ";" | expression ";"`.
pub open spec fn parse_statement(ts: Seq<TokenV>, p: int) -> (Result<StmtV, ParseErrorV>, int) {
    if check(ts, p, TokenKind::Print) {
        parse_terminated(ts, p + 1, true)
    } else {
        parse_terminated(ts, p, false)
    }
}

/// The end of a variable declaration at `q`: its semicolon.
pub open spec fn finish_var(
    ts: Seq<TokenV>,
    q: int,
    name: Seq<char>,
    initializer: Option<ExprV>,
) -> (Result<StmtV, ParseErrorV>, int) {
    if check(ts, q, TokenKind::Semicolon) {
        (Ok(StmtV::Var { name, initializer }), q + 1)
    } else {
        (Err(ParseErrorV::InvalidGrouping("Expect ; after declaration"@)), q)
    }
}

/// `varDecl := IDENTIFIER ( "=" expression )? ";"`, after the `var` keyword.
pub open spec fn parse_var_declaration(ts: Seq<TokenV>, p: int) -> (
    Result<StmtV, ParseErrorV>,
    int,
) {
    if check(ts, p, TokenKind::Identifier) {
        let name = ts[p].lexeme;
        if check(ts, p + 1, TokenKind::Equal) {
            let (r, q) = parse_expression(ts, p + 2);
            match r {
                Err(e) => (Err(e), q),
                Ok(e) => finish_var(ts, q, name, Some(e)),
            }
        } else {
            finish_var(ts, p + 1, name, None)
        }
    } else {
        (Err(ParseErrorV::InvalidGrouping("Expect identifier after var declaration"@)), p)
    }
}

/// The kinds that start a declaration or statement, where recovery after an error stops.
pub open spec fn starts_statement(k: TokenKind) -> bool {
    k == TokenKind::Class || k == TokenKind::Fun || k == TokenKind::Var || k == TokenKind::For
        || k == TokenKind::If || k == TokenKind::While || k == TokenKind::Print || k
        == TokenKind::Return
}

/// Recovery from `p`: the first position after a semicolon, at a statement keyword, or at
/// the end.
pub open spec fn sync_from(ts: Seq<TokenV>, p: int) -> int
    decreases ts.len() - p,
{
    if !(1 <= p < ts.len()) || at_end(ts, p) || ts[p - 1].kind == TokenKind::Semicolon
        || starts_statement(ts[p].kind) {
        p
    } else {
        sync_from(ts, p + 1)
    }
}

/// Recovery after an error at `p`: the token there is discarded, then those up to a boundary.
pub open spec fn synchronized(ts: Seq<TokenV>, p: int) -> int {
    sync_from(ts, advanced(ts, p))
}

/// `declaration := "var" varDecl | statement`; after an error the parser recovers.
pub open spec fn parse_declaration(ts: Seq<TokenV>, p: int) -> (
    Result<StmtV, ParseErrorV>,
    int,
) {
    let (r, q) = if check(ts, p, TokenKind::Var) {
        parse_var_declaration(ts, p + 1)
    } else {
        parse_statement(ts, p)
    };
    match r {
        Ok(s) => (Ok(s), q),
        Err(e) => (Err(e), synchronized(ts, q)),
    }
}

/// The declarations from `p` to the end, after the statements `stmts` and errors `errs`.
pub open spec fn parse_program(
    ts: Seq<TokenV>,
    p: int,
    stmts: Seq<StmtV>,
    errs: Seq<ParseErrorV>,
) -> (Seq<StmtV>, Seq<ParseErrorV>)
    decreases ts.len() - p,
{
    if !(0 <= p < ts.len()) || at_end(ts, p) {
        (stmts, errs)
    } else {
        let (r, q) = parse_declaration(ts, p);
        if !(p < q < ts.len()) {
            (stmts, errs.push(ParseErrorV::IndexOutOfBounds))
        } else {
            match r {
                Ok(s) => parse_program(ts, q, stmts.push(s), errs),
                Err(e) => parse_program(ts, q, stmts, errs.push(e)),
            }
        }
    }
}

/// The statements of a token sequence, or every error met on the way.
pub open spec fn parse(ts: Seq<TokenV>) -> Result<Seq<StmtV>, Seq<ParseErrorV>> {
    if !well_formed_tokens(ts) {
        Err(seq![ParseErrorV::IndexOutOfBounds])
    } else {
        let (stmts, errs) = parse_program(ts, 0, seq![], seq![]);
        if errs.len() == 0 {
            Ok(stmts)
        } else {
            Err(errs)
        }
    }
}


/// The binary operator that a token stands for.
pub fn parse_binary_op(token: &Token) -> (r: Result<BinaryOp, ParseError>)
    ensures
        viewed(r) == binary_op_of(token.kind),
{
    match token.kind {
        TokenKind::And => Ok(BinaryOp::And),
        TokenKind::Or => Ok(BinaryOp::Or),
        TokenKind::Plus => Ok(BinaryOp::Plus),
        TokenKind::Minus => Ok(BinaryOp::Minus),
        TokenKind::Star => Ok(BinaryOp::Star),
        TokenKind::Slash => Ok(BinaryOp::Slash),
        TokenKind::GreaterEqual => Ok(BinaryOp::GreaterEqual),
        TokenKind::GreaterThan => Ok(BinaryOp::GreaterThan),
        TokenKind::EqualEqual => Ok(BinaryOp::EqualEqual),
        TokenKind::BangEqual => Ok(BinaryOp::BangEqual),
        TokenKind::LessEqual => Ok(BinaryOp::LessEqual),
        TokenKind::LessThan => Ok(BinaryOp::LessThan),
        TokenKind::Equal => Ok(BinaryOp::Equal),
        _ => Err(ParseError::InvalidConversion("could not convert to binary operator".to_string())),
    }
}

/// The unary operator that a token stands for.
pub fn parse_unary_op(token: &Token) -> (r: Result<UnaryOp, ParseError>)
    ensures
        viewed(r) == unary_op_of(token.kind),
{
    match token.kind {
        TokenKind::Bang => Ok(UnaryOp::Bang),
        TokenKind::Minus => Ok(UnaryOp::Minus),
        _ => Err(ParseError::InvalidConversion("could not convert to unary operator".to_string())),
    }
}

/// The literal that a token stands for; a number or string token must carry its value.
pub fn parse_literal(token: &Token) -> (r: Result<Literal, ParseError>)
    ensures
        viewed(r) == literal_of(token@),
{
    match token.kind {
        TokenKind::Number | TokenKind::StringLiteral => match &token.literal {
            Some(l) => Ok(l.duplicate()),
            None => Err(ParseError::MissingValue { val: token.lexeme.clone(), line: token.line }),
        },
        TokenKind::False => Ok(Literal::False),
        TokenKind::True => Ok(Literal::True),
        TokenKind::Null => Ok(Literal::Null),
        _ => Err(ParseError::InvalidConversion("could not convert literal".to_string())),
    }
}


/// The operators of a binary tier, as `tier_kinds` lists them.
fn tier_operators(tier: u8) -> (r: Vec<TokenKind>)
    ensures
        r@ == tier_kinds(tier as nat),
{
    if tier == 0 {
        vec![TokenKind::Slash, TokenKind::Star]
    } else if tier == 1 {
        vec![TokenKind::Minus, TokenKind::Plus]
    } else if tier == 2 {
        vec![
            TokenKind::GreaterEqual,
            TokenKind::GreaterThan,
            TokenKind::LessEqual,
            TokenKind::LessThan,
        ]
    } else {
        vec![TokenKind::EqualEqual, TokenKind::BangEqual]
    }
}

/// The parser's state: the tokens, and a cursor that only moves forward.
pub struct Parser<'a> {
    tokens: &'a Vec<Token>,
    current: usize,
}

impl<'a> Parser<'a> {
    /// The views of the tokens.
    pub closed spec fn ts(&self) -> Seq<TokenV> {
        view_tokens(self.tokens@)
    }

    /// The cursor.
    pub closed spec fn position(&self) -> int {
        self.current as int
    }

    /// The tokens end in the terminal token and the cursor stands on one of them.
    pub closed spec fn wf(&self) -> bool {
        &&& well_formed_tokens(self.ts())
        &&& self.current < self.tokens.len()
    }

    /// A parser at the first of `tokens`.
    pub fn new(tokens: &'a Vec<Token>) -> (r: Parser<'a>)
        requires
            well_formed_tokens(view_tokens(tokens@)),
        ensures
            r.wf(),
            r.ts() == view_tokens(tokens@),
            r.position() == 0,
    {
        Parser { tokens, current: 0 }
    }

    fn peek(&self) -> (t: &'a Token)
        requires
            self.wf(),
        ensures
            t@ == self.ts()[self.current as int],
    {
        &self.tokens[self.current]
    }

    fn is_at_end(&self) -> (r: bool)
        requires
            self.wf(),
        ensures
            r == at_end(self.ts(), self.current as int),
            !r ==> self.current + 1 < self.tokens.len(),
    {
        self.tokens[self.current].kind == TokenKind::EOF
    }

    fn previous(&self) -> (t: &'a Token)
        requires
            self.wf(),
            self.current >= 1,
        ensures
            t@ == self.ts()[self.current - 1],
    {
        &self.tokens[self.current - 1]
    }

    fn advance(&mut self)
        requires
            old(self).wf(),
        ensures
            final(self).wf(),
            final(self).tokens == old(self).tokens,
            final(self).current == advanced(old(self).ts(), old(self).current as int),
    {
        if !self.is_at_end() {
            self.current = self.current + 1;
        }
    }

    fn check(&self, token_type: TokenKind) -> (r: bool)
        requires
            self.wf(),
        ensures
            r == check(self.ts(), self.current as int, token_type),
    {
        if self.is_at_end() {
            return false;
        }
        self.tokens[self.current].kind == token_type
    }

    /// Moves past the current token where it is of one of the kinds `token_types`.
    fn match_token(&mut self, token_types: Vec<TokenKind>) -> (r: bool)
        requires
            old(self).wf(),
        ensures
            final(self).wf(),
            final(self).tokens == old(self).tokens,
            r == matches_any(old(self).ts(), old(self).current as int, token_types@),
            final(self).current == if r {
                old(self).current + 1
            } else {
                old(self).current as int
            },
    {
        let mut i: usize = 0;
        while i < token_types.len()
            invariant
                self == old(self),
                self.wf(),
                i <= token_types.len(),
                forall|k: int| 0 <= k < i ==> !check(self.ts(), self.current as int, token_types@[k]),
            decreases token_types.len() - i,
        {
            if self.check(token_types[i]) {
                self.advance();
                return true;
            }
            i = i + 1;
        }
        proof {
            if matches_any(self.ts(), self.current as int, token_types@) {
                let k = choose|k: int| 0 <= k < token_types.len() && token_types@[k]
                    == self.ts()[self.current as int].kind;
                assert(check(self.ts(), self.current as int, token_types@[k]));
            }
        }
        false
    }

    /// Discards tokens up to a semicolon, which is consumed, or up to a statement keyword,
    /// which is not.
    fn synchronize(&mut self)
        requires
            old(self).wf(),
        ensures
            final(self).wf(),
            final(self).tokens == old(self).tokens,
            final(self).current == synchronized(old(self).ts(), old(self).current as int),
            final(self).current >= advanced(old(self).ts(), old(self).current as int),
    {
        self.advance();
        while !self.is_at_end()
            invariant
                self.wf(),
                self.tokens == old(self).tokens,
                synchronized(old(self).ts(), old(self).current as int) == sync_from(
                    self.ts(),
                    self.current as int,
                ),
                self.current >= 1 || at_end(self.ts(), self.current as int),
                self.current >= advanced(old(self).ts(), old(self).current as int),
            decreases self.tokens.len() - self.current,
        {
            let kind = self.previous().kind;
            if kind == TokenKind::Semicolon {
                return;
            }
            let next = self.peek().kind;
            if next == TokenKind::Class || next == TokenKind::Fun || next == TokenKind::Var
                || next == TokenKind::For || next == TokenKind::If || next == TokenKind::While
                || next == TokenKind::Print || next == TokenKind::Return {
                return;
            }
            self.advance();
        }
    }

    /// Moves past the current token where it is of kind `token_type`; else fails with
    /// `message`, without moving.
    fn consume(&mut self, token_type: TokenKind, message: &str) -> (r: Result<(), ParseError>)
        requires
            old(self).wf(),
        ensures
            final(self).wf(),
            final(self).tokens == old(self).tokens,
            check(old(self).ts(), old(self).current as int, token_type) ==> r is Ok
                && final(self).current == old(self).current + 1,
            !check(old(self).ts(), old(self).current as int, token_type) ==> r is Err
                && r->Err_0@ == ParseErrorV::InvalidGrouping(message@) && final(self).current
                == old(self).current,
    {
        if self.check(token_type) {
            self.advance();
            return Ok(());
        }
        Err(ParseError::InvalidGrouping(message.to_string()))
    }

    fn primary(&mut self) -> (r: Result<Expr, ParseError>)
        requires
            old(self).wf(),
        ensures
            final(self).wf(),
            final(self).tokens == old(self).tokens,
            old(self).current <= final(self).current,
            (viewed(r), final(self).current as int) == parse_primary(
                old(self).ts(),
                old(self).current as int,
            ),
        decreases old(self).tokens.len() - old(self).current, 0nat,
    {
        if self.check(TokenKind::LeftParen) {
            self.advance();
            let expr = match self.expression() {
                Ok(e) => e,
                Err(err) => return Err(err),
            };
            match self.consume(TokenKind::RightParen, "Expect ')' after expression") {
                Ok(_) => (),
                Err(e) => return Err(e),
            };
            return Ok(Expr::Grouping { exp: Box::new(expr) });
        }
        if self.check(TokenKind::Identifier) {
            self.advance();
            return Ok(Expr::Variable(self.previous().lexeme.clone()));
        }
        match parse_literal(self.peek()) {
            Ok(l) => {
                self.advance();
                Ok(Expr::Literal(l))
            },
            Err(e) => Err(e),
        }
    }

    fn unary(&mut self) -> (r: Result<Expr, ParseError>)
        requires
            old(self).wf(),
        ensures
            final(self).wf(),
            final(self).tokens == old(self).tokens,
            old(self).current <= final(self).current,
            (viewed(r), final(self).current as int) == parse_unary(
                old(self).ts(),
                old(self).current as int,
            ),
        decreases old(self).tokens.len() - old(self).current, 1nat,
    {
        if self.match_token(vec![TokenKind::Bang, TokenKind::Minus]) {
            let operator = match parse_unary_op(self.previous()) {
                Ok(b) => b,
                Err(e) => return Err(e),
            };
            let right = match self.unary() {
                Ok(e) => e,
                Err(err) => return Err(err),
            };
            return Ok(Expr::Unary { op: operator, right: Box::new(right) });
        }
        self.primary()
    }

    /// An operand of the binary tier `tier`.
    fn operand(&mut self, tier: u8) -> (r: Result<Expr, ParseError>)
        requires
            old(self).wf(),
            tier <= 3,
        ensures
            final(self).wf(),
            final(self).tokens == old(self).tokens,
            old(self).current <= final(self).current,
            (viewed(r), final(self).current as int) == parse_operand(
                old(self).ts(),
                tier as nat,
                old(self).current as int,
            ),
        decreases old(self).tokens.len() - old(self).current, 3 * tier + 2,
    {
        if tier == 0 {
            self.unary()
        } else {
            self.binary(tier - 1)
        }
    }

    /// The binary tier `tier`: factor (0), term (1), comparison (2) or equality (3), each
    /// folded to the left.
    fn binary(&mut self, tier: u8) -> (r: Result<Expr, ParseError>)
        requires
            old(self).wf(),
            tier <= 3,
        ensures
            final(self).wf(),
            final(self).tokens == old(self).tokens,
            old(self).current <= final(self).current,
            (viewed(r), final(self).current as int) == parse_binary(
                old(self).ts(),
                tier as nat,
                old(self).current as int,
            ),
        decreases old(self).tokens.len() - old(self).current, 3 * tier + 4,
    {
        let ghost ts = self.ts();
        let ghost start = self.current as int;
        let mut expr = match self.operand(tier) {
            Ok(e) => e,
            Err(err) => return Err(err),
        };
        while self.match_token(tier_operators(tier))
            invariant
                self.wf(),
                self.tokens == old(self).tokens,
                ts == self.ts(),
                start == old(self).current,
                tier <= 3,
                start <= self.current,
                parse_binary_rest(ts, tier as nat, self.current as int, expr@) == parse_binary(
                    ts,
                    tier as nat,
                    start,
                ),
            decreases self.tokens.len() - self.current,
        {
            let operator = match parse_binary_op(self.previous()) {
                Ok(b) => b,
                Err(e) => return Err(e),
            };
            let right = match self.operand(tier) {
                Ok(e) => e,
                Err(err) => return Err(err),
            };
            expr = Expr::Binary { left: Box::new(expr), op: operator, right: Box::new(right) };
        }
        Ok(expr)
    }

    fn expression(&mut self) -> (r: Result<Expr, ParseError>)
        requires
            old(self).wf(),
        ensures
            final(self).wf(),
            final(self).tokens == old(self).tokens,
            old(self).current <= final(self).current,
            (viewed(r), final(self).current as int) == parse_expression(
                old(self).ts(),
                old(self).current as int,
            ),
        decreases old(self).tokens.len() - old(self).current, 3 * top_tier() + 5,
    {
        self.binary(3)
    }

    fn expression_statement(&mut self) -> (r: Result<Stmt, ParseError>)
        requires
            old(self).wf(),
        ensures
            final(self).wf(),
            final(self).tokens == old(self).tokens,
            old(self).current <= final(self).current,
            r is Ok ==> old(self).current < final(self).current,
            (viewed(r), final(self).current as int) == parse_terminated(
                old(self).ts(),
                old(self).current as int,
                false,
            ),
    {
        let expr = match self.expression() {
            Ok(e) => e,
            Err(err) => return Err(err),
        };
        match self.consume(TokenKind::Semicolon, "Expect ; after statement") {
            Ok(_) => (),
            Err(e) => return Err(e),
        };
        Ok(Stmt::Expression(expr))
    }

    fn print_statement(&mut self) -> (r: Result<Stmt, ParseError>)
        requires
            old(self).wf(),
        ensures
            final(self).wf(),
            final(self).tokens == old(self).tokens,
            old(self).current <= final(self).current,
            r is Ok ==> old(self).current < final(self).current,
            (viewed(r), final(self).current as int) == parse_terminated(
                old(self).ts(),
                old(self).current as int,
                true,
            ),
    {
        let expr = match self.expression() {
            Ok(e) => e,
            Err(err) => return Err(err),
        };
        match self.consume(TokenKind::Semicolon, "Expect ; after statement") {
            Ok(_) => (),
            Err(e) => return Err(e),
        };
        Ok(Stmt::Print(expr))
    }

    fn statement(&mut self) -> (r: Result<Stmt, ParseError>)
        requires
            old(self).wf(),
        ensures
            final(self).wf(),
            final(self).tokens == old(self).tokens,
            old(self).current <= final(self).current,
            r is Ok ==> old(self).current < final(self).current,
            (viewed(r), final(self).current as int) == parse_statement(
                old(self).ts(),
                old(self).current as int,
            ),
    {
        if self.check(TokenKind::Print) {
            self.advance();
            return self.print_statement();
        }
        self.expression_statement()
    }

    fn var_declaration(&mut self) -> (r: Result<Stmt, ParseError>)
        requires
            old(self).wf(),
        ensures
            final(self).wf(),
            final(self).tokens == old(self).tokens,
            old(self).current <= final(self).current,
            r is Ok ==> old(self).current < final(self).current,
            (viewed(r), final(self).current as int) == parse_var_declaration(
                old(self).ts(),
                old(self).current as int,
            ),
    {
        match self.consume(TokenKind::Identifier, "Expect identifier after var declaration") {
            Ok(_) => (),
            Err(e) => return Err(e),
        };
        let name = self.previous().lexeme.clone();
        let mut initializer: Option<Expr> = None;
        if self.check(TokenKind::Equal) {
            self.advance();
            initializer = match self.expression() {
                Ok(e) => Some(e),
                Err(err) => return Err(err),
            };
        }
        match self.consume(TokenKind::Semicolon, "Expect ; after declaration") {
            Ok(_) => (),
            Err(e) => return Err(e),
        };
        Ok(Stmt::Var { name, initializer })
    }

    /// One declaration or statement. After an error the cursor is moved to where the next
    /// one may start, so that the caller can go on.
    pub fn declaration(&mut self) -> (r: Result<Stmt, ParseError>)
        requires
            old(self).wf(),
        ensures
            final(self).wf(),
            final(self).ts() == old(self).ts(),
            (viewed(r), final(self).position()) == parse_declaration(
                old(self).ts(),
                old(self).position(),
            ),
            !at_end(old(self).ts(), old(self).position()) ==> old(self).position()
                < final(self).position(),
    {
        if self.check(TokenKind::Var) {
            self.advance();
            match self.var_declaration() {
                Ok(stmt) => return Ok(stmt),
                Err(e) => {
                    self.synchronize();
                    return Err(e);
                },
            }
        }
        match self.statement() {
            Ok(stmt) => Ok(stmt),
            Err(e) => {
                self.synchronize();
                Err(e)
            },
        }
    }
}

/// The statements of `tokens`, or every error met on the way: after an error the parser
/// recovers at the next statement boundary and goes on.
pub fn parse_tokens(tokens: &Vec<Token>) -> (r: Result<Vec<Stmt>, Vec<ParseError>>)
    ensures
        match parse(view_tokens(tokens@)) {
            Ok(s) => r is Ok && view_stmts(r->Ok_0@) == s,
            Err(e) => r is Err && view_parse_errors(r->Err_0@) == e,
        },
{
    let ghost ts = view_tokens(tokens@);
    if tokens.len() == 0 || !(tokens[tokens.len() - 1].kind == TokenKind::EOF) {
        let r = vec![ParseError::IndexOutOfBounds];
        assert(view_parse_errors(r@) =~= seq![ParseErrorV::IndexOutOfBounds]);
        return Err(r);
    }
    let mut parser = Parser::new(tokens);
    let mut statements: Vec<Stmt> = Vec::new();
    let mut errors: Vec<ParseError> = Vec::new();
    proof {
        assert(view_stmts(statements@) =~= Seq::<StmtV>::empty());
        assert(view_parse_errors(errors@) =~= Seq::<ParseErrorV>::empty());
    }
    while !parser.is_at_end()
        invariant
            parser.wf(),
            parser.ts() == ts,
            well_formed_tokens(ts),
            parse_program(
                ts,
                parser.position(),
                view_stmts(statements@),
                view_parse_errors(errors@),
            ) == parse_program(ts, 0, seq![], seq![]),
        decreases ts.len() - parser.position(),
    {
        let ghost before = parser.position();
        let ghost vs = view_stmts(statements@);
        let ghost ve = view_parse_errors(errors@);
        match parser.declaration() {
            Ok(stmt) => {
                statements.push(stmt);
                assert(view_stmts(statements@) =~= vs.push(statements@.last()@));
            },
            Err(e) => {
                errors.push(e);
                assert(view_parse_errors(errors@) =~= ve.push(errors@.last()@));
            },
        };
    }
    if errors.len() == 0 {
        Ok(statements)
    } else {
        Err(errors)
    }
}

} // verus!
