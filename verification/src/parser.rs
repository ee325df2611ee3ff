use crate::expr::{expr_view, BinaryData, Expr, ExprV, GroupingData, UnaryData};
use crate::literal::{Literal, LiteralV};
use crate::token::{spec_str_payload, Token, TokenType, TokenV};
use vstd::prelude::*;

verus! {

/// A syntax error: a message and the token at which parsing failed.
#[derive(Debug)]
pub enum ParserError {
    Custom { message: String, token: Token },
}

/// The mathematical value of a syntax error.
pub enum ParserErrorV {
    Custom { message: Seq<char>, token: TokenV },
}

impl View for ParserError {
    type V = ParserErrorV;

    open spec fn view(&self) -> ParserErrorV {
        match self {
            ParserError::Custom { message, token } => ParserErrorV::Custom {
                message: message@,
                token: token@,
            },
        }
    }
}

/// A token sequence the parser accepts: it ends in exactly one end-marker
/// token, and the end-marker kind appears nowhere else. This is what
/// scanning always produces.
pub open spec fn tokens_wf(ts: Seq<TokenV>) -> bool {
    &&& ts.len() >= 1
    &&& ts[ts.len() - 1].ttype == TokenType::Eof
    &&& forall|k: int| 0 <= k < ts.len() - 1 ==> (#[trigger] ts[k]).ttype != TokenType::Eof
}

/// Keeps a parsing position inside the token sequence: the position a
/// sub-parse returned when it moved forward and stayed inside, else the
/// position just before it. In a run of the parser the two agree.
pub open spec fn next_pos(ts: Seq<TokenV>, lo: int, n: int) -> int {
    if lo < n < ts.len() {
        n
    } else {
        lo
    }
}

/// What a parse rule produced: the expression it built and the position of
/// the first token it did not consume, or the error it failed with.
pub type ParseOut = Result<(ExprV, int), ParserErrorV>;

pub open spec fn p_expression(ts: Seq<TokenV>, i: int) -> ParseOut
    decreases ts.len() - i, 13int,
    when tokens_wf(ts) && 0 <= i < ts.len()
{
    p_equality(ts, i)
}

pub open spec fn p_equality(ts: Seq<TokenV>, i: int) -> ParseOut
    decreases ts.len() - i, 12int,
    when tokens_wf(ts) && 0 <= i < ts.len()
{
    match p_comparison(ts, i) {
        Ok((e, n)) => p_equality_rest(ts, next_pos(ts, i, n), e),
        Err(e) => Err(e),
    }
}

/// Folds `!=` and `==` operators into a left-nested chain of binary nodes.
pub open spec fn p_equality_rest(ts: Seq<TokenV>, j: int, acc: ExprV) -> ParseOut
    decreases ts.len() - j, 11int,
    when tokens_wf(ts) && 0 <= j < ts.len()
{
    if ts[j].ttype == TokenType::BangEqual || ts[j].ttype == TokenType::EqualEqual {
        match p_comparison(ts, j + 1) {
            Ok((r, n)) => p_equality_rest(
                ts,
                next_pos(ts, j + 1, n),
                ExprV::Binary { left: Box::new(acc), operator: ts[j], right: Box::new(r) },
            ),
            Err(e) => Err(e),
        }
    } else {
        Ok((acc, j))
    }
}

pub open spec fn p_comparison(ts: Seq<TokenV>, i: int) -> ParseOut
    decreases ts.len() - i, 10int,
    when tokens_wf(ts) && 0 <= i < ts.len()
{
    match p_term(ts, i) {
        Ok((e, n)) => p_comparison_rest(ts, next_pos(ts, i, n), e),
        Err(e) => Err(e),
    }
}

/// Folds `>`, `>=`, `<` and `<=` operators, left-associatively.
pub open spec fn p_comparison_rest(ts: Seq<TokenV>, j: int, acc: ExprV) -> ParseOut
    decreases ts.len() - j, 9int,
    when tokens_wf(ts) && 0 <= j < ts.len()
{
    if ts[j].ttype == TokenType::Greater || ts[j].ttype == TokenType::GreaterEqual || ts[j].ttype
        == TokenType::Less || ts[j].ttype == TokenType::LessEqual {
        match p_term(ts, j + 1) {
            Ok((r, n)) => p_comparison_rest(
                ts,
                next_pos(ts, j + 1, n),
                ExprV::Binary { left: Box::new(acc), operator: ts[j], right: Box::new(r) },
            ),
            Err(e) => Err(e),
        }
    } else {
        Ok((acc, j))
    }
}

pub open spec fn p_term(ts: Seq<TokenV>, i: int) -> ParseOut
    decreases ts.len() - i, 8int,
    when tokens_wf(ts) && 0 <= i < ts.len()
{
    match p_factor(ts, i) {
        Ok((e, n)) => p_term_rest(ts, next_pos(ts, i, n), e),
        Err(e) => Err(e),
    }
}

/// Folds `-` and `+` operators, left-associatively.
pub open spec fn p_term_rest(ts: Seq<TokenV>, j: int, acc: ExprV) -> ParseOut
    decreases ts.len() - j, 7int,
    when tokens_wf(ts) && 0 <= j < ts.len()
{
    if ts[j].ttype == TokenType::Minus || ts[j].ttype == TokenType::Plus {
        match p_factor(ts, j + 1) {
            Ok((r, n)) => p_term_rest(
                ts,
                next_pos(ts, j + 1, n),
                ExprV::Binary { left: Box::new(acc), operator: ts[j], right: Box::new(r) },
            ),
            Err(e) => Err(e),
        }
    } else {
        Ok((acc, j))
    }
}

pub open spec fn p_factor(ts: Seq<TokenV>, i: int) -> ParseOut
    decreases ts.len() - i, 6int,
    when tokens_wf(ts) && 0 <= i < ts.len()
{
    match p_unary(ts, i) {
        Ok((e, n)) => p_factor_rest(ts, next_pos(ts, i, n), e),
        Err(e) => Err(e),
    }
}

/// Folds `/` and `*` operators, left-associatively.
pub open spec fn p_factor_rest(ts: Seq<TokenV>, j: int, acc: ExprV) -> ParseOut
    decreases ts.len() - j, 5int,
    when tokens_wf(ts) && 0 <= j < ts.len()
{
    if ts[j].ttype == TokenType::Slash || ts[j].ttype == TokenType::Star {
        match p_unary(ts, j + 1) {
            Ok((r, n)) => p_factor_rest(
                ts,
                next_pos(ts, j + 1, n),
                ExprV::Binary { left: Box::new(acc), operator: ts[j], right: Box::new(r) },
            ),
            Err(e) => Err(e),
        }
    } else {
        Ok((acc, j))
    }
}

/// A prefix `!` or `-` applies to the unary expression after it, so chains
/// of prefix operators nest to the right.
pub open spec fn p_unary(ts: Seq<TokenV>, j: int) -> ParseOut
    decreases ts.len() - j, 4int,
    when tokens_wf(ts) && 0 <= j < ts.len()
{
    if ts[j].ttype == TokenType::Bang || ts[j].ttype == TokenType::Minus {
        match p_unary(ts, j + 1) {
            Ok((r, n)) => Ok(
                (ExprV::Unary { operator: ts[j], right: Box::new(r) }, next_pos(ts, j + 1, n)),
            ),
            Err(e) => Err(e),
        }
    } else {
        p_primary(ts, j)
    }
}

/// A literal, or a parenthesized expression that must close with `)`. Any
/// other token fails with `Expect expression.` at that token; a group whose
/// `)` is missing fails with `Expect ')' after expression.` at the token
/// found instead.
pub open spec fn p_primary(ts: Seq<TokenV>, j: int) -> ParseOut
    decreases ts.len() - j, 3int,
    when tokens_wf(ts) && 0 <= j < ts.len()
{
    if ts[j].ttype == TokenType::Number {
        Ok((ExprV::Literal { value: LiteralV::Number(ts[j].lexeme) }, j + 1))
    } else if ts[j].ttype == TokenType::Str {
        Ok((ExprV::Literal { value: LiteralV::Str(spec_str_payload(ts[j])) }, j + 1))
    } else if ts[j].ttype == TokenType::True {
        Ok((ExprV::Literal { value: LiteralV::Bool(true) }, j + 1))
    } else if ts[j].ttype == TokenType::False {
        Ok((ExprV::Literal { value: LiteralV::Bool(false) }, j + 1))
    } else if ts[j].ttype == TokenType::Nil {
        Ok((ExprV::Literal { value: LiteralV::Nil }, j + 1))
    } else if ts[j].ttype == TokenType::LeftParen {
        match p_expression(ts, j + 1) {
            Ok((e, n)) => {
                let n2 = next_pos(ts, j + 1, n);
                if ts[n2].ttype == TokenType::RightParen {
                    Ok((ExprV::Grouping { inner: Box::new(e) }, n2 + 1))
                } else {
                    Err(
                        ParserErrorV::Custom {
                            message: "Expect ')' after expression."@,
                            token: ts[n2],
                        },
                    )
                }
            },
            Err(e) => Err(e),
        }
    } else {
        Err(ParserErrorV::Custom { message: "Expect expression."@, token: ts[j] })
    }
}

/// A keyword that begins a statement, where recovery can resume.
pub open spec fn is_stmt_keyword(t: TokenType) -> bool {
    ||| t == TokenType::Class
    ||| t == TokenType::Fun
    ||| t == TokenType::Var
    ||| t == TokenType::For
    ||| t == TokenType::If
    ||| t == TokenType::While
    ||| t == TokenType::Print
    ||| t == TokenType::Return
}

/// Consumes a token sequence by recursive descent, one grammar rule per
/// method; rule nesting encodes operator precedence. Owns a cursor over the
/// tokens; built fresh per parse and discarded.
pub struct Parser {
    pub tokens: Vec<Token>,
    pub current: usize,
}

/// How an executed parse rule relates to its mathematical description
/// `sr`: on success the built tree and the final cursor match it, on
/// failure the error matches it, and the cursor never moves backward or
/// outside the tokens.
pub open spec fn parse_outcome(
    pre: Parser,
    post: Parser,
    r: Result<Expr, ParserError>,
    sr: ParseOut,
) -> bool {
    &&& post.wf()
    &&& post.toks() == pre.toks()
    &&& pre.current <= post.current
    &&& match sr {
        Ok((e, n)) => r matches Ok(expr) && expr@ == e && post.current as int == n,
        Err(ev) => r matches Err(pe) && pe@ == ev,
    }
}

impl Parser {
    /// The token values the parser walks over.
    pub open spec fn toks(&self) -> Seq<TokenV> {
        self.tokens@.map_values(|t: Token| t@)
    }

    pub open spec fn wf(&self) -> bool {
        &&& tokens_wf(self.toks())
        &&& self.current < self.toks().len()
    }

    pub fn new(tokens: Vec<Token>) -> (p: Parser)
        requires
            tokens_wf(tokens@.map_values(|t: Token| t@)),
        ensures
            p.wf(),
            p.toks() == tokens@.map_values(|t: Token| t@),
            p.current == 0,
    {
        Parser { tokens, current: 0 }
    }

    fn peek(&self) -> (t: &Token)
        requires
            self.wf(),
        ensures
            t@ == self.toks()[self.current as int],
    {
        &self.tokens[self.current]
    }

    fn previous(&self) -> (t: Token)
        requires
            self.wf(),
            1 <= self.current,
        ensures
            t@ == self.toks()[self.current - 1],
    {
        self.tokens[self.current - 1].duplicate()
    }

    fn is_at_end(&self) -> (r: bool)
        requires
            self.wf(),
        ensures
            r == (self.toks()[self.current as int].ttype == TokenType::Eof),
    {
        self.peek().ttype == TokenType::Eof
    }

    fn check(&self, ttype: TokenType) -> (r: bool)
        requires
            self.wf(),
        ensures
            r == (self.toks()[self.current as int].ttype == ttype && ttype != TokenType::Eof),
    {
        if self.is_at_end() {
            return false;
        }
        self.peek().ttype == ttype
    }

    fn advance(&mut self) -> (t: Token)
        requires
            old(self).wf(),
            1 <= old(self).current || old(self).toks()[old(self).current as int].ttype
                != TokenType::Eof,
        ensures
            final(self).wf(),
            final(self).toks() == old(self).toks(),
            final(self).current as int == (if old(self).toks()[old(self).current as int].ttype
                != TokenType::Eof {
                old(self).current + 1
            } else {
                old(self).current as int
            }),
            t@ == final(self).toks()[final(self).current - 1],
    {
        if !self.is_at_end() {
            proof {
                assert(self.tokens.len() == self.toks().len());
            }
            self.current = self.current + 1;
        }
        self.previous()
    }

    /// Consumes the next token when its kind is one of the two given ones.
    fn matches2(&mut self, t1: TokenType, t2: TokenType) -> (r: bool)
        requires
            old(self).wf(),
            t1 != TokenType::Eof,
            t2 != TokenType::Eof,
        ensures
            final(self).wf(),
            final(self).toks() == old(self).toks(),
            r == (old(self).toks()[old(self).current as int].ttype == t1 || old(self).toks()[old(
                self,
            ).current as int].ttype == t2),
            final(self).current as int == (if r {
                old(self).current + 1
            } else {
                old(self).current as int
            }),
    {
        if self.check(t1) {
            let _ = self.advance();
            return true;
        }
        if self.check(t2) {
            let _ = self.advance();
            return true;
        }
        false
    }

    /// Consumes the next token when its kind is one of the four given ones.
    fn matches4(&mut self, t1: TokenType, t2: TokenType, t3: TokenType, t4: TokenType) -> (r: bool)
        requires
            old(self).wf(),
            t1 != TokenType::Eof,
            t2 != TokenType::Eof,
            t3 != TokenType::Eof,
            t4 != TokenType::Eof,
        ensures
            final(self).wf(),
            final(self).toks() == old(self).toks(),
            r == (old(self).toks()[old(self).current as int].ttype == t1 || old(self).toks()[old(
                self,
            ).current as int].ttype == t2 || old(self).toks()[old(self).current as int].ttype == t3
                || old(self).toks()[old(self).current as int].ttype == t4),
            final(self).current as int == (if r {
                old(self).current + 1
            } else {
                old(self).current as int
            }),
    {
        if self.matches2(t1, t2) {
            return true;
        }
        self.matches2(t3, t4)
    }

    /// Consumes the next token when it has the given kind, else fails with
    /// the given message at the token found instead.
    fn consume(&mut self, ttype: TokenType, message: &str) -> (r: Result<Token, ParserError>)
        requires
            old(self).wf(),
            ttype != TokenType::Eof,
        ensures
            final(self).wf(),
            final(self).toks() == old(self).toks(),
            old(self).current <= final(self).current,
            ({
                let at = old(self).toks()[old(self).current as int];
                if at.ttype == ttype {
                    r matches Ok(t) && t@ == at && final(self).current == old(self).current + 1
                } else {
                    (r matches Err(e) && e@ == (ParserErrorV::Custom {
                        message: message@,
                        token: at,
                    })) && final(self).current == old(self).current
                }
            }),
    {
        if self.check(ttype) {
            return Ok(self.advance());
        }
        Err(
            ParserError::Custom {
                message: message.to_owned(),
                token: self.peek().duplicate(),
            },
        )
    }

    /// Parses exactly one expression; the tokens after it stay unconsumed.
    pub fn parse(&mut self) -> (r: Result<Expr, ParserError>)
        requires
            old(self).wf(),
        ensures
            parse_outcome(
                *old(self),
                *final(self),
                r,
                p_expression(old(self).toks(), old(self).current as int),
            ),
    {
        self.expression()
    }

    fn expression(&mut self) -> (r: Result<Expr, ParserError>)
        requires
            old(self).wf(),
        ensures
            parse_outcome(
                *old(self),
                *final(self),
                r,
                p_expression(old(self).toks(), old(self).current as int),
            ),
        decreases self.toks().len() - self.current, 13int,
    {
        self.equality()
    }

    #[verifier::loop_isolation(false)]
    #[verifier::rlimit(50)]
    fn equality(&mut self) -> (r: Result<Expr, ParserError>)
        requires
            old(self).wf(),
        ensures
            parse_outcome(
                *old(self),
                *final(self),
                r,
                p_equality(old(self).toks(), old(self).current as int),
            ),
        decreases self.toks().len() - self.current, 12int,
    {
        let ghost ts = old(self).toks();
        let ghost c0 = old(self).current as int;
        let mut ex: Expr;
        match self.comparison() {
            Ok(e) => {
                ex = e;
            },
            Err(e) => {
                return Err(e);
            },
        }
        while self.matches2(TokenType::BangEqual, TokenType::EqualEqual)
            invariant
                self.wf(),
                self.toks() == ts,
                c0 <= self.current as int,
                p_equality_rest(ts, self.current as int, ex@) == p_equality(ts, c0),
            decreases ts.len() - self.current,
    {
            let op = self.previous();
            let right: Expr;
            match self.comparison() {
                Ok(e) => {
                    right = e;
                },
                Err(e) => {
                    return Err(e);
                },
            }
            let data = BinaryData { left: Box::new(ex), operator: op, right: Box::new(right) };
            ex = Expr::Binary(data);
        }
        Ok(ex)
    }

    #[verifier::loop_isolation(false)]
    #[verifier::rlimit(50)]
    fn comparison(&mut self) -> (r: Result<Expr, ParserError>)
        requires
            old(self).wf(),
        ensures
            parse_outcome(
                *old(self),
                *final(self),
                r,
                p_comparison(old(self).toks(), old(self).current as int),
            ),
        decreases self.toks().len() - self.current, 10int,
    {
        let ghost ts = old(self).toks();
        let ghost c0 = old(self).current as int;
        let mut ex: Expr;
        match self.term() {
            Ok(e) => {
                ex = e;
            },
            Err(e) => {
                return Err(e);
            },
        }
        while self.matches4(
            TokenType::Greater,
            TokenType::GreaterEqual,
            TokenType::Less,
            TokenType::LessEqual,
        )
            invariant
                self.wf(),
                self.toks() == ts,
                c0 <= self.current as int,
                p_comparison_rest(ts, self.current as int, ex@) == p_comparison(ts, c0),
            decreases ts.len() - self.current,
    {
            let op = self.previous();
            let right: Expr;
            match self.term() {
                Ok(e) => {
                    right = e;
                },
                Err(e) => {
                    return Err(e);
                },
            }
            let data = BinaryData { left: Box::new(ex), operator: op, right: Box::new(right) };
            ex = Expr::Binary(data);
        }
        Ok(ex)
    }

    #[verifier::loop_isolation(false)]
    #[verifier::rlimit(50)]
    fn term(&mut self) -> (r: Result<Expr, ParserError>)
        requires
            old(self).wf(),
        ensures
            parse_outcome(
                *old(self),
                *final(self),
                r,
                p_term(old(self).toks(), old(self).current as int),
            ),
        decreases self.toks().len() - self.current, 8int,
    {
        let ghost ts = old(self).toks();
        let ghost c0 = old(self).current as int;
        let mut ex: Expr;
        match self.factor() {
            Ok(e) => {
                ex = e;
            },
            Err(e) => {
                return Err(e);
            },
        }
        while self.matches2(TokenType::Minus, TokenType::Plus)
            invariant
                self.wf(),
                self.toks() == ts,
                c0 <= self.current as int,
                p_term_rest(ts, self.current as int, ex@) == p_term(ts, c0),
            decreases ts.len() - self.current,
    {
            let op = self.previous();
            let right: Expr;
            match self.factor() {
                Ok(e) => {
                    right = e;
                },
                Err(e) => {
                    return Err(e);
                },
            }
            let data = BinaryData { left: Box::new(ex), operator: op, right: Box::new(right) };
            ex = Expr::Binary(data);
        }
        Ok(ex)
    }

    #[verifier::loop_isolation(false)]
    #[verifier::rlimit(50)]
    fn factor(&mut self) -> (r: Result<Expr, ParserError>)
        requires
            old(self).wf(),
        ensures
            parse_outcome(
                *old(self),
                *final(self),
                r,
                p_factor(old(self).toks(), old(self).current as int),
            ),
        decreases self.toks().len() - self.current, 6int,
    {
        let ghost ts = old(self).toks();
        let ghost c0 = old(self).current as int;
        let mut ex: Expr;
        match self.unary() {
            Ok(e) => {
                ex = e;
            },
            Err(e) => {
                return Err(e);
            },
        }
        while self.matches2(TokenType::Slash, TokenType::Star)
            invariant
                self.wf(),
                self.toks() == ts,
                c0 <= self.current as int,
                p_factor_rest(ts, self.current as int, ex@) == p_factor(ts, c0),
            decreases ts.len() - self.current,
    {
            let op = self.previous();
            let right: Expr;
            match self.unary() {
                Ok(e) => {
                    right = e;
                },
                Err(e) => {
                    return Err(e);
                },
            }
            let data = BinaryData { left: Box::new(ex), operator: op, right: Box::new(right) };
            ex = Expr::Binary(data);
        }
        Ok(ex)
    }

    #[verifier::loop_isolation(false)]
    #[verifier::rlimit(50)]
    fn unary(&mut self) -> (r: Result<Expr, ParserError>)
        requires
            old(self).wf(),
        ensures
            parse_outcome(
                *old(self),
                *final(self),
                r,
                p_unary(old(self).toks(), old(self).current as int),
            ),
        decreases self.toks().len() - self.current, 4int,
    {
        if self.matches2(TokenType::Bang, TokenType::Minus) {
            let op = self.previous();
            match self.unary() {
                Ok(right) => {
                    return Ok(Expr::Unary(UnaryData { operator: op, right: Box::new(right) }));
                },
                Err(e) => {
                    return Err(e);
                },
            }
        }
        self.primary()
    }

    #[verifier::loop_isolation(false)]
    #[verifier::rlimit(50)]
    fn primary(&mut self) -> (r: Result<Expr, ParserError>)
        requires
            old(self).wf(),
        ensures
            parse_outcome(
                *old(self),
                *final(self),
                r,
                p_primary(old(self).toks(), old(self).current as int),
            ),
        decreases self.toks().len() - self.current, 3int,
    {
        let tt = self.peek().ttype;
        if tt == TokenType::Number {
            let t = self.advance();
            Ok(Expr::Literal(Literal::Number(t.lexeme)))
        } else if tt == TokenType::Str {
            let t = self.advance();
            let contents = (match t.literal {
                Some(s) => s,
                None => String::new(),
            });
            Ok(Expr::Literal(Literal::Str(contents)))
        } else if tt == TokenType::True {
            let _ = self.advance();
            Ok(Expr::Literal(Literal::Bool(true)))
        } else if tt == TokenType::False {
            let _ = self.advance();
            Ok(Expr::Literal(Literal::Bool(false)))
        } else if tt == TokenType::Nil {
            let _ = self.advance();
            Ok(Expr::Literal(Literal::Nil))
        } else if tt == TokenType::LeftParen {
            let _ = self.advance();
            let e: Expr;
            match self.expression() {
                Ok(inner) => {
                    e = inner;
                },
                Err(err) => {
                    return Err(err);
                },
            }
            match self.consume(TokenType::RightParen, "Expect ')' after expression.") {
                Ok(_) => Ok(Expr::Grouping(GroupingData { expression: Box::new(e) })),
                Err(err) => Err(err),
            }
        } else {
            Err(
                ParserError::Custom {
                    message: "Expect expression.".to_owned(),
                    token: self.peek().duplicate(),
                },
            )
        }
    }

    /// Error recovery for a statement grammar to come: discards tokens up
    /// to a statement boundary, so that parsing could resume there. It
    /// moves forward unless it already stands at the end marker. Under the
    /// present expression-only grammar nothing invokes it.
    pub fn synchronize(&mut self)
        requires
            old(self).wf(),
        ensures
            final(self).wf(),
            final(self).toks() == old(self).toks(),
            old(self).current <= final(self).current,
            old(self).toks()[old(self).current as int].ttype != TokenType::Eof ==> old(
                self,
            ).current < final(self).current,
            ({
                let ts = final(self).toks();
                let j = final(self).current as int;
                ||| ts[j].ttype == TokenType::Eof
                ||| (1 <= j && ts[j - 1].ttype == TokenType::Semicolon)
                ||| is_stmt_keyword(ts[j].ttype)
            }),
    {
        if self.is_at_end() {
            return;
        }
        let _ = self.advance();
        while !self.is_at_end()
            invariant
                self.wf(),
                self.toks() == old(self).toks(),
                1 <= self.current,
                old(self).current < self.current,
            decreases self.toks().len() - self.current,
        {
            if self.previous().ttype == TokenType::Semicolon {
                return;
            }
            let tt = self.peek().ttype;
            if tt == TokenType::Class || tt == TokenType::Fun || tt == TokenType::Var || tt
                == TokenType::For || tt == TokenType::If || tt == TokenType::While || tt
                == TokenType::Print || tt == TokenType::Return {
                return;
            }
            let _ = self.advance();
        }
    }
}

} // verus!
