//! Abstract syntax and the recursive-descent parser.
//!
//! `Node` is a statement, `Expr` an expression. A function body is held
//! behind `Rc` so that a closure value can share it without copying the
//! subtree. The `*_size` functions are termination measures for the
//! recursive walks over the tree.

use vstd::prelude::*;

use std::rc::Rc;

use crate::scanner::Token;

verus! {

pub enum Node {
    Print(Box<Expr>),
    Var(String, Option<Box<Expr>>),
    Fun(String, Rc<Vec<String>>, Rc<Node>),
    Return(Box<Expr>),
    While(Box<Expr>, Box<Node>),
    If(Box<Expr>, Box<Node>, Box<Node>),
    ExpressionStatement(Box<Expr>),
    Block(Vec<Node>),
    Statements(Vec<Node>),
}

pub enum Expr {
    Eq(Box<Expr>, Box<Expr>),
    Ne(Box<Expr>, Box<Expr>),
    Greater(Box<Expr>, Box<Expr>),
    GreaterEqual(Box<Expr>, Box<Expr>),
    Less(Box<Expr>, Box<Expr>),
    LessEqual(Box<Expr>, Box<Expr>),
    Plus(Box<Expr>, Box<Expr>),
    Minus(Box<Expr>, Box<Expr>),
    Multiply(Box<Expr>, Box<Expr>),
    Call(Box<Expr>, Vec<Expr>),
    MethodCall(Box<Expr>, Box<Expr>, Vec<Expr>),
    Array(Vec<Expr>),
    Object(Vec<(String, Expr)>),
    Identifier(String),
    Assign(String, Box<Expr>),
    Get(Box<Expr>, Box<Expr>),
    SetProperty(Box<Expr>, Box<Expr>, Box<Expr>),
    Number(i32),
    String(String),
    Boolean(bool),
}

pub open spec fn node_size(n: Node) -> nat
    decreases n,
{
    match n {
        Node::Print(e) => 1 + expr_size(*e),
        Node::Var(_, init) => match init {
            Some(e) => 1 + expr_size(*e),
            None => 1,
        },
        Node::Fun(_, _, _) => 1,
        Node::Return(e) => 1 + expr_size(*e),
        Node::While(c, b) => 1 + expr_size(*c) + node_size(*b),
        Node::If(c, t, o) => 1 + expr_size(*c) + node_size(*t) + node_size(*o),
        Node::ExpressionStatement(e) => 1 + expr_size(*e),
        Node::Block(ss) => 1 + nodes_size(ss@),
        Node::Statements(ss) => 1 + nodes_size(ss@),
    }
}

pub open spec fn nodes_size(s: Seq<Node>) -> nat
    decreases s,
{
    if s.len() == 0 {
        0
    } else {
        1 + node_size(s[0]) + nodes_size(s.drop_first())
    }
}

pub open spec fn expr_size(e: Expr) -> nat
    decreases e,
{
    match e {
        Expr::Eq(l, r) => 1 + expr_size(*l) + expr_size(*r),
        Expr::Ne(l, r) => 1 + expr_size(*l) + expr_size(*r),
        Expr::Greater(l, r) => 1 + expr_size(*l) + expr_size(*r),
        Expr::GreaterEqual(l, r) => 1 + expr_size(*l) + expr_size(*r),
        Expr::Less(l, r) => 1 + expr_size(*l) + expr_size(*r),
        Expr::LessEqual(l, r) => 1 + expr_size(*l) + expr_size(*r),
        Expr::Plus(l, r) => 1 + expr_size(*l) + expr_size(*r),
        Expr::Minus(l, r) => 1 + expr_size(*l) + expr_size(*r),
        Expr::Multiply(l, r) => 1 + expr_size(*l) + expr_size(*r),
        Expr::Call(c, args) => 1 + expr_size(*c) + exprs_size(args@),
        Expr::MethodCall(b, k, args) => 1 + expr_size(*b) + expr_size(*k) + exprs_size(args@),
        Expr::Array(es) => 1 + exprs_size(es@),
        Expr::Object(fs) => 1 + fields_size(fs@),
        Expr::Identifier(_) => 1,
        Expr::Assign(_, e) => 1 + expr_size(*e),
        Expr::Get(b, k) => 1 + expr_size(*b) + expr_size(*k),
        Expr::SetProperty(b, k, v) => 1 + expr_size(*b) + expr_size(*k) + expr_size(*v),
        Expr::Number(_) => 1,
        Expr::String(_) => 1,
        Expr::Boolean(_) => 1,
    }
}

pub open spec fn exprs_size(s: Seq<Expr>) -> nat
    decreases s,
{
    if s.len() == 0 {
        0
    } else {
        1 + expr_size(s[0]) + exprs_size(s.drop_first())
    }
}

pub open spec fn fields_size(s: Seq<(String, Expr)>) -> nat
    decreases s,
{
    if s.len() == 0 {
        0
    } else {
        1 + expr_size(s[0].1) + fields_size(s.drop_first())
    }
}

/// A recursive-descent parser over a scanned token list. Each parsing
/// method consumes tokens from the front; the contracts state that the
/// cursor only moves forward, strictly so on success, which also bounds
/// the recursion.
pub struct Parser {
    tokens: Vec<Token>,
    index: usize,
}

impl Parser {
    /// The cursor never passes the end of the token list.
    pub closed spec fn wf(&self) -> bool {
        self.index <= self.tokens@.len()
    }

    /// How many tokens are left to consume; the parser's termination
    /// measure.
    pub closed spec fn remaining(&self) -> int {
        self.tokens@.len() - self.index
    }

    pub fn new(tokens: Vec<Token>) -> (r: Parser)
        ensures
            r.wf(),
            r.remaining() == tokens@.len(),
    {
        Parser { tokens, index: 0 }
    }

    /// Parses the whole token list as a statement sequence.
    pub fn parse(&mut self) -> (r: Result<Node, String>)
        requires
            old(self).wf(),
        ensures
            final(self).wf(),
    {
        self.statements()
    }

    /// The token under the cursor, if any.
    fn current(&self) -> (t: Option<&Token>)
        requires
            self.wf(),
        ensures
            match t {
                Some(tok) => self.index < self.tokens@.len() && *tok == self.tokens@[self.index as int],
                None => self.index == self.tokens@.len(),
            },
    {
        if self.index < self.tokens.len() {
            Some(&self.tokens[self.index])
        } else {
            None
        }
    }

    /// Moves the cursor past the token under it, if any.
    fn advance(&mut self)
        requires
            old(self).wf(),
        ensures
            final(self).wf(),
            final(self).tokens == old(self).tokens,
            old(self).index < old(self).tokens@.len() ==> final(self).index == old(self).index
                + 1,
            old(self).index == old(self).tokens@.len() ==> final(self).index == old(self).index,
    {
        if self.index < self.tokens.len() {
            self.index = self.index + 1;
        }
    }

    fn statements(&mut self) -> (r: Result<Node, String>)
        requires
            old(self).wf(),
        ensures
            final(self).wf(),
    {
        let mut list: Vec<Node> = Vec::new();
        while self.index < self.tokens.len()
            invariant
                self.wf(),
            decreases self.remaining(),
        {
            let s = match self.statement() {
                Ok(s) => s,
                Err(e) => return Err(e),
            };
            list.push(s);
        }
        Ok(Node::Statements(list))
    }

    fn statement(&mut self) -> (r: Result<Node, String>)
        requires
            old(self).wf(),
        ensures
            final(self).wf(),
            final(self).tokens == old(self).tokens,
            old(self).index <= final(self).index,
            r is Ok ==> old(self).index < final(self).index,
        decreases self.remaining(), 11int,
    {
        match self.current() {
            Some(Token::Print) => self.print_statement(),
            Some(Token::Var) => self.var_statement(),
            Some(Token::Fun) => self.fun_statement(),
            Some(Token::Return) => self.return_statement(),
            Some(Token::While) => self.while_statement(),
            Some(Token::For) => self.for_statement(),
            Some(Token::If) => self.if_statement(),
            Some(Token::OpenBrace) => self.block(),
            _ => self.expression_statement(),
        }
    }

    fn print_statement(&mut self) -> (r: Result<Node, String>)
        requires
            old(self).wf(),
        ensures
            final(self).wf(),
            final(self).tokens == old(self).tokens,
            old(self).index <= final(self).index,
            r is Ok ==> old(self).index < final(self).index,
        decreases self.remaining(), 10int,
    {
        self.advance();
        let expr = match self.expression() {
            Ok(e) => e,
            Err(e) => return Err(e),
        };
        match self.current() {
            Some(Token::Semicolon) => {
                self.advance();
            },
            _ => {
                return Err("expected semicolon after print".to_owned());
            },
        }
        Ok(Node::Print(Box::new(expr)))
    }

    fn var_statement(&mut self) -> (r: Result<Node, String>)
        requires
            old(self).wf(),
        ensures
            final(self).wf(),
            final(self).tokens == old(self).tokens,
            old(self).index <= final(self).index,
            r is Ok ==> old(self).index < final(self).index,
        decreases self.remaining(), 10int,
    {
        self.advance();
        let name = match self.current() {
            Some(Token::Identifier(n)) => n.clone(),
            _ => {
                return Err("expected variable name".to_owned());
            },
        };
        self.advance();
        let init = match self.current() {
            Some(Token::Assign) => {
                self.advance();
                let e = match self.expression() {
                    Ok(e) => e,
                    Err(e) => return Err(e),
                };
                Some(Box::new(e))
            },
            _ => None,
        };
        match self.current() {
            Some(Token::Semicolon) => {
                self.advance();
            },
            _ => {
                return Err("expected semicolon after declaration".to_owned());
            },
        }
        Ok(Node::Var(name, init))
    }

    fn fun_statement(&mut self) -> (r: Result<Node, String>)
        requires
            old(self).wf(),
        ensures
            final(self).wf(),
            final(self).tokens == old(self).tokens,
            old(self).index <= final(self).index,
            r is Ok ==> old(self).index < final(self).index,
        decreases self.remaining(), 10int,
    {
        self.advance();
        let name = match self.current() {
            Some(Token::Identifier(n)) => n.clone(),
            _ => {
                return Err("expected function name".to_owned());
            },
        };
        self.advance();
        match self.current() {
            Some(Token::OpenParen) => {
                self.advance();
            },
            _ => {
                return Err("expected open parens (".to_owned());
            },
        }
        let mut parameters: Vec<String> = Vec::new();
        match self.current() {
            Some(Token::CloseParen) => {},
            _ => {
                loop
                    invariant
                        self.wf(),
                        self.tokens == old(self).tokens,
                        old(self).index < self.index,
                    decreases self.remaining(),
                {
                    let p = match self.current() {
                        Some(Token::Identifier(n)) => n.clone(),
                        _ => {
                            return Err("expected parameter name".to_owned());
                        },
                    };
                    self.advance();
                    parameters.push(p);
                    match self.current() {
                        Some(Token::Comma) => {
                            self.advance();
                        },
                        _ => {
                            break ;
                        },
                    }
                }
            },
        }
        match self.current() {
            Some(Token::CloseParen) => {
                self.advance();
            },
            _ => {
                return Err("expected close parens )".to_owned());
            },
        }
        let body = match self.block() {
            Ok(b) => b,
            Err(e) => return Err(e),
        };
        Ok(Node::Fun(name, Rc::new(parameters), Rc::new(body)))
    }

    fn return_statement(&mut self) -> (r: Result<Node, String>)
        requires
            old(self).wf(),
        ensures
            final(self).wf(),
            final(self).tokens == old(self).tokens,
            old(self).index <= final(self).index,
            r is Ok ==> old(self).index < final(self).index,
        decreases self.remaining(), 10int,
    {
        self.advance();
        let expr = match self.expression() {
            Ok(e) => e,
            Err(e) => return Err(e),
        };
        match self.current() {
            Some(Token::Semicolon) => {
                self.advance();
            },
            _ => {
                return Err("expected semicolon after return".to_owned());
            },
        }
        Ok(Node::Return(Box::new(expr)))
    }

    fn while_statement(&mut self) -> (r: Result<Node, String>)
        requires
            old(self).wf(),
        ensures
            final(self).wf(),
            final(self).tokens == old(self).tokens,
            old(self).index <= final(self).index,
            r is Ok ==> old(self).index < final(self).index,
        decreases self.remaining(), 10int,
    {
        self.advance();
        match self.current() {
            Some(Token::OpenParen) => {
                self.advance();
            },
            _ => {
                return Err("expected open parens (".to_owned());
            },
        }
        let condition = match self.expression() {
            Ok(e) => e,
            Err(e) => return Err(e),
        };
        match self.current() {
            Some(Token::CloseParen) => {
                self.advance();
            },
            _ => {
                return Err("expected close parens ) after condition".to_owned());
            },
        }
        let body = match self.block() {
            Ok(b) => b,
            Err(e) => return Err(e),
        };
        Ok(Node::While(Box::new(condition), Box::new(body)))
    }

    fn for_statement(&mut self) -> (r: Result<Node, String>)
        requires
            old(self).wf(),
        ensures
            final(self).wf(),
            final(self).tokens == old(self).tokens,
            old(self).index <= final(self).index,
            r is Ok ==> old(self).index < final(self).index,
        decreases self.remaining(), 10int,
    {
        self.advance();
        match self.current() {
            Some(Token::OpenParen) => {
                self.advance();
            },
            _ => {
                return Err("expected open parens ( after for".to_owned());
            },
        }
        let init = match self.current() {
            Some(Token::Semicolon) => {
                self.advance();
                None
            },
            Some(Token::Var) => match self.var_statement() {
                Ok(s) => Some(s),
                Err(e) => return Err(e),
            },
            _ => match self.expression_statement() {
                Ok(s) => Some(s),
                Err(e) => return Err(e),
            },
        };
        let condition = match self.current() {
            Some(Token::Semicolon) => Expr::Boolean(true),
            _ => match self.expression() {
                Ok(e) => e,
                Err(e) => return Err(e),
            },
        };
        match self.current() {
            Some(Token::Semicolon) => {
                self.advance();
            },
            _ => {
                return Err("expected semicolon after condition".to_owned());
            },
        }
        let update = match self.current() {
            Some(Token::CloseParen) => None,
            _ => match self.expression() {
                Ok(e) => Some(e),
                Err(e) => return Err(e),
            },
        };
        match self.current() {
            Some(Token::CloseParen) => {
                self.advance();
            },
            _ => {
                return Err("expected ) after for".to_owned());
            },
        }
        let mut body = match self.statement() {
            Ok(b) => b,
            Err(e) => return Err(e),
        };
        // desugar: the update runs after the body, the init before the loop
        match update {
            Some(u) => {
                body = Node::Statements(
                    vec![body, Node::ExpressionStatement(Box::new(u))],
                );
            },
            None => {},
        }
        let while_loop = Node::While(Box::new(condition), Box::new(body));
        Ok(
            match init {
                Some(i) => Node::Statements(vec![i, while_loop]),
                None => while_loop,
            },
        )
    }

    fn if_statement(&mut self) -> (r: Result<Node, String>)
        requires
            old(self).wf(),
        ensures
            final(self).wf(),
            final(self).tokens == old(self).tokens,
            old(self).index <= final(self).index,
            r is Ok ==> old(self).index < final(self).index,
        decreases self.remaining(), 10int,
    {
        self.advance();
        match self.current() {
            Some(Token::OpenParen) => {
                self.advance();
            },
            _ => {
                return Err("expected open parens (".to_owned());
            },
        }
        let condition = match self.expression() {
            Ok(e) => e,
            Err(e) => return Err(e),
        };
        match self.current() {
            Some(Token::CloseParen) => {
                self.advance();
            },
            _ => {
                return Err("expected close parens ) after condition".to_owned());
            },
        }
        let then = match self.block() {
            Ok(b) => b,
            Err(e) => return Err(e),
        };
        let other = match self.current() {
            Some(Token::Else) => {
                self.advance();
                match self.block() {
                    Ok(b) => b,
                    Err(e) => return Err(e),
                }
            },
            _ => Node::Statements(Vec::new()),
        };
        Ok(Node::If(Box::new(condition), Box::new(then), Box::new(other)))
    }

    /// A braced statement list. It parses to `Node::Block`, which executes
    /// its statements in a scope of their own.
    fn block(&mut self) -> (r: Result<Node, String>)
        requires
            old(self).wf(),
        ensures
            final(self).wf(),
            final(self).tokens == old(self).tokens,
            old(self).index <= final(self).index,
            r is Ok ==> old(self).index < final(self).index,
        decreases self.remaining(), 10int,
    {
        match self.current() {
            Some(Token::OpenBrace) => {
                self.advance();
            },
            _ => {
                return Err("expected open brace {".to_owned());
            },
        }
        let mut statements: Vec<Node> = Vec::new();
        loop
            invariant
                self.wf(),
                self.tokens == old(self).tokens,
                old(self).index < self.index,
            decreases self.remaining(),
        {
            match self.current() {
                Some(Token::CloseBrace) => {
                    self.advance();
                    break ;
                },
                Some(_) => {},
                None => {
                    return Err("missing closing brace }".to_owned());
                },
            }
            let s = match self.statement() {
                Ok(s) => s,
                Err(e) => return Err(e),
            };
            statements.push(s);
        }
        Ok(Node::Block(statements))
    }

    fn expression_statement(&mut self) -> (r: Result<Node, String>)
        requires
            old(self).wf(),
        ensures
            final(self).wf(),
            final(self).tokens == old(self).tokens,
            old(self).index <= final(self).index,
            r is Ok ==> old(self).index < final(self).index,
        decreases self.remaining(), 10int,
    {
        let expr = match self.expression() {
            Ok(e) => e,
            Err(e) => return Err(e),
        };
        match self.current() {
            Some(Token::Semicolon) => {
                self.advance();
            },
            _ => {
                return Err("expected semicolon after expression".to_owned());
            },
        }
        Ok(Node::ExpressionStatement(Box::new(expr)))
    }

    fn expression(&mut self) -> (r: Result<Expr, String>)
        requires
            old(self).wf(),
        ensures
            final(self).wf(),
            final(self).tokens == old(self).tokens,
            old(self).index <= final(self).index,
            r is Ok ==> old(self).index < final(self).index,
        decreases self.remaining(), 8int,
    {
        self.assignment()
    }

    fn assignment(&mut self) -> (r: Result<Expr, String>)
        requires
            old(self).wf(),
        ensures
            final(self).wf(),
            final(self).tokens == old(self).tokens,
            old(self).index <= final(self).index,
            r is Ok ==> old(self).index < final(self).index,
        decreases self.remaining(), 7int,
    {
        let left = match self.equality() {
            Ok(e) => e,
            Err(e) => return Err(e),
        };
        match self.current() {
            Some(Token::Assign) => {
                self.advance();
                let right = match self.assignment() {
                    Ok(e) => e,
                    Err(e) => return Err(e),
                };
                match left {
                    Expr::Identifier(name) => Ok(Expr::Assign(name, Box::new(right))),
                    Expr::Get(base, key) => Ok(Expr::SetProperty(base, key, Box::new(right))),
                    _ => Err("unexpected left hand side of assignment".to_owned()),
                }
            },
            _ => Ok(left),
        }
    }

    fn equality(&mut self) -> (r: Result<Expr, String>)
        requires
            old(self).wf(),
        ensures
            final(self).wf(),
            final(self).tokens == old(self).tokens,
            old(self).index <= final(self).index,
            r is Ok ==> old(self).index < final(self).index,
        decreases self.remaining(), 6int,
    {
        let mut left = match self.comparison() {
            Ok(e) => e,
            Err(e) => return Err(e),
        };
        loop
            invariant
                self.wf(),
                self.tokens == old(self).tokens,
                old(self).index < self.index,
            decreases self.remaining(),
        {
            match self.current() {
                Some(Token::Eq) => {
                    self.advance();
                    let right = match self.comparison() {
                        Ok(e) => e,
                        Err(e) => return Err(e),
                    };
                    left = Expr::Eq(Box::new(left), Box::new(right));
                },
                Some(Token::Ne) => {
                    self.advance();
                    let right = match self.comparison() {
                        Ok(e) => e,
                        Err(e) => return Err(e),
                    };
                    left = Expr::Ne(Box::new(left), Box::new(right));
                },
                _ => {
                    return Ok(left);
                },
            }
        }
    }

    fn comparison(&mut self) -> (r: Result<Expr, String>)
        requires
            old(self).wf(),
        ensures
            final(self).wf(),
            final(self).tokens == old(self).tokens,
            old(self).index <= final(self).index,
            r is Ok ==> old(self).index < final(self).index,
        decreases self.remaining(), 5int,
    {
        let mut left = match self.addition() {
            Ok(e) => e,
            Err(e) => return Err(e),
        };
        loop
            invariant
                self.wf(),
                self.tokens == old(self).tokens,
                old(self).index < self.index,
            decreases self.remaining(),
        {
            match self.current() {
                Some(Token::Greater) => {
                    self.advance();
                    let right = match self.addition() {
                        Ok(e) => e,
                        Err(e) => return Err(e),
                    };
                    left = Expr::Greater(Box::new(left), Box::new(right));
                },
                Some(Token::GreaterEqual) => {
                    self.advance();
                    let right = match self.addition() {
                        Ok(e) => e,
                        Err(e) => return Err(e),
                    };
                    left = Expr::GreaterEqual(Box::new(left), Box::new(right));
                },
                Some(Token::Less) => {
                    self.advance();
                    let right = match self.addition() {
                        Ok(e) => e,
                        Err(e) => return Err(e),
                    };
                    left = Expr::Less(Box::new(left), Box::new(right));
                },
                Some(Token::LessEqual) => {
                    self.advance();
                    let right = match self.addition() {
                        Ok(e) => e,
                        Err(e) => return Err(e),
                    };
                    left = Expr::LessEqual(Box::new(left), Box::new(right));
                },
                _ => {
                    return Ok(left);
                },
            }
        }
    }

    fn addition(&mut self) -> (r: Result<Expr, String>)
        requires
            old(self).wf(),
        ensures
            final(self).wf(),
            final(self).tokens == old(self).tokens,
            old(self).index <= final(self).index,
            r is Ok ==> old(self).index < final(self).index,
        decreases self.remaining(), 4int,
    {
        let mut left = match self.multiplication() {
            Ok(e) => e,
            Err(e) => return Err(e),
        };
        loop
            invariant
                self.wf(),
                self.tokens == old(self).tokens,
                old(self).index < self.index,
            decreases self.remaining(),
        {
            match self.current() {
                Some(Token::Plus) => {
                    self.advance();
                    let right = match self.multiplication() {
                        Ok(e) => e,
                        Err(e) => return Err(e),
                    };
                    left = Expr::Plus(Box::new(left), Box::new(right));
                },
                Some(Token::Minus) => {
                    self.advance();
                    let right = match self.multiplication() {
                        Ok(e) => e,
                        Err(e) => return Err(e),
                    };
                    left = Expr::Minus(Box::new(left), Box::new(right));
                },
                _ => {
                    return Ok(left);
                },
            }
        }
    }

    fn multiplication(&mut self) -> (r: Result<Expr, String>)
        requires
            old(self).wf(),
        ensures
            final(self).wf(),
            final(self).tokens == old(self).tokens,
            old(self).index <= final(self).index,
            r is Ok ==> old(self).index < final(self).index,
        decreases self.remaining(), 3int,
    {
        let mut left = match self.unary() {
            Ok(e) => e,
            Err(e) => return Err(e),
        };
        loop
            invariant
                self.wf(),
                self.tokens == old(self).tokens,
                old(self).index < self.index,
            decreases self.remaining(),
        {
            match self.current() {
                Some(Token::Star) => {
                    self.advance();
                    let right = match self.unary() {
                        Ok(e) => e,
                        Err(e) => return Err(e),
                    };
                    left = Expr::Multiply(Box::new(left), Box::new(right));
                },
                _ => {
                    return Ok(left);
                },
            }
        }
    }

    fn unary(&mut self) -> (r: Result<Expr, String>)
        requires
            old(self).wf(),
        ensures
            final(self).wf(),
            final(self).tokens == old(self).tokens,
            old(self).index <= final(self).index,
            r is Ok ==> old(self).index < final(self).index,
        decreases self.remaining(), 2int,
    {
        match self.current() {
            Some(Token::Minus) => {
                self.advance();
                let e = match self.unary() {
                    Ok(e) => e,
                    Err(e) => return Err(e),
                };
                // negation desugars to subtraction from zero
                Ok(Expr::Minus(Box::new(Expr::Number(0)), Box::new(e)))
            },
            _ => self.call(),
        }
    }

    fn call(&mut self) -> (r: Result<Expr, String>)
        requires
            old(self).wf(),
        ensures
            final(self).wf(),
            final(self).tokens == old(self).tokens,
            old(self).index <= final(self).index,
            r is Ok ==> old(self).index < final(self).index,
        decreases self.remaining(), 1int,
    {
        let mut expr = match self.primary() {
            Ok(e) => e,
            Err(e) => return Err(e),
        };
        loop
            invariant
                self.wf(),
                self.tokens == old(self).tokens,
                old(self).index < self.index,
            decreases self.remaining(),
        {
            match self.current() {
                Some(Token::OpenParen) => {
                    expr = match self.finish_call(expr) {
                        Ok(e) => e,
                        Err(e) => return Err(e),
                    };
                },
                Some(Token::OpenBracket) => {
                    self.advance();
                    let key = match self.expression() {
                        Ok(e) => e,
                        Err(e) => return Err(e),
                    };
                    match self.current() {
                        Some(Token::CloseBracket) => {
                            self.advance();
                        },
                        _ => {
                            return Err("expecting ] after index".to_owned());
                        },
                    }
                    expr = Expr::Get(Box::new(expr), Box::new(key));
                },
                Some(Token::Dot) => {
                    self.advance();
                    let name = match self.current() {
                        Some(Token::Identifier(n)) => n.clone(),
                        _ => {
                            return Err("expecting identifier after dot".to_owned());
                        },
                    };
                    self.advance();
                    expr = Expr::Get(Box::new(expr), Box::new(Expr::String(name)));
                },
                _ => {
                    return Ok(expr);
                },
            }
        }
    }

    fn expression_list(&mut self) -> (r: Result<Vec<Expr>, String>)
        requires
            old(self).wf(),
        ensures
            final(self).wf(),
            final(self).tokens == old(self).tokens,
            old(self).index <= final(self).index,
            r is Ok ==> old(self).index < final(self).index,
        decreases self.remaining(), 9int,
    {
        let mut list: Vec<Expr> = Vec::new();
        loop
            invariant_except_break
                self.wf(),
                self.tokens == old(self).tokens,
                old(self).index <= self.index,
            ensures
                self.wf(),
                self.tokens == old(self).tokens,
                old(self).index < self.index,
            decreases self.remaining(),
        {
            let e = match self.expression() {
                Ok(e) => e,
                Err(e) => return Err(e),
            };
            list.push(e);
            match self.current() {
                Some(Token::Comma) => {
                    self.advance();
                },
                _ => {
                    break ;
                },
            }
        }
        Ok(list)
    }

    /// Parses a call's argument list after the callee. A call whose callee
    /// is a property read parses as a method call, so the evaluator can
    /// hand the property's base to the callee as its receiver.
    fn finish_call(&mut self, expr: Expr) -> (r: Result<Expr, String>)
        requires
            old(self).wf(),
        ensures
            final(self).wf(),
            final(self).tokens == old(self).tokens,
            old(self).index <= final(self).index,
            r is Ok ==> old(self).index < final(self).index,
        decreases self.remaining(), 10int,
    {
        self.advance();
        let arguments = match self.current() {
            Some(Token::CloseParen) => Vec::new(),
            _ => match self.expression_list() {
                Ok(a) => a,
                Err(e) => return Err(e),
            },
        };
        match self.current() {
            Some(Token::CloseParen) => {
                self.advance();
                Ok(
                    match expr {
                        Expr::Get(base, key) => Expr::MethodCall(base, key, arguments),
                        e => Expr::Call(Box::new(e), arguments),
                    },
                )
            },
            _ => Err("expecting ) after call arguments".to_owned()),
        }
    }

    fn primary(&mut self) -> (r: Result<Expr, String>)
        requires
            old(self).wf(),
        ensures
            final(self).wf(),
            final(self).tokens == old(self).tokens,
            old(self).index <= final(self).index,
            r is Ok ==> old(self).index < final(self).index,
        decreases self.remaining(), 0int,
    {
        match self.current() {
            Some(Token::Identifier(n)) => {
                let name = n.clone();
                self.advance();
                Ok(Expr::Identifier(name))
            },
            Some(Token::Number(n)) => {
                let value = *n;
                self.advance();
                Ok(Expr::Number(value))
            },
            Some(Token::String(s)) => {
                let text = s.clone();
                self.advance();
                Ok(Expr::String(text))
            },
            Some(Token::True) => {
                self.advance();
                Ok(Expr::Boolean(true))
            },
            Some(Token::False) => {
                self.advance();
                Ok(Expr::Boolean(false))
            },
            Some(Token::OpenBracket) => {
                self.advance();
                self.array()
            },
            _ => Err("unexpected token".to_owned()),
        }
    }

    fn array(&mut self) -> (r: Result<Expr, String>)
        requires
            old(self).wf(),
        ensures
            final(self).wf(),
            final(self).tokens == old(self).tokens,
            old(self).index <= final(self).index,
            r is Ok ==> old(self).index < final(self).index,
        decreases self.remaining(), 10int,
    {
        let values = match self.current() {
            Some(Token::CloseBracket) => Vec::new(),
            _ => match self.expression_list() {
                Ok(v) => v,
                Err(e) => return Err(e),
            },
        };
        match self.current() {
            Some(Token::CloseBracket) => {
                self.advance();
                Ok(Expr::Array(values))
            },
            _ => Err("expecting ] after array literal".to_owned()),
        }
    }
}

} // verus!
