use vstd::prelude::*;

verus! {

/// A literal value carried by an expression leaf. A number keeps the exact
/// digit text it was scanned from; a string keeps its contents, without the
/// surrounding quotes.
#[derive(Debug)]
pub enum Literal {
    Number(String),
    Str(String),
    Bool(bool),
    Nil,
}

/// The mathematical value of a literal.
pub enum LiteralV {
    Number(Seq<char>),
    Str(Seq<char>),
    Bool(bool),
    Nil,
}

impl View for Literal {
    type V = LiteralV;

    open spec fn view(&self) -> LiteralV {
        match self {
            Literal::Number(t) => LiteralV::Number(t@),
            Literal::Str(t) => LiteralV::Str(t@),
            Literal::Bool(b) => LiteralV::Bool(*b),
            Literal::Nil => LiteralV::Nil,
        }
    }
}

/// The canonical text of a literal: `nil`, `true`/`false`, a number's digit
/// text, or a string's raw contents.
pub open spec fn spec_render(l: LiteralV) -> Seq<char> {
    match l {
        LiteralV::Number(t) => t,
        LiteralV::Str(t) => t,
        LiteralV::Bool(b) => if b {
            "true"@
        } else {
            "false"@
        },
        LiteralV::Nil => "nil"@,
    }
}

impl Literal {
    /// The canonical text of this literal.
    pub fn render(&self) -> (s: String)
        ensures
            s@ == spec_render(self@),
    {
        match self {
            Literal::Number(t) => t.clone(),
            Literal::Str(t) => t.clone(),
            Literal::Bool(b) => if *b {
                "true".to_owned()
            } else {
                "false".to_owned()
            },
            Literal::Nil => "nil".to_owned(),
        }
    }
}

} // verus!
