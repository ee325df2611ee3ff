use crate::expr::{Expr, ExprV};
use crate::literal::spec_render;
use vstd::prelude::*;
use vstd::string::StringExecFns;

verus! {

/// Renders an expression tree in a fully parenthesized prefix form:
/// `(<operator> <left> <right>)` for a binary node, `(<operator> <operand>)`
/// for a unary one, `(group <inner>)` for a grouping, and the literal's
/// canonical text for a leaf.
pub struct AstPrinter;

/// The prefix rendering of an expression tree.
pub open spec fn spec_print(e: ExprV) -> Seq<char>
    decreases e,
{
    match e {
        ExprV::Binary { left, operator, right } => "("@ + operator.lexeme + " "@ + spec_print(
            *left,
        ) + " "@ + spec_print(*right) + ")"@,
        ExprV::Unary { operator, right } => "("@ + operator.lexeme + " "@ + spec_print(*right)
            + ")"@,
        ExprV::Literal { value } => spec_render(value),
        ExprV::Grouping { inner } => "("@ + "group"@ + " "@ + spec_print(*inner) + ")"@,
    }
}

impl AstPrinter {
    pub fn print(&self, expr: &Expr) -> (s: String)
        ensures
            s@ == spec_print(expr@),
        decreases *expr,
    {
        match expr {
            Expr::Binary(d) => {
                let mut out = "(".to_owned();
                out.append(d.operator.lexeme.as_str());
                out.append(" ");
                let left = self.print(&d.left);
                out.append(left.as_str());
                out.append(" ");
                let right = self.print(&d.right);
                out.append(right.as_str());
                out.append(")");
                proof {
                    assert(out@ =~= spec_print(expr@));
                }
                out
            },
            Expr::Unary(d) => {
                let mut out = "(".to_owned();
                out.append(d.operator.lexeme.as_str());
                out.append(" ");
                let right = self.print(&d.right);
                out.append(right.as_str());
                out.append(")");
                proof {
                    assert(out@ =~= spec_print(expr@));
                }
                out
            },
            Expr::Literal(l) => l.render(),
            Expr::Grouping(d) => {
                let mut out = "(".to_owned();
                out.append("group");
                out.append(" ");
                let inner = self.print(&d.expression);
                out.append(inner.as_str());
                out.append(")");
                proof {
                    assert(out@ =~= spec_print(expr@));
                }
                out
            },
        }
    }
}

} // verus!
