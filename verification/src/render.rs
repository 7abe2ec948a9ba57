//! The renderers: read-only traversals of an expression tree, to a fully
//! parenthesized infix string and to an indented tree diagram.

use vstd::prelude::*;
use vstd::string::StrSliceExecFns;
use vstd::string::StringExecFns;

use crate::ast::Expr;
use crate::ast::ExprModel;
use crate::tokenizer::push_char;

verus! {

/// The infix rendering: a number leaf is its digits; a binary node is
/// `( left op right )`, parenthesized whatever the precedence, so the
/// structure of the tree is explicit in the text.
pub open spec fn spec_infix(e: ExprModel) -> Seq<char>
    decreases e,
{
    match e {
        ExprModel::Num(text) => text,
        ExprModel::Bin { op, left, right } => seq!['('] + spec_infix(*left) + seq![' '] + seq![op]
            + seq![' '] + spec_infix(*right) + seq![')'],
    }
}

/// The label of one diagram line: the digits of a number leaf, or the
/// operator character of a binary node.
pub open spec fn spec_node_label(e: ExprModel) -> Seq<char> {
    match e {
        ExprModel::Num(text) => text,
        ExprModel::Bin { op, .. } => seq![op],
    }
}

/// The connector that starts a node's line: one for the last child at its
/// depth, another for an earlier child.
pub open spec fn spec_connector(is_last: bool) -> Seq<char> {
    if is_last {
        "└── "@
    } else {
        "├── "@
    }
}

/// What a node adds to the indentation of its children: blank space under a
/// last child, a continuation bar under an earlier one.
pub open spec fn spec_continuation(is_last: bool) -> Seq<char> {
    if is_last {
        "    "@
    } else {
        "│   "@
    }
}

/// The diagram lines of a node and its subtrees: the node's own line, then
/// the left child's lines, then the right child's; the left child is never
/// the last one, the right child always is.
pub open spec fn spec_node_lines(e: ExprModel, prefix: Seq<char>, is_last: bool) -> Seq<char>
    decreases e,
{
    let header = prefix + spec_connector(is_last) + spec_node_label(e) + seq!['\n'];
    match e {
        ExprModel::Num(_) => header,
        ExprModel::Bin { left, right, .. } => {
            let child_prefix = prefix + spec_continuation(is_last);
            header + spec_node_lines(*left, child_prefix, false) + spec_node_lines(
                *right,
                child_prefix,
                true,
            )
        },
    }
}

/// The whole diagram of a tree: its root is the last (and only) node at
/// depth zero.
pub open spec fn spec_tree_lines(e: ExprModel) -> Seq<char> {
    spec_node_lines(e, Seq::empty(), true)
}

impl Expr {
    /// Renders the expression in fully parenthesized infix form: exactly
    /// `spec_infix` of the tree.
    pub fn to_infix(&self) -> (r: String)
        ensures
            r@ == spec_infix(self@),
        decreases *self,
    {
        match self {
            Expr::Number(text) => text.clone(),
            Expr::BinaryOp { op, left, right } => {
                let mut out = String::from_str("(");
                let l = (&**left).to_infix();
                out.append(l.as_str());
                out.append(" ");
                push_char(&mut out, *op);
                out.append(" ");
                let rendered_right = (&**right).to_infix();
                out.append(rendered_right.as_str());
                out.append(")");
                proof {
                    reveal_strlit("(");
                    reveal_strlit(" ");
                    reveal_strlit(")");
                    assert(out@ =~= spec_infix(self@));
                }
                out
            },
        }
    }

    /// Renders the tree diagram, one line per node, ready to be written out.
    pub fn to_tree_string(&self) -> (r: String)
        ensures
            r@ == spec_tree_lines(self@),
    {
        let empty = String::new();
        Self::node_lines(self, &empty, true)
    }

    /// One node's line and, below it, the lines of its children, with
    /// `prefix` carrying the indentation inherited from the ancestors.
    fn node_lines(expr: &Expr, prefix: &String, is_last: bool) -> (r: String)
        ensures
            r@ == spec_node_lines(expr@, prefix@, is_last),
        decreases *expr,
    {
        let mut out = String::new();
        out.append(prefix.as_str());
        if is_last {
            out.append("└── ");
        } else {
            out.append("├── ");
        }
        match expr {
            Expr::Number(text) => {
                out.append(text.as_str());
                out.append("\n");
                proof {
                    reveal_strlit("\n");
                    assert(out@ =~= spec_node_lines(expr@, prefix@, is_last));
                }
            },
            Expr::BinaryOp { op, left, right } => {
                push_char(&mut out, *op);
                out.append("\n");
                let mut child_prefix = prefix.clone();
                if is_last {
                    child_prefix.append("    ");
                } else {
                    child_prefix.append("│   ");
                }
                let left_lines = Self::node_lines(&**left, &child_prefix, false);
                out.append(left_lines.as_str());
                let right_lines = Self::node_lines(&**right, &child_prefix, true);
                out.append(right_lines.as_str());
                proof {
                    reveal_strlit("\n");
                    assert(out@ =~= spec_node_lines(expr@, prefix@, is_last));
                }
            },
        }
        out
    }
}

} // verus!
