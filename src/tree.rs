//! The read-only semantic tree the host hands to the checks.
use vstd::prelude::*;
use crate::diagnostics::Span;
use crate::docs::CommentKind;

verus! {

/// The kind of an expression node.
#[derive(Debug)]
pub enum ExprKind {
    /// A call; the first child is the callee, the others are the arguments.
    Call,
    /// A method call; the first child is the receiver.
    MethodCall,
    /// A path expression, with the definition it resolves to when it names one.
    Path(Option<Vec<String>>),
    /// A block; its children are its statements, followed by its tail
    /// expression when it has one.
    Block { has_tail: bool },
    /// A literal.
    Lit,
    /// Any other expression.
    Other,
}

/// An expression node.
#[derive(Debug)]
pub struct Expr {
    pub kind: ExprKind,
    pub span: Span,
    /// The definition this expression dispatches to, when type resolution
    /// decides it (method calls and type-relative paths such as `T::iter`).
    pub dispatch: Option<Vec<String>>,
    /// The sub-expressions, in source order.
    pub children: Vec<Expr>,
}

/// The nodes of `e` in depth-first pre-order.
pub open spec fn preorder(e: Expr) -> Seq<Expr>
    decreases e,
{
    seq![e] + preorder_all(e.children@)
}

/// The nodes of each expression of `es` in turn, each in pre-order.
pub open spec fn preorder_all(es: Seq<Expr>) -> Seq<Expr>
    decreases es,
{
    if es.len() == 0 {
        seq![]
    } else {
        preorder_all(es.drop_last()) + preorder(es.last())
    }
}

/// An attribute of an item.
#[derive(Debug)]
pub enum Attribute {
    /// A doc comment: its style, its text without the delimiters, and the
    /// span of the whole comment.
    DocComment { kind: CommentKind, text: String, span: Span },
    /// A `#[doc = ...]` attribute written out rather than as a comment.
    RawDoc,
    /// Any other attribute.
    Other,
}

/// Whether each doc comment's span holds its three delimiter bytes and its text.
pub open spec fn attrs_wf(attrs: Seq<Attribute>) -> bool {
    forall|i: int|
        0 <= i < attrs.len() ==> match #[trigger] attrs[i] {
            Attribute::DocComment { kind, text, span } => span.lo + 3 + crate::text::byte_len(text@) <= span.hi,
            _ => true,
        }
}

/// The signature of a function, with the source text around it.
#[derive(Debug)]
pub struct FnSig {
    pub name: String,
    pub span: Span,
    /// The source line that holds the signature, when it can be read.
    pub line_text: Option<String>,
    /// The source text before the signature.
    pub preceding_text: String,
}

/// What an item declares.
#[derive(Debug)]
pub enum ItemKind {
    /// A function of an `impl` block.
    Method { sig: FnSig, body: Expr },
    /// Any other function.
    Fn { sig: FnSig, body: Expr },
    /// A type alias: the definition its type resolves to, and the
    /// definitions its generic type arguments resolve to.
    TyAlias { target: Option<Vec<String>>, type_args: Vec<Option<Vec<String>>> },
    /// Any other item.
    Other,
}

/// An item with its attributes.
#[derive(Debug)]
pub struct Item {
    pub attrs: Vec<Attribute>,
    pub span: Span,
    pub kind: ItemKind,
}

/// Whether the item's doc comments are well formed.
pub open spec fn item_wf(item: Item) -> bool {
    attrs_wf(item.attrs@)
}

} // verus!
