use vstd::prelude::*;

verus! {

/// One identifier token: its text and its position on one source line,
/// as a half-open column range `[start, end)`.
pub struct IdentTok {
    pub name: String,
    pub line: usize,
    pub start: usize,
    pub end: usize,
}

/// The recognized literal forms. `Other` stands for an opaque literal
/// form that the highlighter skips.
#[derive(Clone, Copy, PartialEq, Eq, Structural, Debug)]
pub enum LitKind {
    Str,
    ByteStr,
    Byte,
    Char,
    Int,
    Float,
    Bool,
    Other,
}

/// One literal token with its full span: it may begin and end on
/// different source lines.
pub struct LitTok {
    pub kind: LitKind,
    pub start_line: usize,
    pub start_col: usize,
    pub end_line: usize,
    pub end_col: usize,
}

/// One segment of a path: its identifier and any generic arguments
/// attached to it. `has_args` is true when an argument list is present
/// at all, even an empty one.
pub struct PathSeg {
    pub ident: IdentTok,
    pub has_args: bool,
    pub args: Vec<Node>,
}

/// A structural model of one syntax tree, keeping only what highlighting
/// reads: token kinds, token positions, identifier text, and the child
/// nodes in visitation order.
pub enum Node {
    /// A literal token.
    Lit(LitTok),
    /// A lone identifier occurrence outside any path.
    Ident(IdentTok),
    /// A path of one or more segments; `qualified` is true when the path
    /// begins with a leading path separator.
    Path { qualified: bool, segments: Vec<PathSeg> },
    /// A method call `receiver.name(args)`: the method-name token and the
    /// remaining children (receiver, generic arguments, arguments) in
    /// visitation order.
    MethodCall { name: IdentTok, children: Vec<Node> },
    /// A call `callee(args)`.
    Call { callee: Box<Node>, args: Vec<Node> },
    /// Any other construct: only its children matter.
    Group { children: Vec<Node> },
}

} // verus!
