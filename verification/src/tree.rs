use vstd::prelude::*;

verus! {

/// The rules of the Ame grammar that the interpretation of a script looks at.
/// Every other rule of the grammar is `Other`.
#[derive(Debug, Clone, Copy, PartialEq, Eq, Structural)]
pub enum AmeRule {
    File,
    Decl,
    SetupConfig,
    Host,
    Port,
    User,
    Password,
    Database,
    Language,
    DelAll,
    Statement,
    WordDecl,
    LangCode,
    Variable,
    WordVal,
    Pos,
    EqDecl,
    IsADecl,
    PartOfDecl,
    AssociatedWithDecl,
    ShortWordDecl,
    ShortWord,
    ShortEqDecl,
    ShortIsADecl,
    ShortPartOfDecl,
    ShortAssociatedWithDecl,
    Eoi,
    Other,
}

/// A node of the parse tree of a script: the rule that matched, the text
/// that it matched, and the nodes of the rules matched inside it, in order.
#[derive(Debug)]
pub struct ParseNode {
    pub rule: AmeRule,
    pub text: String,
    pub children: Vec<ParseNode>,
}

impl ParseNode {
    /// A node with the given rule, text and children.
    pub fn new(rule: AmeRule, text: String, children: Vec<ParseNode>) -> (n: ParseNode)
        ensures
            n.rule == rule,
            n.text@ == text@,
            n.children@ == children@,
    {
        ParseNode { rule, text, children }
    }
}

} // verus!
