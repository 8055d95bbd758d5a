//! Syntax trees.
//!
//! Floating-point literals are held by their IEEE-754 bit pattern.
use vstd::prelude::*;

verus! {

/// A whole script.
#[derive(Debug)]
pub struct Program {
    pub statements: Vec<Statement>,
}

/// How a variable was declared.
#[derive(Clone, Copy, Debug, PartialEq, Eq, Structural)]
pub enum VariableKind {
    Let,
    Const,
    Var,
}

#[allow(inconsistent_fields)]
#[derive(Debug)]
pub enum Statement {
    Let { name: String, value: Expression, kind: VariableKind },
    LetPattern { pattern: BindingPattern, value: Expression, kind: VariableKind },
    Return { value: Expression },
    ReturnVoid,
    Expression(Expression),
    Block(Vec<Statement>),
    /// `let a = 1, b = 2;`: several declarations in one statement.
    MultiLet(Vec<Statement>),
    While { condition: Expression, body: Vec<Statement> },
    DoWhile { body: Vec<Statement>, condition: Expression },
    For {
        init: Option<Box<Statement>>,
        condition: Option<Expression>,
        update: Option<Expression>,
        body: Vec<Statement>,
    },
    ForOf { binding: ForBinding, iterable: Expression, body: Vec<Statement> },
    ForIn { var_name: String, iterable: Expression, body: Vec<Statement> },
    FunctionDecl {
        name: String,
        parameters: Vec<String>,
        body: Vec<Statement>,
        is_async: bool,
        is_generator: bool,
    },
    ClassDecl {
        name: Option<String>,
        extends: Option<Box<Expression>>,
        members: Vec<ClassMember>,
    },
    Throw { value: Expression },
    Try {
        try_block: Vec<Statement>,
        catch_param: Option<String>,
        catch_block: Option<Vec<Statement>>,
        finally_block: Option<Vec<Statement>>,
    },
    Switch { discriminant: Expression, cases: Vec<SwitchCase> },
    Labeled { label: String, statement: Box<Statement> },
    Break { label: Option<String> },
    Continue { label: Option<String> },
    Debugger,
}

/// One `case` of a `switch`, or its `default` when there is no test.
#[derive(Debug)]
pub struct SwitchCase {
    pub test: Option<Expression>,
    pub consequent: Vec<Statement>,
}

/// The loop variable of a `for .. of`.
#[derive(Debug)]
pub enum ForBinding {
    Identifier(String),
    Pattern(BindingPattern),
}

/// A destructuring pattern.
#[derive(Debug)]
pub enum BindingPattern {
    Array(Vec<ArrayBindingItem>),
    Object(Vec<ObjectBindingItem>),
}

#[derive(Debug)]
pub enum ArrayBindingItem {
    Hole,
    Binding { target: BindingTarget, default_value: Option<Expression> },
    Rest { name: String },
}

#[derive(Debug)]
pub struct ObjectBindingItem {
    pub key: Expression,
    pub target: BindingTarget,
    pub default_value: Option<Expression>,
    pub is_rest: bool,
}

#[derive(Debug)]
pub enum BindingTarget {
    Identifier(String),
    Pattern(Box<BindingPattern>),
}

#[allow(inconsistent_fields)]
#[derive(Debug)]
pub enum ClassMember {
    Method(ClassMethod),
    Field { name: String, initializer: Option<Expression>, is_static: bool },
    StaticBlock { body: Vec<Statement> },
}

#[derive(Debug)]
pub struct ClassMethod {
    pub name: String,
    pub parameters: Vec<String>,
    pub body: Vec<Statement>,
    pub is_static: bool,
    pub is_getter: bool,
    pub is_setter: bool,
}

/// One entry of an object literal.
#[derive(Debug)]
pub enum HashEntry {
    KeyValue { key: Expression, value: Expression },
    Method {
        key: Expression,
        parameters: Vec<String>,
        body: Vec<Statement>,
        is_async: bool,
        is_generator: bool,
    },
    Getter { key: Expression, body: Vec<Statement> },
    Setter { key: Expression, parameter: String, body: Vec<Statement> },
    Spread(Expression),
}

#[allow(inconsistent_fields)]
#[derive(Debug)]
pub enum Expression {
    Integer(i64),
    Float(u64),
    String(String),
    RegExp { pattern: String, flags: String },
    Boolean(bool),
    Null,
    Identifier(String),
    This,
    Super,
    NewTarget,
    ImportMeta,
    Array(Vec<Expression>),
    Hash(Vec<HashEntry>),
    Prefix { operator: String, right: Box<Expression> },
    Typeof { value: Box<Expression> },
    Void { value: Box<Expression> },
    Delete { value: Box<Expression> },
    Await { value: Box<Expression> },
    Yield { value: Box<Expression>, delegate: bool },
    Spread { value: Box<Expression> },
    Sequence(Vec<Expression>),
    Infix { left: Box<Expression>, operator: String, right: Box<Expression> },
    Assign { left: Box<Expression>, operator: String, right: Box<Expression> },
    Update { target: Box<Expression>, operator: String, prefix: bool },
    If {
        condition: Box<Expression>,
        consequence: Vec<Statement>,
        alternative: Option<Vec<Statement>>,
    },
    Index { left: Box<Expression>, index: Box<Expression> },
    OptionalIndex { left: Box<Expression>, index: Box<Expression> },
    Call { function: Box<Expression>, arguments: Vec<Expression> },
    OptionalCall { function: Box<Expression>, arguments: Vec<Expression> },
    New { callee: Box<Expression>, arguments: Vec<Expression> },
    Function {
        parameters: Vec<String>,
        body: Vec<Statement>,
        is_async: bool,
        is_generator: bool,
        is_arrow: bool,
    },
    Class {
        name: Option<String>,
        extends: Option<Box<Expression>>,
        members: Vec<ClassMember>,
    },
}

} // verus!
