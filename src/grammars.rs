//! Grammars: one state machine per kind of line. Each consumes one token per step, reports at
//! most one problem per token, and ignores every step once it is done. A problem of class
//! `Error` always ends the machine as invalid.
use vstd::prelude::*;

use crate::compiler_errors::{problem, opt_problem_view, CompilerProblem, ProblemClass, ProblemView};
use crate::lex::{banned_rhs, expression_symbol, symbol_name, token_views, Symbol, Token, TokenView};
use crate::parse::{type_of, variable_views, PrimitiveDataType, Variable, VariableView};
use crate::permissions::{permission_of, Permissions};
use crate::properties::{property_of, Properties};
use crate::text::{concat2, concat3, concat5, str_contains_char};

verus! {

/// The grammar of one line, chosen by the line's first token.
#[derive(Debug)]
pub enum Grammar {
    Empty,
    Import(GrammarImports),
    Function(GrammarFunctionDeclaration),
    Property(GrammarProperty),
    Permission(GrammarPermissions),
    VariableAssignment(GrammarVariableAssignments),
    Return,
    Expression(GrammarExpression),
}

/// What a grammar holds, variant by variant.
pub enum GrammarView {
    Empty,
    Import(ImportsView),
    Function(FunctionView),
    Property(PropertyView),
    Permission(PermissionsView),
    VariableAssignment(AssignmentView),
    Return,
    Expression(ExpressionView),
}

impl View for Grammar {
    type V = GrammarView;

    open spec fn view(&self) -> GrammarView {
        match self {
            Grammar::Empty => GrammarView::Empty,
            Grammar::Import(g) => GrammarView::Import(g@),
            Grammar::Function(g) => GrammarView::Function(g@),
            Grammar::Property(g) => GrammarView::Property(g@),
            Grammar::Permission(g) => GrammarView::Permission(g@),
            Grammar::VariableAssignment(g) => GrammarView::VariableAssignment(g@),
            Grammar::Return => GrammarView::Return,
            Grammar::Expression(g) => GrammarView::Expression(g@),
        }
    }
}

/// The grammar that a line starting with the given symbol gets.
pub open spec fn initial_grammar(symbol: Symbol) -> GrammarView {
    if symbol == Symbol::Import {
        GrammarView::Import(imports_initial())
    } else if symbol == Symbol::FunctionDeclare {
        GrammarView::Function(function_initial())
    } else if symbol == Symbol::PropertyDeclaration {
        GrammarView::Property(property_initial())
    } else if symbol == Symbol::PermissionsDeclaration {
        GrammarView::Permission(permissions_initial())
    } else if symbol == Symbol::Let || symbol == Symbol::Reassign {
        GrammarView::VariableAssignment(assignment_initial(symbol))
    } else if symbol == Symbol::Return {
        GrammarView::Return
    } else if expression_symbol(symbol) {
        GrammarView::Expression(expression_initial())
    } else {
        GrammarView::Empty
    }
}

/// One step of a grammar: the new state and the problem with the token, if any.
pub open spec fn grammar_step(g: GrammarView, t: TokenView) -> (GrammarView, Option<ProblemView>) {
    match g {
        GrammarView::Import(h) => {
            let (n, p) = import_step(h, t);
            (GrammarView::Import(n), p)
        },
        GrammarView::Function(h) => {
            let (n, p) = function_step(h, t);
            (GrammarView::Function(n), p)
        },
        GrammarView::Property(h) => {
            let (n, p) = property_step(h, t);
            (GrammarView::Property(n), p)
        },
        GrammarView::Permission(h) => {
            let (n, p) = permissions_step(h, t);
            (GrammarView::Permission(n), p)
        },
        GrammarView::VariableAssignment(h) => {
            let (n, p) = assignment_step(h, t);
            (GrammarView::VariableAssignment(n), p)
        },
        GrammarView::Expression(h) => {
            let (n, p) = expression_step(h, t);
            (GrammarView::Expression(n), p)
        },
        _ => (g, None),
    }
}

/// Whether a grammar has finished: `Empty` and `Return` are finished from the start.
pub open spec fn grammar_done(g: GrammarView) -> bool {
    match g {
        GrammarView::Empty => true,
        GrammarView::Import(h) => h.done,
        GrammarView::Function(h) => h.done,
        GrammarView::Property(h) => h.done,
        GrammarView::Permission(h) => h.done,
        GrammarView::VariableAssignment(h) => h.done,
        GrammarView::Return => true,
        GrammarView::Expression(h) => h.done,
    }
}

impl Grammar {
    pub fn new(symbol: Symbol) -> (r: Grammar)
        ensures
            r@ == initial_grammar(symbol),
    {
        match symbol {
            Symbol::Import => Grammar::Import(GrammarImports::new()),
            Symbol::FunctionDeclare => Grammar::Function(GrammarFunctionDeclaration::new()),
            Symbol::PropertyDeclaration => Grammar::Property(GrammarProperty::new()),
            Symbol::PermissionsDeclaration => Grammar::Permission(GrammarPermissions::new()),
            Symbol::Let | Symbol::Reassign => {
                Grammar::VariableAssignment(GrammarVariableAssignments::new(symbol))
            },
            Symbol::Return => Grammar::Return,
            _ => {
                if symbol.is_expression_token() {
                    Grammar::Expression(GrammarExpression::new())
                } else {
                    Grammar::Empty
                }
            },
        }
    }

    /// Steps the grammar on one token, returning the problem with it, if any. A finished
    /// grammar is left as it is.
    pub fn step(&mut self, token: &Token) -> (r: Option<CompilerProblem>)
        ensures
            (final(self)@, opt_problem_view(r)) == grammar_step(old(self)@, token@),
            grammar_done(old(self)@) ==> final(self)@ == old(self)@ && r is None,
    {
        match self {
            Grammar::Empty => None,
            Grammar::Import(g) => g.step(token),
            Grammar::Function(g) => g.step(token),
            Grammar::Property(g) => g.step(token),
            Grammar::Permission(g) => g.step(token),
            Grammar::VariableAssignment(g) => g.step(token),
            Grammar::Return => None,
            Grammar::Expression(g) => g.step(token),
        }
    }

    pub fn is_done(&self) -> (r: bool)
        ensures
            r == grammar_done(self@),
    {
        match self {
            Grammar::Empty => true,
            Grammar::Import(g) => g.done,
            Grammar::Function(g) => g.done,
            Grammar::Property(g) => g.done,
            Grammar::Permission(g) => g.done,
            Grammar::VariableAssignment(g) => g.done,
            Grammar::Return => true,
            Grammar::Expression(g) => g.done,
        }
    }
}

/// A newline finishes every grammar that is still running.
pub proof fn lemma_newline_ends_grammar(g: GrammarView, t: TokenView)
    requires
        t.symbol == Symbol::Newline,
    ensures
        grammar_done(grammar_step(g, t).0),
{
}

// -------------------- Grammar: Imports --------------------

/// The states of the import grammar.
#[derive(Debug, Clone, Copy, PartialEq, Eq, Structural)]
pub enum StagesImport {
    Initialized,
    ProcessingArguments,
    ProcessingFile,
}

/// The grammar for importing a file, or named items from a file.
#[derive(Debug)]
pub struct GrammarImports {
    pub is_valid: bool,
    pub done: bool,
    pub stage: StagesImport,
    pub arguments: Option<Vec<Token>>,
    pub file: String,
}

/// What an import grammar holds, with texts as characters.
pub struct ImportsView {
    pub is_valid: bool,
    pub done: bool,
    pub stage: StagesImport,
    pub arguments: Option<Seq<TokenView>>,
    pub file: Seq<char>,
}

impl View for GrammarImports {
    type V = ImportsView;

    open spec fn view(&self) -> ImportsView {
        ImportsView {
            is_valid: self.is_valid,
            done: self.done,
            stage: self.stage,
            arguments: match self.arguments {
                Some(v) => Some(token_views(v@)),
                None => None,
            },
            file: self.file@,
        }
    }
}

/// A fresh import grammar.
pub open spec fn imports_initial() -> ImportsView {
    ImportsView {
        is_valid: true,
        done: false,
        stage: StagesImport::Initialized,
        arguments: None,
        file: "unknown"@,
    }
}

/// The import grammar ended as invalid.
pub open spec fn import_failed(g: ImportsView) -> ImportsView {
    ImportsView { is_valid: false, done: true, ..g }
}

/// One step of the import grammar: the new state and the problem with the token, if any.
pub open spec fn import_step(g: ImportsView, t: TokenView) -> (ImportsView, Option<ProblemView>) {
    if g.done {
        (g, None)
    } else {
        match g.stage {
            StagesImport::Initialized => if t.text.contains('.') {
                (ImportsView { file: t.text, done: true, ..g }, None)
            } else if t.symbol == Symbol::Value {
                (
                    ImportsView {
                        stage: StagesImport::ProcessingArguments,
                        arguments: Some(seq![t]),
                        ..g
                    },
                    None,
                )
            } else {
                (
                    import_failed(g),
                    Some(
                        problem(
                            ProblemClass::Error,
                            "imported item is a reserved keyword"@,
                            "check your imports"@,
                            t.line,
                            t.word,
                        ),
                    ),
                )
            },
            StagesImport::ProcessingArguments => if t.symbol == Symbol::From {
                (ImportsView { stage: StagesImport::ProcessingFile, ..g }, None)
            } else if t.symbol == Symbol::Value {
                let args = match g.arguments {
                    Some(a) => a,
                    None => Seq::empty(),
                };
                (ImportsView { arguments: Some(args.push(t)), ..g }, None)
            } else {
                (
                    import_failed(g),
                    Some(
                        problem(
                            ProblemClass::Error,
                            "expected the name of an item but received a keyword: "@ + t.text,
                            "check your imports"@,
                            t.line,
                            t.word,
                        ),
                    ),
                )
            },
            StagesImport::ProcessingFile => if t.symbol == Symbol::Value {
                (ImportsView { file: t.text, done: true, ..g }, None)
            } else {
                (
                    import_failed(g),
                    Some(
                        problem(
                            ProblemClass::Error,
                            "expected the name of a library but received a keyword: "@ + t.text,
                            "check your imports"@,
                            t.line,
                            t.word,
                        ),
                    ),
                )
            },
        }
    }
}

impl GrammarImports {
    pub fn new() -> (r: GrammarImports)
        ensures
            r@ == imports_initial(),
    {
        GrammarImports {
            is_valid: true,
            done: false,
            stage: StagesImport::Initialized,
            arguments: None,
            file: String::from_str("unknown"),
        }
    }

    pub fn step(&mut self, next: &Token) -> (r: Option<CompilerProblem>)
        ensures
            (final(self)@, opt_problem_view(r)) == import_step(old(self)@, next@),
    {
        if self.done {
            return None;
        }
        match self.stage {
            StagesImport::Initialized => {
                if str_contains_char(next.text.as_str(), '.') {
                    self.file = next.text.clone();
                    self.done = true;
                    None
                } else if next.symbol == Symbol::Value {
                    self.stage = StagesImport::ProcessingArguments;
                    let mut args: Vec<Token> = Vec::new();
                    args.push(next.duplicate());
                    proof {
                        assert(token_views(args@) =~= seq![next@]);
                    }
                    self.arguments = Some(args);
                    None
                } else {
                    self.is_valid = false;
                    self.done = true;
                    Some(
                        CompilerProblem::new(
                            ProblemClass::Error,
                            "imported item is a reserved keyword",
                            "check your imports",
                            next.line,
                            next.word,
                        ),
                    )
                }
            },
            StagesImport::ProcessingArguments => {
                if next.symbol == Symbol::From {
                    self.stage = StagesImport::ProcessingFile;
                    None
                } else if next.symbol == Symbol::Value {
                    let ghost old_args: Seq<TokenView> = match self@.arguments {
                        Some(a) => a,
                        None => Seq::empty(),
                    };
                    let mut args = match self.arguments.take() {
                        Some(a) => a,
                        None => Vec::new(),
                    };
                    assert(token_views(args@) =~= old_args);
                    let ghost before = args@;
                    args.push(next.duplicate());
                    proof {
                        assert(token_views(args@) =~= token_views(before).push(next@));
                    }
                    self.arguments = Some(args);
                    None
                } else {
                    self.is_valid = false;
                    self.done = true;
                    Some(
                        CompilerProblem::with_message(
                            ProblemClass::Error,
                            concat2(
                                "expected the name of an item but received a keyword: ",
                                next.text.as_str(),
                            ),
                            "check your imports",
                            next.line,
                            next.word,
                        ),
                    )
                }
            },
            StagesImport::ProcessingFile => {
                if next.symbol == Symbol::Value {
                    self.file = next.text.clone();
                    self.done = true;
                    None
                } else {
                    self.is_valid = false;
                    self.done = true;
                    Some(
                        CompilerProblem::with_message(
                            ProblemClass::Error,
                            concat2(
                                "expected the name of a library but received a keyword: ",
                                next.text.as_str(),
                            ),
                            "check your imports",
                            next.line,
                            next.word,
                        ),
                    )
                }
            },
        }
    }
}

// -------------------- Grammar: Functions --------------------

/// The states of the function grammar.
#[derive(Debug, Clone, Copy, PartialEq, Eq, Structural)]
pub enum StagesFunction {
    Initialized,
    NameProcessed,
    SeekingArguments,
    SeekingBracket,
    SeekingNewLine,
}

/// The grammar for a function declaration, `fn name :: a T1 -> b T2 -> R {` or `fn name {`,
/// followed by the end of its line.
#[derive(Debug)]
pub struct GrammarFunctionDeclaration {
    pub is_valid: bool,
    pub done: bool,
    pub stage: StagesFunction,
    pub last_symbol: Symbol,
    pub fn_name: String,
    pub arguments: Vec<Variable>,
    pub return_type: PrimitiveDataType,
}

/// What a function grammar holds, with texts as characters.
pub struct FunctionView {
    pub is_valid: bool,
    pub done: bool,
    pub stage: StagesFunction,
    pub last_symbol: Symbol,
    pub fn_name: Seq<char>,
    pub arguments: Seq<VariableView>,
    pub return_type: PrimitiveDataType,
}

impl View for GrammarFunctionDeclaration {
    type V = FunctionView;

    open spec fn view(&self) -> FunctionView {
        FunctionView {
            is_valid: self.is_valid,
            done: self.done,
            stage: self.stage,
            last_symbol: self.last_symbol,
            fn_name: self.fn_name@,
            arguments: variable_views(self.arguments@),
            return_type: self.return_type,
        }
    }
}

/// A fresh function grammar.
pub open spec fn function_initial() -> FunctionView {
    FunctionView {
        is_valid: true,
        done: false,
        stage: StagesFunction::Initialized,
        last_symbol: Symbol::FunctionDeclare,
        fn_name: "undefined"@,
        arguments: Seq::empty(),
        return_type: PrimitiveDataType::Void,
    }
}

/// The name of the most recent argument, empty if there is none.
pub open spec fn last_argument_name(g: FunctionView) -> Seq<char> {
    if g.arguments.len() > 0 {
        g.arguments.last().name
    } else {
        Seq::empty()
    }
}

/// The arguments with the type of the most recent one set.
pub open spec fn with_last_type(args: Seq<VariableView>, d: PrimitiveDataType) -> Seq<VariableView> {
    if args.len() > 0 {
        args.update(args.len() - 1, VariableView { data_type: d, ..args.last() })
    } else {
        args
    }
}

/// The function grammar ended as invalid, with the error it reports.
pub open spec fn function_failed(
    g: FunctionView,
    message: Seq<char>,
    hint: Seq<char>,
    t: TokenView,
) -> (FunctionView, Option<ProblemView>) {
    (
        FunctionView { is_valid: false, done: true, ..g },
        Some(problem(ProblemClass::Error, message, hint, t.line, t.word)),
    )
}

/// The function grammar's transition on a token, before it records the token's symbol.
pub open spec fn function_transition(g: FunctionView, t: TokenView) -> (
    FunctionView,
    Option<ProblemView>,
) {
    match g.stage {
        StagesFunction::Initialized => if t.symbol == Symbol::Value {
            if vstd::utf8::is_ascii_chars(t.text) {
                (FunctionView { fn_name: t.text, stage: StagesFunction::NameProcessed, ..g }, None)
            } else {
                function_failed(
                    g,
                    "function name is not valid ASCII"@,
                    "choose a different function name"@,
                    t,
                )
            }
        } else {
            function_failed(g, "function name is missing"@, "choose a name for this function"@, t)
        },
        StagesFunction::NameProcessed => if t.symbol == Symbol::BraceOpen {
            (FunctionView { done: true, ..g }, None)
        } else if t.symbol == Symbol::DoubleColon {
            (FunctionView { stage: StagesFunction::SeekingArguments, ..g }, None)
        } else {
            function_failed(
                g,
                "expected a '::' (if it has args) or a '{' (if it doesn't have args) after the function name, but received '"@
                    + t.text + "'."@,
                "functions should look like this: `fn foo :: a int -> int`"@,
                t,
            )
        },
        StagesFunction::SeekingArguments => if g.last_symbol == Symbol::Value {
            match type_of(t.symbol) {
                Some(d) => if d == PrimitiveDataType::Void {
                    function_failed(
                        g,
                        "argument type for '"@ + last_argument_name(g) + "' cannot be 'void'."@,
                        "the `void` keyword is only valid as a return type"@,
                        t,
                    )
                } else {
                    (FunctionView { arguments: with_last_type(g.arguments, d), ..g }, None)
                },
                None => function_failed(
                    g,
                    "argument '"@ + last_argument_name(g) + "' has no type information."@,
                    "add a type for this argument"@,
                    t,
                ),
            }
        } else if type_of(g.last_symbol) is Some {
            if t.symbol == Symbol::RightArrow {
                (g, None)
            } else {
                function_failed(
                    g,
                    "missing a '->' after argument '"@ + last_argument_name(g) + "'."@,
                    "add a `->` to separate two arguments"@,
                    t,
                )
            }
        } else {
            match type_of(t.symbol) {
                Some(d) => (
                    FunctionView { return_type: d, stage: StagesFunction::SeekingBracket, ..g },
                    None,
                ),
                None => if t.symbol == Symbol::Value {
                    (
                        FunctionView {
                            arguments: g.arguments.push(
                                VariableView {
                                    name: t.text,
                                    data_type: PrimitiveDataType::Void,
                                    value: None,
                                },
                            ),
                            ..g
                        },
                        None,
                    )
                } else {
                    function_failed(
                        g,
                        "expected an argument name or a return type, but received '"@ + t.text
                            + "'."@,
                        "check your function arguments."@,
                        t,
                    )
                },
            }
        },
        StagesFunction::SeekingBracket => if t.symbol == Symbol::BraceOpen {
            (FunctionView { stage: StagesFunction::SeekingNewLine, ..g }, None)
        } else {
            function_failed(
                g,
                "expected '{', but received '"@ + t.text + "'."@,
                "check your function arguments."@,
                t,
            )
        },
        StagesFunction::SeekingNewLine => if t.symbol == Symbol::Newline {
            (FunctionView { done: true, ..g }, None)
        } else {
            function_failed(
                g,
                "expected new line, but received '"@ + t.text + "'."@,
                "check your function arguments."@,
                t,
            )
        },
    }
}

/// One step of the function grammar: the new state and the problem with the token, if any.
pub open spec fn function_step(g: FunctionView, t: TokenView) -> (FunctionView, Option<ProblemView>) {
    if g.done {
        (g, None)
    } else {
        let (h, p) = function_transition(g, t);
        (FunctionView { last_symbol: t.symbol, ..h }, p)
    }
}

impl GrammarFunctionDeclaration {
    pub fn new() -> (r: GrammarFunctionDeclaration)
        ensures
            r@ == function_initial(),
    {
        let r = GrammarFunctionDeclaration {
            is_valid: true,
            done: false,
            stage: StagesFunction::Initialized,
            last_symbol: Symbol::FunctionDeclare,
            fn_name: String::from_str("undefined"),
            arguments: Vec::new(),
            return_type: PrimitiveDataType::Void,
        };
        assert(r@.arguments =~= Seq::empty());
        r
    }

    /// The name of the most recent argument, empty if there is none.
    fn last_argument_name(&self) -> (r: String)
        ensures
            r@ == last_argument_name(self@),
    {
        if self.arguments.len() > 0 {
            self.arguments[self.arguments.len() - 1].name.clone()
        } else {
            String::new()
        }
    }

    fn fail(&mut self, message: String, hint: &str, next: &Token) -> (r: Option<CompilerProblem>)
        ensures
            (final(self)@, opt_problem_view(r)) == function_failed(
                old(self)@,
                message@,
                hint@,
                next@,
            ),
    {
        self.is_valid = false;
        self.done = true;
        Some(CompilerProblem::with_message(ProblemClass::Error, message, hint, next.line, next.word))
    }

    fn transition(&mut self, next: &Token) -> (r: Option<CompilerProblem>)
        ensures
            (final(self)@, opt_problem_view(r)) == function_transition(old(self)@, next@),
    {
        match self.stage {
            StagesFunction::Initialized => {
                if next.symbol == Symbol::Value {
                    if next.text.is_ascii() {
                        self.fn_name = next.text.clone();
                        self.stage = StagesFunction::NameProcessed;
                        None
                    } else {
                        self.fail(
                            String::from_str("function name is not valid ASCII"),
                            "choose a different function name",
                            next,
                        )
                    }
                } else {
                    self.fail(
                        String::from_str("function name is missing"),
                        "choose a name for this function",
                        next,
                    )
                }
            },
            StagesFunction::NameProcessed => {
                if next.symbol == Symbol::BraceOpen {
                    self.done = true;
                    None
                } else if next.symbol == Symbol::DoubleColon {
                    self.stage = StagesFunction::SeekingArguments;
                    None
                } else {
                    self.fail(
                        concat3(
                            "expected a '::' (if it has args) or a '{' (if it doesn't have args) after the function name, but received '",
                            next.text.as_str(),
                            "'.",
                        ),
                        "functions should look like this: `fn foo :: a int -> int`",
                        next,
                    )
                }
            },
            StagesFunction::SeekingArguments => {
                if self.last_symbol == Symbol::Value {
                    match PrimitiveDataType::from_symbol(next.symbol) {
                        Some(d) => {
                            if d == PrimitiveDataType::Void {
                                let name = self.last_argument_name();
                                self.fail(
                                    concat3(
                                        "argument type for '",
                                        name.as_str(),
                                        "' cannot be 'void'.",
                                    ),
                                    "the `void` keyword is only valid as a return type",
                                    next,
                                )
                            } else {
                                let ghost before = self.arguments@;
                                match self.arguments.pop() {
                                    Some(mut v) => {
                                        v.data_type = d;
                                        self.arguments.push(v);
                                        proof {
                                            assert(variable_views(self.arguments@) =~= with_last_type(
                                                variable_views(before),
                                                d,
                                            ));
                                        }
                                    },
                                    None => {},
                                }
                                None
                            }
                        },
                        None => {
                            let name = self.last_argument_name();
                            self.fail(
                                concat3("argument '", name.as_str(), "' has no type information."),
                                "add a type for this argument",
                                next,
                            )
                        },
                    }
                } else if PrimitiveDataType::from_symbol(self.last_symbol).is_some() {
                    if next.symbol == Symbol::RightArrow {
                        None
                    } else {
                        let name = self.last_argument_name();
                        self.fail(
                            concat3("missing a '->' after argument '", name.as_str(), "'."),
                            "add a `->` to separate two arguments",
                            next,
                        )
                    }
                } else {
                    match PrimitiveDataType::from_symbol(next.symbol) {
                        Some(d) => {
                            self.return_type = d;
                            self.stage = StagesFunction::SeekingBracket;
                            None
                        },
                        None => {
                            if next.symbol == Symbol::Value {
                                let ghost before = self.arguments@;
                                let v = Variable {
                                    name: next.text.clone(),
                                    data_type: PrimitiveDataType::Void,
                                    value: None,
                                };
                                self.arguments.push(v);
                                proof {
                                    assert(variable_views(self.arguments@) =~= variable_views(
                                        before,
                                    ).push(v@));
                                }
                                None
                            } else {
                                self.fail(
                                    concat3(
                                        "expected an argument name or a return type, but received '",
                                        next.text.as_str(),
                                        "'.",
                                    ),
                                    "check your function arguments.",
                                    next,
                                )
                            }
                        },
                    }
                }
            },
            StagesFunction::SeekingBracket => {
                if next.symbol == Symbol::BraceOpen {
                    self.stage = StagesFunction::SeekingNewLine;
                    None
                } else {
                    self.fail(
                        concat3("expected '{', but received '", next.text.as_str(), "'."),
                        "check your function arguments.",
                        next,
                    )
                }
            },
            StagesFunction::SeekingNewLine => {
                if next.symbol == Symbol::Newline {
                    self.done = true;
                    None
                } else {
                    self.fail(
                        concat3("expected new line, but received '", next.text.as_str(), "'."),
                        "check your function arguments.",
                        next,
                    )
                }
            },
        }
    }

    /// Steps the state machine on one token, returning the problem with it, if any.
    pub fn step(&mut self, next: &Token) -> (r: Option<CompilerProblem>)
        ensures
            (final(self)@, opt_problem_view(r)) == function_step(old(self)@, next@),
    {
        if self.done {
            return None;
        }
        let r = self.transition(next);
        self.last_symbol = next.symbol;
        r
    }
}

/// The function grammar after the given tokens.
pub open spec fn feed_function(g: FunctionView, toks: Seq<TokenView>) -> FunctionView
    decreases toks.len(),
{
    if toks.len() == 0 {
        g
    } else {
        function_step(feed_function(g, toks.drop_last()), toks.last()).0
    }
}

/// Whether the function grammar reports no problem on any of the given tokens.
pub open spec fn feed_function_quiet(g: FunctionView, toks: Seq<TokenView>) -> bool {
    forall|k: int|
        0 <= k < toks.len() ==> (#[trigger] function_step(feed_function(g, toks.take(k)), toks[k])).1
            is None
}

/// Whether a symbol names a type that an argument may have.
pub open spec fn argument_type_symbol(s: Symbol) -> bool {
    type_of(s) is Some && type_of(s) != Some(PrimitiveDataType::Void)
}

/// The tokens after `fn` of a declaration with `m` arguments,
/// `NAME :: a1 T1 -> ... -> am Tm -> R {` and its newline.
pub open spec fn is_declaration_chain(toks: Seq<TokenView>, m: int) -> bool {
    &&& m >= 0
    &&& toks.len() == 3 * m + 5
    &&& toks[0].symbol == Symbol::Value
    &&& vstd::utf8::is_ascii_chars(toks[0].text)
    &&& toks[1].symbol == Symbol::DoubleColon
    &&& forall|k: int|
        0 <= k < m ==> (#[trigger] toks[3 * k + 2]).symbol == Symbol::Value
            && argument_type_symbol(toks[3 * k + 3].symbol) && toks[3 * k + 4].symbol
            == Symbol::RightArrow
    &&& type_of(toks[3 * m + 2].symbol) is Some
    &&& toks[3 * m + 3].symbol == Symbol::BraceOpen
    &&& toks[3 * m + 4].symbol == Symbol::Newline
}

/// The arguments that the first `k` links of a declaration chain declare, in order.
pub open spec fn chain_arguments(toks: Seq<TokenView>, k: int) -> Seq<VariableView> {
    Seq::new(
        k as nat,
        |j: int|
            VariableView {
                name: toks[3 * j + 2].text,
                data_type: type_of(toks[3 * j + 3].symbol)->0,
                value: None,
            },
    )
}

proof fn lemma_step_name(g: FunctionView, t: TokenView)
    requires
        g.stage == StagesFunction::Initialized,
        !g.done,
        t.symbol == Symbol::Value,
        vstd::utf8::is_ascii_chars(t.text),
    ensures
        function_step(g, t).1 is None,
        function_step(g, t).0 == (FunctionView {
            fn_name: t.text,
            stage: StagesFunction::NameProcessed,
            last_symbol: t.symbol,
            ..g
        }),
{
}

proof fn lemma_step_colon(g: FunctionView, t: TokenView)
    requires
        g.stage == StagesFunction::NameProcessed,
        !g.done,
        t.symbol == Symbol::DoubleColon,
    ensures
        function_step(g, t).1 is None,
        function_step(g, t).0 == (FunctionView {
            stage: StagesFunction::SeekingArguments,
            last_symbol: t.symbol,
            ..g
        }),
{
}

proof fn lemma_step_argument_name(g: FunctionView, t: TokenView)
    requires
        g.stage == StagesFunction::SeekingArguments,
        !g.done,
        g.last_symbol == Symbol::DoubleColon || g.last_symbol == Symbol::RightArrow,
        t.symbol == Symbol::Value,
    ensures
        function_step(g, t).1 is None,
        function_step(g, t).0 == (FunctionView {
            arguments: g.arguments.push(
                VariableView { name: t.text, data_type: PrimitiveDataType::Void, value: None },
            ),
            last_symbol: t.symbol,
            ..g
        }),
{
}

proof fn lemma_step_argument_type(g: FunctionView, t: TokenView)
    requires
        g.stage == StagesFunction::SeekingArguments,
        !g.done,
        g.last_symbol == Symbol::Value,
        argument_type_symbol(t.symbol),
    ensures
        function_step(g, t).1 is None,
        function_step(g, t).0 == (FunctionView {
            arguments: with_last_type(g.arguments, type_of(t.symbol)->0),
            last_symbol: t.symbol,
            ..g
        }),
{
}

proof fn lemma_step_arrow(g: FunctionView, t: TokenView)
    requires
        g.stage == StagesFunction::SeekingArguments,
        !g.done,
        argument_type_symbol(g.last_symbol),
        t.symbol == Symbol::RightArrow,
    ensures
        function_step(g, t).1 is None,
        function_step(g, t).0 == (FunctionView { last_symbol: t.symbol, ..g }),
{
}

proof fn lemma_step_return_type(g: FunctionView, t: TokenView)
    requires
        g.stage == StagesFunction::SeekingArguments,
        !g.done,
        g.last_symbol == Symbol::DoubleColon || g.last_symbol == Symbol::RightArrow,
        type_of(t.symbol) is Some,
    ensures
        function_step(g, t).1 is None,
        function_step(g, t).0 == (FunctionView {
            return_type: type_of(t.symbol)->0,
            stage: StagesFunction::SeekingBracket,
            last_symbol: t.symbol,
            ..g
        }),
{
}

proof fn lemma_step_brace(g: FunctionView, t: TokenView)
    requires
        g.stage == StagesFunction::SeekingBracket,
        !g.done,
        t.symbol == Symbol::BraceOpen,
    ensures
        function_step(g, t).1 is None,
        function_step(g, t).0 == (FunctionView {
            stage: StagesFunction::SeekingNewLine,
            last_symbol: t.symbol,
            ..g
        }),
{
}

proof fn lemma_step_newline(g: FunctionView, t: TokenView)
    requires
        g.stage == StagesFunction::SeekingNewLine,
        !g.done,
        t.symbol == Symbol::Newline,
    ensures
        function_step(g, t).1 is None,
        function_step(g, t).0 == (FunctionView { done: true, last_symbol: t.symbol, ..g }),
{
}

/// Three more tokens of a feed, one step at a time.
proof fn lemma_feed_three(g: FunctionView, toks: Seq<TokenView>, n: int)
    requires
        3 <= n <= toks.len(),
    ensures
        feed_function(g, toks.take(n)) == function_step(
            function_step(
                function_step(feed_function(g, toks.take(n - 3)), toks[n - 3]).0,
                toks[n - 2],
            ).0,
            toks[n - 1],
        ).0,
{
    lemma_feed_one(g, toks, n);
    lemma_feed_one(g, toks, n - 1);
    lemma_feed_one(g, toks, n - 2);
}

/// One more token of a feed.
proof fn lemma_feed_one(g: FunctionView, toks: Seq<TokenView>, n: int)
    requires
        1 <= n <= toks.len(),
    ensures
        feed_function(g, toks.take(n)) == function_step(
            feed_function(g, toks.take(n - 1)),
            toks[n - 1],
        ).0,
{
    assert(toks.take(n).drop_last() =~= toks.take(n - 1));
    assert(toks.take(n).last() == toks[n - 1]);
}

proof fn lemma_chain_prefix(toks: Seq<TokenView>, m: int, k: int)
    requires
        is_declaration_chain(toks, m),
        0 <= k <= m,
    ensures
        ({
            let g = feed_function(function_initial(), toks.take(3 * k + 2));
            &&& g.stage == StagesFunction::SeekingArguments
            &&& !g.done
            &&& g.is_valid
            &&& g.fn_name == toks[0].text
            &&& g.arguments == chain_arguments(toks, k)
            &&& g.last_symbol == if k == 0 {
                Symbol::DoubleColon
            } else {
                Symbol::RightArrow
            }
        }),
        forall|j: int|
            0 <= j < 3 * k + 2 ==> (#[trigger] function_step(
                feed_function(function_initial(), toks.take(j)),
                toks[j],
            )).1 is None,
    decreases k,
{
    if k == 0 {
        lemma_feed_one(function_initial(), toks, 2);
        lemma_feed_one(function_initial(), toks, 1);
        assert(toks.take(0) =~= Seq::<TokenView>::empty());
        let g1 = function_step(function_initial(), toks[0]).0;
        lemma_step_name(function_initial(), toks[0]);
        lemma_step_colon(g1, toks[1]);
        assert(chain_arguments(toks, 0) =~= Seq::<VariableView>::empty());
    } else {
        lemma_chain_prefix(toks, m, k - 1);
        let n = 3 * k + 2;
        let j = k - 1;
        assert(toks[3 * j + 2].symbol == Symbol::Value);
        assert(3 * j + 2 == n - 3 && 3 * j + 3 == n - 2 && 3 * j + 4 == n - 1);
        lemma_feed_three(function_initial(), toks, n);
        let g0 = feed_function(function_initial(), toks.take(n - 3));
        lemma_step_argument_name(g0, toks[n - 3]);
        let g1 = function_step(g0, toks[n - 3]).0;
        lemma_step_argument_type(g1, toks[n - 2]);
        let g2 = function_step(g1, toks[n - 2]).0;
        lemma_step_arrow(g2, toks[n - 1]);
        assert(g2.arguments =~= chain_arguments(toks, k));
        lemma_feed_one(function_initial(), toks, n - 2);
        lemma_feed_one(function_initial(), toks, n - 1);
        assert forall|i: int| 0 <= i < n implies (#[trigger] function_step(
            feed_function(function_initial(), toks.take(i)),
            toks[i],
        )).1 is None by {
            if i >= n - 3 {
                assert(i == n - 3 || i == n - 2 || i == n - 1);
            }
        }
    }
}

/// A declaration `NAME :: a1 T1 -> ... -> am Tm -> R {` followed by its newline leaves the
/// function grammar done and valid, with the arguments in declaration order, each with its
/// declared type, and `R` as the return type; no step reports a problem.
pub proof fn lemma_declaration_chain(toks: Seq<TokenView>, m: int)
    requires
        is_declaration_chain(toks, m),
    ensures
        ({
            let g = feed_function(function_initial(), toks);
            &&& g.done
            &&& g.is_valid
            &&& g.fn_name == toks[0].text
            &&& g.arguments == chain_arguments(toks, m)
            &&& g.return_type == type_of(toks[3 * m + 2].symbol)->0
        }),
        feed_function_quiet(function_initial(), toks),
{
    lemma_chain_prefix(toks, m, m);
    let n = 3 * m + 5;
    assert(toks.take(n) =~= toks);
    lemma_feed_three(function_initial(), toks, n);
    let g0 = feed_function(function_initial(), toks.take(n - 3));
    lemma_step_return_type(g0, toks[n - 3]);
    let g1 = function_step(g0, toks[n - 3]).0;
    lemma_step_brace(g1, toks[n - 2]);
    let g2 = function_step(g1, toks[n - 2]).0;
    lemma_step_newline(g2, toks[n - 1]);
    lemma_feed_one(function_initial(), toks, n - 2);
    lemma_feed_one(function_initial(), toks, n - 1);
    assert forall|i: int| 0 <= i < toks.len() implies (#[trigger] function_step(
        feed_function(function_initial(), toks.take(i)),
        toks[i],
    )).1 is None by {
        if i >= n - 3 {
            assert(i == n - 3 || i == n - 2 || i == n - 1);
        }
    }
}

// -------------------- Grammar: Function Annotations --------------------

/// The states of the property- and permission-list grammars.
#[derive(Debug, Clone, Copy, PartialEq, Eq, Structural)]
pub enum StagesAnnotation {
    Initialized,
    ExpectValues,
}

/// The grammar for a function's property list, `#Properties :: A B C`.
#[derive(Debug)]
pub struct GrammarProperty {
    pub is_valid: bool,
    pub done: bool,
    pub stage: StagesAnnotation,
    pub p_list: Vec<Properties>,
}

/// The grammar for a function's permission list, `#Permissions :: A B C`.
#[derive(Debug)]
pub struct GrammarPermissions {
    pub is_valid: bool,
    pub done: bool,
    pub stage: StagesAnnotation,
    pub p_list: Vec<Permissions>,
}

/// What a property-list grammar holds.
pub struct PropertyView {
    pub is_valid: bool,
    pub done: bool,
    pub stage: StagesAnnotation,
    pub p_list: Seq<Properties>,
}

/// What a permission-list grammar holds.
pub struct PermissionsView {
    pub is_valid: bool,
    pub done: bool,
    pub stage: StagesAnnotation,
    pub p_list: Seq<Permissions>,
}

impl View for GrammarProperty {
    type V = PropertyView;

    open spec fn view(&self) -> PropertyView {
        PropertyView {
            is_valid: self.is_valid,
            done: self.done,
            stage: self.stage,
            p_list: self.p_list@,
        }
    }
}

impl View for GrammarPermissions {
    type V = PermissionsView;

    open spec fn view(&self) -> PermissionsView {
        PermissionsView {
            is_valid: self.is_valid,
            done: self.done,
            stage: self.stage,
            p_list: self.p_list@,
        }
    }
}

/// A fresh property-list grammar.
pub open spec fn property_initial() -> PropertyView {
    PropertyView {
        is_valid: true,
        done: false,
        stage: StagesAnnotation::Initialized,
        p_list: Seq::empty(),
    }
}

/// A fresh permission-list grammar.
pub open spec fn permissions_initial() -> PermissionsView {
    PermissionsView {
        is_valid: true,
        done: false,
        stage: StagesAnnotation::Initialized,
        p_list: Seq::empty(),
    }
}

/// The property-list grammar ended as invalid, with the error it reports.
pub open spec fn property_failed(g: PropertyView, message: Seq<char>, hint: Seq<char>, t: TokenView) -> (
    PropertyView,
    Option<ProblemView>,
) {
    (
        PropertyView { is_valid: false, done: true, ..g },
        Some(problem(ProblemClass::Error, message, hint, t.line, t.word)),
    )
}

/// The permission-list grammar ended as invalid, with the error it reports.
pub open spec fn permissions_failed(
    g: PermissionsView,
    message: Seq<char>,
    hint: Seq<char>,
    t: TokenView,
) -> (PermissionsView, Option<ProblemView>) {
    (
        PermissionsView { is_valid: false, done: true, ..g },
        Some(problem(ProblemClass::Error, message, hint, t.line, t.word)),
    )
}

/// One step of the property-list grammar. An empty list at the end of the line is a warning
/// that leaves the list valid.
pub open spec fn property_step(g: PropertyView, t: TokenView) -> (PropertyView, Option<ProblemView>) {
    if g.done {
        (g, None)
    } else {
        match g.stage {
            StagesAnnotation::Initialized => if t.symbol == Symbol::DoubleColon {
                (PropertyView { stage: StagesAnnotation::ExpectValues, ..g }, None)
            } else {
                property_failed(
                    g,
                    "property list is invalid - expected a `::` but found "@ + t.text,
                    "a property list should look like this: `#Properties :: A B C`."@,
                    t,
                )
            },
            StagesAnnotation::ExpectValues => if t.symbol == Symbol::Value {
                match property_of(t.text) {
                    Some(p) => (PropertyView { p_list: g.p_list.push(p), ..g }, None),
                    None => property_failed(
                        g,
                        "unrecognized property "@ + t.text + "."@,
                        "valid properties are:\n[\"Pure\", \"Public\", \"Export\"]"@,
                        t,
                    ),
                }
            } else if t.symbol == Symbol::Newline {
                (
                    PropertyView { done: true, ..g },
                    if g.p_list.len() == 0 {
                        Some(
                            problem(
                                ProblemClass::Warning,
                                "empty property list"@,
                                "either remove the property list or add properties"@,
                                t.line,
                                t.word,
                            ),
                        )
                    } else {
                        None
                    },
                )
            } else {
                property_failed(
                    g,
                    "expected a valid property name or a new line, but received an unexpected token instead. the offending token is "@
                        + t.text + ", which has symbol "@ + symbol_name(t.symbol) + "."@,
                    "a property list should look like this: `#Properties :: A B C`."@,
                    t,
                )
            },
        }
    }
}

/// One step of the permission-list grammar. An empty list at the end of the line is an error.
pub open spec fn permissions_step(g: PermissionsView, t: TokenView) -> (
    PermissionsView,
    Option<ProblemView>,
) {
    if g.done {
        (g, None)
    } else {
        match g.stage {
            StagesAnnotation::Initialized => if t.symbol == Symbol::DoubleColon {
                (PermissionsView { stage: StagesAnnotation::ExpectValues, ..g }, None)
            } else {
                permissions_failed(
                    g,
                    "permission list is invalid - expected a `::` but found "@ + t.text,
                    "a permission list should look like this: `#Permissions :: A B C`."@,
                    t,
                )
            },
            StagesAnnotation::ExpectValues => if t.symbol == Symbol::Value {
                if permission_of(t.text) != Permissions::Custom {
                    (PermissionsView { p_list: g.p_list.push(permission_of(t.text)), ..g }, None)
                } else {
                    permissions_failed(
                        g,
                        "unrecognized permission "@ + t.text + "."@,
                        "valid permissions are: ReadFile, WriteFile, ReadNetwork, WriteNetwork"@,
                        t,
                    )
                }
            } else if t.symbol == Symbol::Newline {
                if g.p_list.len() == 0 {
                    permissions_failed(
                        g,
                        "empty permission list"@,
                        "either remove the permission list or add properties"@,
                        t,
                    )
                } else {
                    (PermissionsView { done: true, ..g }, None)
                }
            } else {
                permissions_failed(
                    g,
                    "expected a valid permission name or a new line, but received an unexpected token instead. the offending token is "@
                        + t.text + ", which has symbol "@ + symbol_name(t.symbol) + "."@,
                    "a permission list should look like this: `#Permissions :: A B C`."@,
                    t,
                )
            },
        }
    }
}

impl GrammarProperty {
    pub fn new() -> (r: GrammarProperty)
        ensures
            r@ == property_initial(),
    {
        GrammarProperty {
            is_valid: true,
            done: false,
            stage: StagesAnnotation::Initialized,
            p_list: Vec::new(),
        }
    }

    fn fail(&mut self, message: String, hint: &str, next: &Token) -> (r: Option<CompilerProblem>)
        ensures
            (final(self)@, opt_problem_view(r)) == property_failed(
                old(self)@,
                message@,
                hint@,
                next@,
            ),
    {
        self.is_valid = false;
        self.done = true;
        Some(CompilerProblem::with_message(ProblemClass::Error, message, hint, next.line, next.word))
    }

    pub fn step(&mut self, next: &Token) -> (r: Option<CompilerProblem>)
        ensures
            (final(self)@, opt_problem_view(r)) == property_step(old(self)@, next@),
    {
        if self.done {
            return None;
        }
        match self.stage {
            StagesAnnotation::Initialized => {
                if next.symbol == Symbol::DoubleColon {
                    self.stage = StagesAnnotation::ExpectValues;
                    None
                } else {
                    self.fail(
                        concat2(
                            "property list is invalid - expected a `::` but found ",
                            next.text.as_str(),
                        ),
                        "a property list should look like this: `#Properties :: A B C`.",
                        next,
                    )
                }
            },
            StagesAnnotation::ExpectValues => {
                if next.symbol == Symbol::Value {
                    match Properties::from_name(next.text.as_str()) {
                        Some(p) => {
                            self.p_list.push(p);
                            None
                        },
                        None => self.fail(
                            concat3("unrecognized property ", next.text.as_str(), "."),
                            "valid properties are:\n[\"Pure\", \"Public\", \"Export\"]",
                            next,
                        ),
                    }
                } else if next.symbol == Symbol::Newline {
                    self.done = true;
                    if self.p_list.len() == 0 {
                        Some(
                            CompilerProblem::new(
                                ProblemClass::Warning,
                                "empty property list",
                                "either remove the property list or add properties",
                                next.line,
                                next.word,
                            ),
                        )
                    } else {
                        None
                    }
                } else {
                    self.fail(
                        concat5(
                            "expected a valid property name or a new line, but received an unexpected token instead. the offending token is ",
                            next.text.as_str(),
                            ", which has symbol ",
                            next.symbol.name(),
                            ".",
                        ),
                        "a property list should look like this: `#Properties :: A B C`.",
                        next,
                    )
                }
            },
        }
    }
}

impl GrammarPermissions {
    pub fn new() -> (r: GrammarPermissions)
        ensures
            r@ == permissions_initial(),
    {
        GrammarPermissions {
            is_valid: true,
            done: false,
            stage: StagesAnnotation::Initialized,
            p_list: Vec::new(),
        }
    }

    fn fail(&mut self, message: String, hint: &str, next: &Token) -> (r: Option<CompilerProblem>)
        ensures
            (final(self)@, opt_problem_view(r)) == permissions_failed(
                old(self)@,
                message@,
                hint@,
                next@,
            ),
    {
        self.is_valid = false;
        self.done = true;
        Some(CompilerProblem::with_message(ProblemClass::Error, message, hint, next.line, next.word))
    }

    pub fn step(&mut self, next: &Token) -> (r: Option<CompilerProblem>)
        ensures
            (final(self)@, opt_problem_view(r)) == permissions_step(old(self)@, next@),
    {
        if self.done {
            return None;
        }
        match self.stage {
            StagesAnnotation::Initialized => {
                if next.symbol == Symbol::DoubleColon {
                    self.stage = StagesAnnotation::ExpectValues;
                    None
                } else {
                    self.fail(
                        concat2(
                            "permission list is invalid - expected a `::` but found ",
                            next.text.as_str(),
                        ),
                        "a permission list should look like this: `#Permissions :: A B C`.",
                        next,
                    )
                }
            },
            StagesAnnotation::ExpectValues => {
                if next.symbol == Symbol::Value {
                    let p = Permissions::from_str(next.text.as_str());
                    if p != Permissions::Custom {
                        self.p_list.push(p);
                        None
                    } else {
                        self.fail(
                            concat3("unrecognized permission ", next.text.as_str(), "."),
                            "valid permissions are: ReadFile, WriteFile, ReadNetwork, WriteNetwork",
                            next,
                        )
                    }
                } else if next.symbol == Symbol::Newline {
                    if self.p_list.len() == 0 {
                        self.fail(
                            String::from_str("empty permission list"),
                            "either remove the permission list or add properties",
                            next,
                        )
                    } else {
                        self.done = true;
                        None
                    }
                } else {
                    self.fail(
                        concat5(
                            "expected a valid permission name or a new line, but received an unexpected token instead. the offending token is ",
                            next.text.as_str(),
                            ", which has symbol ",
                            next.symbol.name(),
                            ".",
                        ),
                        "a permission list should look like this: `#Permissions :: A B C`.",
                        next,
                    )
                }
            },
        }
    }
}

/// An empty list, `::` then the end of the line, is a warning that leaves a property list valid,
/// and an error that leaves a permission list invalid; both grammars are then done.
pub proof fn lemma_empty_annotation_lists(colon: TokenView, newline: TokenView)
    requires
        colon.symbol == Symbol::DoubleColon,
        newline.symbol == Symbol::Newline,
    ensures
        ({
            let (p1, _) = property_step(property_initial(), colon);
            let (p2, warning) = property_step(p1, newline);
            &&& p2.done && p2.is_valid && p2.p_list.len() == 0
            &&& warning is Some && warning->0.class == ProblemClass::Warning
        }),
        ({
            let (q1, _) = permissions_step(permissions_initial(), colon);
            let (q2, error) = permissions_step(q1, newline);
            &&& q2.done && !q2.is_valid
            &&& error is Some && error->0.class == ProblemClass::Error
        }),
{
}

// -------------------- Grammar: Variable Assignment --------------------

/// Whether an assignment introduces a variable (`let`) or changes one (`set`).
#[derive(Debug, Clone, Copy, PartialEq, Eq, Structural)]
pub enum AssignmentTypes {
    Initialize,
    Mutate,
}

/// The states of the assignment grammar.
#[derive(Debug, Clone, Copy, PartialEq, Eq, Structural)]
pub enum StagesVariableAssignment {
    FindingName,
    GettingIndexValue,
    DeclaringType,
    SeekingTypeName,
    CheckingMutability,
    SeekingEquals,
    HandlingValues,
}

/// The grammar for `let name :: type [mut] = value` and `set name [@ index] = value`.
#[derive(Debug)]
pub struct GrammarVariableAssignments {
    pub is_valid: bool,
    pub done: bool,
    pub stage: StagesVariableAssignment,
    pub assignment_type: AssignmentTypes,
    pub type_provided: bool,
    pub data_type: PrimitiveDataType,
    pub name: String,
    pub mutable: bool,
    pub index_text: Option<String>,
    pub values: Vec<Token>,
}

/// What an assignment grammar holds, with texts as characters.
pub struct AssignmentView {
    pub is_valid: bool,
    pub done: bool,
    pub stage: StagesVariableAssignment,
    pub assignment_type: AssignmentTypes,
    pub type_provided: bool,
    pub data_type: PrimitiveDataType,
    pub name: Seq<char>,
    pub mutable: bool,
    pub index_text: Option<Seq<char>>,
    pub values: Seq<TokenView>,
}

impl View for GrammarVariableAssignments {
    type V = AssignmentView;

    open spec fn view(&self) -> AssignmentView {
        AssignmentView {
            is_valid: self.is_valid,
            done: self.done,
            stage: self.stage,
            assignment_type: self.assignment_type,
            type_provided: self.type_provided,
            data_type: self.data_type,
            name: self.name@,
            mutable: self.mutable,
            index_text: match self.index_text {
                Some(t) => Some(t@),
                None => None,
            },
            values: token_views(self.values@),
        }
    }
}

/// The symbols that start an assignment: `let`, and `set` (also written as `mut`).
pub open spec fn assignment_symbol(s: Symbol) -> bool {
    s == Symbol::Let || s == Symbol::Reassign || s == Symbol::Mut
}

/// A fresh assignment grammar for the given starting symbol.
pub open spec fn assignment_initial(s: Symbol) -> AssignmentView {
    AssignmentView {
        is_valid: true,
        done: false,
        stage: StagesVariableAssignment::FindingName,
        assignment_type: if s == Symbol::Let {
            AssignmentTypes::Initialize
        } else {
            AssignmentTypes::Mutate
        },
        type_provided: false,
        data_type: PrimitiveDataType::Void,
        name: "unknown"@,
        mutable: false,
        index_text: None,
        values: Seq::empty(),
    }
}

/// The keyword that starts an assignment of the given kind.
pub open spec fn assignment_keyword(a: AssignmentTypes) -> Seq<char> {
    match a {
        AssignmentTypes::Initialize => "let"@,
        AssignmentTypes::Mutate => "set"@,
    }
}

/// The assignment grammar ended as invalid, with the error it reports.
pub open spec fn assignment_failed(
    g: AssignmentView,
    message: Seq<char>,
    hint: Seq<char>,
    t: TokenView,
) -> (AssignmentView, Option<ProblemView>) {
    (
        AssignmentView { is_valid: false, done: true, ..g },
        Some(problem(ProblemClass::Error, message, hint, t.line, t.word)),
    )
}

/// The lint that asks for an explicit `auto`.
pub open spec fn auto_lint(g: AssignmentView, suffix: Seq<char>, t: TokenView) -> ProblemView {
    problem(
        ProblemClass::Lint,
        "use `auto` with `"@ + g.name + "` to be explicit about your type inference"@,
        "try this: `"@ + assignment_keyword(g.assignment_type) + " "@ + g.name + suffix,
        t.line,
        t.word,
    )
}

/// One step of the assignment grammar: the new state and the problem with the token, if any.
pub open spec fn assignment_step(g: AssignmentView, t: TokenView) -> (
    AssignmentView,
    Option<ProblemView>,
) {
    if g.done {
        (g, None)
    } else {
        match g.stage {
            StagesVariableAssignment::FindingName => if t.symbol == Symbol::Value {
                if vstd::utf8::is_ascii_chars(t.text) {
                    (
                        AssignmentView {
                            name: t.text,
                            stage: StagesVariableAssignment::DeclaringType,
                            ..g
                        },
                        None,
                    )
                } else {
                    assignment_failed(
                        g,
                        "this variable's name is not valid ASCII: "@ + t.text,
                        "rename the variable"@,
                        t,
                    )
                }
            } else {
                assignment_failed(
                    g,
                    "expected a variable name, but found a system reserved keyword instead (found `"@
                        + t.text + "`"@,
                    "try using a different variable name"@,
                    t,
                )
            },
            StagesVariableAssignment::GettingIndexValue => if t.symbol == Symbol::Value {
                (
                    AssignmentView {
                        index_text: Some(t.text),
                        stage: StagesVariableAssignment::DeclaringType,
                        ..g
                    },
                    None,
                )
            } else {
                assignment_failed(
                    g,
                    "expected an index, but found a system reserved keyword instead (found `"@
                        + t.text + "`"@,
                    "indices should be either a number `37` or a range `0..2`"@,
                    t,
                )
            },
            StagesVariableAssignment::DeclaringType => if t.symbol == Symbol::At {
                if g.assignment_type == AssignmentTypes::Initialize {
                    assignment_failed(
                        g,
                        "in declaration of `"@ + g.name
                            + "`, cannot index into a collection when initializing a value"@,
                        "initialize the collection then mutate it, try this pattern: `let "@ + g.name
                            + " :: auto mut = ...` with `set "@ + g.name + " @ ... = ...`"@,
                        t,
                    )
                } else {
                    (AssignmentView { stage: StagesVariableAssignment::GettingIndexValue, ..g }, None)
                }
            } else if t.symbol == Symbol::DoubleColon {
                (AssignmentView { stage: StagesVariableAssignment::SeekingTypeName, ..g }, None)
            } else if t.symbol == Symbol::EqualSign {
                (
                    AssignmentView {
                        type_provided: false,
                        stage: StagesVariableAssignment::HandlingValues,
                        ..g
                    },
                    Some(auto_lint(g, " :: auto = ...`"@, t)),
                )
            } else {
                assignment_failed(
                    g,
                    "expected a `::` or a `=` after the variable name, but found `"@ + t.text
                        + "`"@,
                    "declare a variable's type with `::` or give it a value of `=`"@,
                    t,
                )
            },
            StagesVariableAssignment::SeekingTypeName => match type_of(t.symbol) {
                Some(d) => (
                    AssignmentView {
                        type_provided: true,
                        data_type: d,
                        stage: StagesVariableAssignment::CheckingMutability,
                        ..g
                    },
                    None,
                ),
                None => if t.symbol == Symbol::TypeAuto {
                    (
                        AssignmentView {
                            type_provided: false,
                            data_type: PrimitiveDataType::Void,
                            stage: StagesVariableAssignment::CheckingMutability,
                            ..g
                        },
                        None,
                    )
                } else if t.symbol == Symbol::Mut {
                    (
                        AssignmentView {
                            type_provided: false,
                            data_type: PrimitiveDataType::Void,
                            mutable: true,
                            stage: StagesVariableAssignment::SeekingEquals,
                            ..g
                        },
                        Some(auto_lint(g, " :: auto mut = ...`"@, t)),
                    )
                } else {
                    assignment_failed(
                        g,
                        "expected a type name, but found `"@ + t.text + "`"@,
                        "provide a valid type such as `str` or `int`, or use `auto` to infer the type"@,
                        t,
                    )
                },
            },
            StagesVariableAssignment::CheckingMutability => if t.symbol == Symbol::Mut {
                (
                    AssignmentView {
                        mutable: true,
                        stage: StagesVariableAssignment::SeekingEquals,
                        ..g
                    },
                    None,
                )
            } else if t.symbol == Symbol::EqualSign {
                (AssignmentView { stage: StagesVariableAssignment::HandlingValues, ..g }, None)
            } else {
                assignment_failed(
                    g,
                    "expected either `mut` or `=`, but found `"@ + t.text + "`"@,
                    "you may have more than 1 type for this variable"@,
                    t,
                )
            },
            StagesVariableAssignment::SeekingEquals => if t.symbol == Symbol::EqualSign {
                (AssignmentView { stage: StagesVariableAssignment::HandlingValues, ..g }, None)
            } else {
                assignment_failed(
                    g,
                    "expected `=` after `mut`, but found `"@ + t.text + "`"@,
                    "give the variable a value with `=`"@,
                    t,
                )
            },
            StagesVariableAssignment::HandlingValues => if t.symbol == Symbol::Newline {
                if g.values.len() == 0 {
                    assignment_failed(
                        g,
                        "missing value for `"@ + g.name + "`"@,
                        "give the variable a value after `=`"@,
                        t,
                    )
                } else {
                    (AssignmentView { done: true, ..g }, None)
                }
            } else if banned_rhs(t.symbol) {
                assignment_failed(
                    g,
                    "`"@ + t.text + "` cannot appear in the value of `"@ + g.name + "`"@,
                    "a value holds only literals, names, operators and parentheses"@,
                    t,
                )
            } else {
                (AssignmentView { values: g.values.push(t), ..g }, None)
            },
        }
    }
}

impl GrammarVariableAssignments {
    /// A fresh assignment grammar: `let` starts an initialization, `set` (or `mut`) a change.
    pub fn new(symbol: Symbol) -> (r: GrammarVariableAssignments)
        requires
            assignment_symbol(symbol),
        ensures
            r@ == assignment_initial(symbol),
    {
        let this_type = if symbol == Symbol::Let {
            AssignmentTypes::Initialize
        } else {
            AssignmentTypes::Mutate
        };
        let r = GrammarVariableAssignments {
            is_valid: true,
            done: false,
            stage: StagesVariableAssignment::FindingName,
            assignment_type: this_type,
            type_provided: false,
            data_type: PrimitiveDataType::Void,
            name: String::from_str("unknown"),
            mutable: false,
            index_text: None,
            values: Vec::new(),
        };
        assert(r@.values =~= Seq::empty());
        r
    }

    fn keyword(&self) -> (r: &'static str)
        ensures
            r@ == assignment_keyword(self.assignment_type),
    {
        match self.assignment_type {
            AssignmentTypes::Initialize => "let",
            AssignmentTypes::Mutate => "set",
        }
    }

    fn auto_lint(&self, suffix: &str, next: &Token) -> (r: CompilerProblem)
        ensures
            r@ == auto_lint(self@, suffix@, next@),
    {
        let message = concat3(
            "use `auto` with `",
            self.name.as_str(),
            "` to be explicit about your type inference",
        );
        let hint = concat5("try this: `", self.keyword(), " ", self.name.as_str(), suffix);
        CompilerProblem::with_texts(ProblemClass::Lint, message, hint, next.line, next.word)
    }

    fn fail(&mut self, message: String, hint: String, next: &Token) -> (r: Option<CompilerProblem>)
        ensures
            (final(self)@, opt_problem_view(r)) == assignment_failed(
                old(self)@,
                message@,
                hint@,
                next@,
            ),
    {
        self.is_valid = false;
        self.done = true;
        Some(CompilerProblem::with_texts(ProblemClass::Error, message, hint, next.line, next.word))
    }

    pub fn step(&mut self, next: &Token) -> (r: Option<CompilerProblem>)
        ensures
            (final(self)@, opt_problem_view(r)) == assignment_step(old(self)@, next@),
    {
        if self.done {
            return None;
        }
        match self.stage {
            StagesVariableAssignment::FindingName => {
                if next.symbol == Symbol::Value {
                    if next.text.is_ascii() {
                        self.name = next.text.clone();
                        self.stage = StagesVariableAssignment::DeclaringType;
                        None
                    } else {
                        self.fail(
                            concat2("this variable's name is not valid ASCII: ", next.text.as_str()),
                            String::from_str("rename the variable"),
                            next,
                        )
                    }
                } else {
                    self.fail(
                        concat3(
                            "expected a variable name, but found a system reserved keyword instead (found `",
                            next.text.as_str(),
                            "`",
                        ),
                        String::from_str("try using a different variable name"),
                        next,
                    )
                }
            },
            StagesVariableAssignment::GettingIndexValue => {
                if next.symbol == Symbol::Value {
                    self.index_text = Some(next.text.clone());
                    self.stage = StagesVariableAssignment::DeclaringType;
                    None
                } else {
                    self.fail(
                        concat3(
                            "expected an index, but found a system reserved keyword instead (found `",
                            next.text.as_str(),
                            "`",
                        ),
                        String::from_str("indices should be either a number `37` or a range `0..2`"),
                        next,
                    )
                }
            },
            StagesVariableAssignment::DeclaringType => {
                if next.symbol == Symbol::At {
                    if self.assignment_type == AssignmentTypes::Initialize {
                        let message = concat3(
                            "in declaration of `",
                            self.name.as_str(),
                            "`, cannot index into a collection when initializing a value",
                        );
                        let hint = concat5(
                            "initialize the collection then mutate it, try this pattern: `let ",
                            self.name.as_str(),
                            " :: auto mut = ...` with `set ",
                            self.name.as_str(),
                            " @ ... = ...`",
                        );
                        self.fail(message, hint, next)
                    } else {
                        self.stage = StagesVariableAssignment::GettingIndexValue;
                        None
                    }
                } else if next.symbol == Symbol::DoubleColon {
                    self.stage = StagesVariableAssignment::SeekingTypeName;
                    None
                } else if next.symbol == Symbol::EqualSign {
                    let lint = self.auto_lint(" :: auto = ...`", next);
                    self.type_provided = false;
                    self.stage = StagesVariableAssignment::HandlingValues;
                    Some(lint)
                } else {
                    self.fail(
                        concat3(
                            "expected a `::` or a `=` after the variable name, but found `",
                            next.text.as_str(),
                            "`",
                        ),
                        String::from_str(
                            "declare a variable's type with `::` or give it a value of `=`",
                        ),
                        next,
                    )
                }
            },
            StagesVariableAssignment::SeekingTypeName => {
                match PrimitiveDataType::from_symbol(next.symbol) {
                    Some(d) => {
                        self.type_provided = true;
                        self.data_type = d;
                        self.stage = StagesVariableAssignment::CheckingMutability;
                        None
                    },
                    None => {
                        if next.symbol == Symbol::TypeAuto {
                            self.type_provided = false;
                            self.data_type = PrimitiveDataType::Void;
                            self.stage = StagesVariableAssignment::CheckingMutability;
                            None
                        } else if next.symbol == Symbol::Mut {
                            let lint = self.auto_lint(" :: auto mut = ...`", next);
                            self.type_provided = false;
                            self.data_type = PrimitiveDataType::Void;
                            self.mutable = true;
                            self.stage = StagesVariableAssignment::SeekingEquals;
                            Some(lint)
                        } else {
                            self.fail(
                                concat3(
                                    "expected a type name, but found `",
                                    next.text.as_str(),
                                    "`",
                                ),
                                String::from_str(
                                    "provide a valid type such as `str` or `int`, or use `auto` to infer the type",
                                ),
                                next,
                            )
                        }
                    },
                }
            },
            StagesVariableAssignment::CheckingMutability => {
                if next.symbol == Symbol::Mut {
                    self.mutable = true;
                    self.stage = StagesVariableAssignment::SeekingEquals;
                    None
                } else if next.symbol == Symbol::EqualSign {
                    self.stage = StagesVariableAssignment::HandlingValues;
                    None
                } else {
                    self.fail(
                        concat3(
                            "expected either `mut` or `=`, but found `",
                            next.text.as_str(),
                            "`",
                        ),
                        String::from_str("you may have more than 1 type for this variable"),
                        next,
                    )
                }
            },
            StagesVariableAssignment::SeekingEquals => {
                if next.symbol == Symbol::EqualSign {
                    self.stage = StagesVariableAssignment::HandlingValues;
                    None
                } else {
                    self.fail(
                        concat3("expected `=` after `mut`, but found `", next.text.as_str(), "`"),
                        String::from_str("give the variable a value with `=`"),
                        next,
                    )
                }
            },
            StagesVariableAssignment::HandlingValues => {
                if next.symbol == Symbol::Newline {
                    if self.values.len() == 0 {
                        let message = concat3("missing value for `", self.name.as_str(), "`");
                        self.fail(
                            message,
                            String::from_str("give the variable a value after `=`"),
                            next,
                        )
                    } else {
                        self.done = true;
                        None
                    }
                } else if next.symbol.is_banned_rhs() {
                    let message = concat5(
                        "`",
                        next.text.as_str(),
                        "` cannot appear in the value of `",
                        self.name.as_str(),
                        "`",
                    );
                    self.fail(
                        message,
                        String::from_str(
                            "a value holds only literals, names, operators and parentheses",
                        ),
                        next,
                    )
                } else {
                    let ghost before = self.values@;
                    let t = next.duplicate();
                    self.values.push(t);
                    proof {
                        assert(token_views(self.values@) =~= token_views(before).push(t@));
                    }
                    None
                }
            },
        }
    }
}

// -------------------- Grammar: Expression --------------------

/// The grammar for a line that is an expression: values, operators and parentheses up to the
/// end of the line.
#[derive(Debug)]
pub struct GrammarExpression {
    pub done: bool,
    pub is_valid: bool,
    pub tokens: Vec<Token>,
}

/// What an expression grammar holds.
pub struct ExpressionView {
    pub done: bool,
    pub is_valid: bool,
    pub tokens: Seq<TokenView>,
}

impl View for GrammarExpression {
    type V = ExpressionView;

    open spec fn view(&self) -> ExpressionView {
        ExpressionView { done: self.done, is_valid: self.is_valid, tokens: token_views(self.tokens@) }
    }
}

/// A fresh expression grammar.
pub open spec fn expression_initial() -> ExpressionView {
    ExpressionView { done: false, is_valid: true, tokens: Seq::empty() }
}

/// One step of the expression grammar.
pub open spec fn expression_step(g: ExpressionView, t: TokenView) -> (
    ExpressionView,
    Option<ProblemView>,
) {
    if g.done {
        (g, None)
    } else if expression_symbol(t.symbol) {
        (ExpressionView { tokens: g.tokens.push(t), ..g }, None)
    } else if t.symbol == Symbol::Newline {
        (ExpressionView { done: true, ..g }, None)
    } else {
        (
            ExpressionView { done: true, is_valid: false, ..g },
            Some(
                problem(
                    ProblemClass::Error,
                    "expected a function, variable, or operation, found "@ + t.text,
                    "you may have more than 1 type for this variable"@,
                    t.line,
                    t.word,
                ),
            ),
        )
    }
}

impl GrammarExpression {
    pub fn new() -> (r: GrammarExpression)
        ensures
            r@ == expression_initial(),
    {
        let r = GrammarExpression { done: false, is_valid: true, tokens: Vec::new() };
        assert(r@.tokens =~= Seq::empty());
        r
    }

    pub fn step(&mut self, next: &Token) -> (r: Option<CompilerProblem>)
        ensures
            (final(self)@, opt_problem_view(r)) == expression_step(old(self)@, next@),
    {
        if self.done {
            return None;
        }
        if next.symbol.is_expression_token() {
            let ghost before = self.tokens@;
            let t = next.duplicate();
            self.tokens.push(t);
            proof {
                assert(token_views(self.tokens@) =~= token_views(before).push(t@));
            }
            None
        } else if next.symbol == Symbol::Newline {
            self.done = true;
            None
        } else {
            self.is_valid = false;
            self.done = true;
            Some(
                CompilerProblem::with_message(
                    ProblemClass::Error,
                    concat2(
                        "expected a function, variable, or operation, found ",
                        next.text.as_str(),
                    ),
                    "you may have more than 1 type for this variable",
                    next.line,
                    next.word,
                ),
            )
        }
    }
}

} // verus!
