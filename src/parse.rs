//! The parse dispatcher, its node list, and the passes over it: scopes and the function table.
use vstd::prelude::*;

use crate::compiler_errors::{opt_problem_view, problem_views, CompilerProblem, ProblemClass, ProblemView};
use crate::function_table::FunctionTable;
use crate::grammars::{
    grammar_done, grammar_step, initial_grammar, lemma_newline_ends_grammar, Grammar, GrammarView,
};
use crate::lex::{expression_symbol, token_views, Symbol, Token, TokenView};
use crate::permissions::Permissions;
use crate::properties::Properties;

verus! {

/// The role of one parsed line.
#[derive(Clone, Copy, Debug, PartialEq, Eq, Structural)]
pub enum NodeType {
    Comment,
    FunctionDeclaration,
    PropertyDeclaration,
    PermissionsDeclaration,
    ContractDeclaration,
    VariableAssignment,
    TypeDeclaration,
    Expression,
    EffectualFunctionInvocation,
    ImportStatement,
    ReturnStatement,
    CloseScope,
    Empty,
}

/// Primitive data types: types not held in a container or struct.
#[derive(Debug, PartialEq, Eq, Clone, Copy, Structural)]
pub enum PrimitiveDataType {
    Void,
    Int,
    Float,
    Str,
    Bool,
}

/// The data type that a type keyword names.
pub open spec fn type_of(sym: Symbol) -> Option<PrimitiveDataType> {
    match sym {
        Symbol::TypeVoid => Some(PrimitiveDataType::Void),
        Symbol::TypeInt => Some(PrimitiveDataType::Int),
        Symbol::TypeFloat => Some(PrimitiveDataType::Float),
        Symbol::TypeStr => Some(PrimitiveDataType::Str),
        Symbol::TypeBool => Some(PrimitiveDataType::Bool),
        _ => None,
    }
}

impl PrimitiveDataType {
    /// The data type that a type keyword names, if the symbol is one.
    pub fn from_symbol(sym: Symbol) -> (r: Option<PrimitiveDataType>)
        ensures
            r == type_of(sym),
    {
        match sym {
            Symbol::TypeVoid => Some(PrimitiveDataType::Void),
            Symbol::TypeInt => Some(PrimitiveDataType::Int),
            Symbol::TypeFloat => Some(PrimitiveDataType::Float),
            Symbol::TypeStr => Some(PrimitiveDataType::Str),
            Symbol::TypeBool => Some(PrimitiveDataType::Bool),
            _ => None,
        }
    }

    /// The name of the C type that stands for this type in generated code.
    pub fn to_str(&self) -> (r: &'static str)
        ensures
            r@ == match *self {
                PrimitiveDataType::Void => "void"@,
                PrimitiveDataType::Bool => "bool"@,
                PrimitiveDataType::Int => "int"@,
                PrimitiveDataType::Float => "float"@,
                PrimitiveDataType::Str => "char"@,
            },
    {
        match self {
            PrimitiveDataType::Void => "void",
            PrimitiveDataType::Bool => "bool",
            PrimitiveDataType::Int => "int",
            PrimitiveDataType::Float => "float",
            PrimitiveDataType::Str => "char",
        }
    }
}

/// A named, typed variable, with the source text of its value if it has one.
#[derive(Debug, Clone, PartialEq, Eq)]
pub struct Variable {
    pub name: String,
    pub data_type: PrimitiveDataType,
    pub value: Option<String>,
}

/// What a variable holds, with its texts as characters.
pub struct VariableView {
    pub name: Seq<char>,
    pub data_type: PrimitiveDataType,
    pub value: Option<Seq<char>>,
}

impl View for Variable {
    type V = VariableView;

    open spec fn view(&self) -> VariableView {
        VariableView {
            name: self.name@,
            data_type: self.data_type,
            value: match self.value {
                Some(v) => Some(v@),
                None => None,
            },
        }
    }
}

/// The views of a sequence of variables.
pub open spec fn variable_views(v: Seq<Variable>) -> Seq<VariableView> {
    v.map_values(|x: Variable| x@)
}

impl Variable {
    /// A copy of this variable.
    pub fn duplicate(&self) -> (r: Variable)
        ensures
            r@ == self@,
    {
        Variable {
            name: self.name.clone(),
            data_type: self.data_type,
            value: match &self.value {
                Some(v) => Some(v.clone()),
                None => None,
            },
        }
    }
}

/// A copy of a list of variables.
pub fn duplicate_variables(v: &Vec<Variable>) -> (r: Vec<Variable>)
    ensures
        variable_views(r@) == variable_views(v@),
{
    let mut r: Vec<Variable> = Vec::new();
    let mut i: usize = 0;
    while i < v.len()
        invariant
            i <= v@.len(),
            variable_views(r@) == variable_views(v@).take(i as int),
        decreases v@.len() - i,
    {
        let x = v[i].duplicate();
        let ghost before = r@;
        r.push(x);
        assert(variable_views(before.push(x)) =~= variable_views(before).push(x@));
        assert(variable_views(v@).take(i + 1) =~= variable_views(v@).take(i as int).push(
            v@[i as int]@,
        ));
        i = i + 1;
    }
    assert(variable_views(v@).take(i as int) =~= variable_views(v@));
    r
}

// -------------------- Function data --------------------

/// What the function table records of a function: its arguments, return type, properties and
/// permissions.
#[derive(Debug)]
pub struct FunctionData {
    pub args: Vec<Variable>,
    pub return_type: PrimitiveDataType,
    pub properties: Vec<Properties>,
    pub permissions: Vec<Permissions>,
}

/// What the function table records of a function, with texts as characters.
pub struct FunctionDataView {
    pub args: Seq<VariableView>,
    pub return_type: PrimitiveDataType,
    pub properties: Seq<Properties>,
    pub permissions: Seq<Permissions>,
}

impl View for FunctionData {
    type V = FunctionDataView;

    open spec fn view(&self) -> FunctionDataView {
        FunctionDataView {
            args: variable_views(self.args@),
            return_type: self.return_type,
            properties: self.properties@,
            permissions: self.permissions@,
        }
    }
}

impl FunctionData {
    pub fn new() -> (r: FunctionData)
        ensures
            r@ == (FunctionDataView {
                args: Seq::empty(),
                return_type: PrimitiveDataType::Void,
                properties: Seq::empty(),
                permissions: Seq::empty(),
            }),
    {
        let r = FunctionData {
            args: Vec::new(),
            return_type: PrimitiveDataType::Void,
            properties: Vec::new(),
            permissions: Vec::new(),
        };
        assert(r@.args =~= Seq::empty());
        r
    }

    /// The number of arguments the function takes.
    pub fn arity(&self) -> (r: usize)
        ensures
            r == self@.args.len(),
    {
        self.args.len()
    }
}

/// A copy of a list of plain values.
pub fn copy_list<T: Copy>(v: &Vec<T>) -> (r: Vec<T>)
    ensures
        r@ == v@,
{
    let mut r: Vec<T> = Vec::new();
    let mut i: usize = 0;
    while i < v.len()
        invariant
            i <= v@.len(),
            r@ == v@.take(i as int),
        decreases v@.len() - i,
    {
        r.push(v[i]);
        assert(r@ =~= v@.take(i + 1));
        i = i + 1;
    }
    assert(v@.take(i as int) =~= v@);
    r
}

// -------------------- Nodes and the parse dispatcher --------------------

/// One parsed line: its role, its grammar, its source line, and (once scopes are computed) the
/// line of the function declaration that encloses it.
#[derive(Debug)]
pub struct Node {
    pub node_type: NodeType,
    pub grammar: Grammar,
    pub source_line: usize,
    pub parent_node_line: Option<usize>,
}

/// What a node holds.
pub struct NodeView {
    pub node_type: NodeType,
    pub grammar: GrammarView,
    pub source_line: usize,
    pub parent_node_line: Option<usize>,
}

impl View for Node {
    type V = NodeView;

    open spec fn view(&self) -> NodeView {
        NodeView {
            node_type: self.node_type,
            grammar: self.grammar@,
            source_line: self.source_line,
            parent_node_line: self.parent_node_line,
        }
    }
}

/// The views of a sequence of nodes.
pub open spec fn node_views(v: Seq<Node>) -> Seq<NodeView> {
    v.map_values(|n: Node| n@)
}

impl Node {
    pub fn new(node_type: NodeType, grammar: Grammar, source_line: usize) -> (r: Node)
        ensures
            r@ == (NodeView { node_type, grammar: grammar@, source_line, parent_node_line: None }),
    {
        Node { node_type, grammar, source_line, parent_node_line: None }
    }
}

/// The role of a line that starts with the given symbol.
pub open spec fn node_type_of(s: Symbol) -> NodeType {
    match s {
        Symbol::Import => NodeType::ImportStatement,
        Symbol::FunctionDeclare => NodeType::FunctionDeclaration,
        Symbol::PropertyDeclaration => NodeType::PropertyDeclaration,
        Symbol::PermissionsDeclaration => NodeType::PermissionsDeclaration,
        Symbol::Reassign | Symbol::Let => NodeType::VariableAssignment,
        Symbol::ContractPre | Symbol::ContractPost | Symbol::ContractInvariant => {
            NodeType::ContractDeclaration
        },
        Symbol::Return => NodeType::ReturnStatement,
        Symbol::BraceClose => NodeType::CloseScope,
        Symbol::Comment => NodeType::Comment,
        _ => if expression_symbol(s) {
            NodeType::Expression
        } else {
            NodeType::Empty
        },
    }
}

fn node_type_for(s: Symbol) -> (r: NodeType)
    ensures
        r == node_type_of(s),
{
    match s {
        Symbol::Import => NodeType::ImportStatement,
        Symbol::FunctionDeclare => NodeType::FunctionDeclaration,
        Symbol::PropertyDeclaration => NodeType::PropertyDeclaration,
        Symbol::PermissionsDeclaration => NodeType::PermissionsDeclaration,
        Symbol::Reassign | Symbol::Let => NodeType::VariableAssignment,
        Symbol::ContractPre | Symbol::ContractPost | Symbol::ContractInvariant => {
            NodeType::ContractDeclaration
        },
        Symbol::Return => NodeType::ReturnStatement,
        Symbol::BraceClose => NodeType::CloseScope,
        Symbol::Comment => NodeType::Comment,
        _ => if s.is_expression_token() {
            NodeType::Expression
        } else {
            NodeType::Empty
        },
    }
}

/// The line being parsed: its grammar so far, its role, its source line, and whether one of
/// its problems was an `Error`.
pub struct ActiveLine {
    pub grammar: GrammarView,
    pub node_type: NodeType,
    pub line: usize,
    pub failed: bool,
}

/// The dispatcher's state: the nodes and problems so far, and the line being parsed, if any.
pub struct ParseState {
    pub nodes: Seq<NodeView>,
    pub problems: Seq<ProblemView>,
    pub active: Option<ActiveLine>,
}

/// The dispatcher before any token.
pub open spec fn parse_start() -> ParseState {
    ParseState { nodes: Seq::empty(), problems: Seq::empty(), active: None }
}

/// The problem as a sequence of zero or one problems.
pub open spec fn opt_seq(p: Option<ProblemView>) -> Seq<ProblemView> {
    match p {
        Some(q) => seq![q],
        None => Seq::empty(),
    }
}

/// Ends the line being parsed: its node is kept unless one of its problems was an `Error`.
pub open spec fn close_line(st: ParseState) -> ParseState {
    match st.active {
        Some(a) => ParseState {
            nodes: if a.failed {
                st.nodes
            } else {
                st.nodes.push(
                    NodeView {
                        node_type: a.node_type,
                        grammar: a.grammar,
                        source_line: a.line,
                        parent_node_line: None,
                    },
                )
            },
            active: None,
            ..st
        },
        None => st,
    }
}

/// The dispatcher on one token: an unfinished grammar takes it; otherwise the line being
/// parsed ends, and the token starts the next line's grammar (a newline starts none).
pub open spec fn advance(st: ParseState, t: TokenView) -> ParseState {
    match st.active {
        Some(a) if !grammar_done(a.grammar) => {
            let (g, p) = grammar_step(a.grammar, t);
            ParseState {
                problems: st.problems + opt_seq(p),
                active: Some(
                    ActiveLine {
                        grammar: g,
                        failed: a.failed || (p is Some && p->0.class == ProblemClass::Error),
                        ..a
                    },
                ),
                ..st
            }
        },
        _ => {
            let c = close_line(st);
            if t.symbol == Symbol::Newline {
                c
            } else {
                ParseState {
                    active: Some(
                        ActiveLine {
                            grammar: initial_grammar(t.symbol),
                            node_type: node_type_of(t.symbol),
                            line: t.line,
                            failed: false,
                        },
                    ),
                    ..c
                }
            }
        },
    }
}

/// The dispatcher's state after the given tokens, from the given state.
pub open spec fn run_from(st: ParseState, toks: Seq<TokenView>) -> ParseState
    decreases toks.len(),
{
    if toks.len() == 0 {
        st
    } else {
        advance(run_from(st, toks.drop_last()), toks.last())
    }
}

/// The nodes and problems that parsing the tokens yields.
pub open spec fn parse_spec(toks: Seq<TokenView>) -> (Seq<NodeView>, Seq<ProblemView>) {
    let st = close_line(run_from(parse_start(), toks));
    (st.nodes, st.problems)
}

/// Parses a token stream line by line. Each line's first token picks its grammar, which takes
/// the following tokens until it is done; every problem is kept, and a line's node is kept
/// unless one of its problems is an `Error`.
pub fn parse(tokens: Vec<Token>) -> (r: (Vec<Node>, Vec<CompilerProblem>))
    ensures
        (node_views(r.0@), problem_views(r.1@)) == parse_spec(token_views(tokens@)),
{
    let ghost toks = token_views(tokens@);
    let mut nodes: Vec<Node> = Vec::new();
    let mut problems: Vec<CompilerProblem> = Vec::new();
    let mut grammar: Grammar = Grammar::Empty;
    let mut active: bool = false;
    let mut node_type: NodeType = NodeType::Empty;
    let mut line: usize = 0;
    let mut failed: bool = false;
    let mut i: usize = 0;
    proof {
        assert(node_views(nodes@) =~= Seq::empty());
        assert(problem_views(problems@) =~= Seq::empty());
        assert(toks.take(0) =~= Seq::empty());
    }
    while i < tokens.len()
        invariant
            i <= tokens@.len(),
            toks == token_views(tokens@),
            ({
                let st = run_from(parse_start(), toks.take(i as int));
                &&& node_views(nodes@) == st.nodes
                &&& problem_views(problems@) == st.problems
                &&& active == st.active is Some
                &&& active ==> st.active->0 == (ActiveLine {
                    grammar: grammar@,
                    node_type,
                    line,
                    failed,
                })
            }),
        decreases tokens@.len() - i,
    {
        let t = &tokens[i];
        proof {
            assert(toks.take(i + 1).drop_last() =~= toks.take(i as int));
        }
        if active && !grammar.is_done() {
            let p = grammar.step(t);
            match p {
                Some(q) => {
                    if q.is_error() {
                        failed = true;
                    }
                    let ghost before = problems@;
                    problems.push(q);
                    proof {
                        assert(problem_views(problems@) =~= problem_views(before) + opt_seq(
                            opt_problem_view(Some(q)),
                        ));
                    }
                },
                None => {
                    assert(problem_views(problems@) =~= problem_views(problems@) + opt_seq(None));
                },
            }
        } else {
            if active && !failed {
                let ghost before = nodes@;
                let n = Node::new(node_type, grammar, line);
                nodes.push(n);
                proof {
                    assert(node_views(nodes@) =~= node_views(before).push(n@));
                }
            }
            if t.symbol == Symbol::Newline {
                grammar = Grammar::Empty;
                active = false;
            } else {
                grammar = Grammar::new(t.symbol);
                node_type = node_type_for(t.symbol);
                line = t.line;
                failed = false;
                active = true;
            }
        }
        i = i + 1;
    }
    assert(toks.take(i as int) =~= toks);
    if active && !failed {
        let ghost before = nodes@;
        let n = Node::new(node_type, grammar, line);
        nodes.push(n);
        proof {
            assert(node_views(nodes@) =~= node_views(before).push(n@));
        }
    }
    (nodes, problems)
}

// -------------------- Laws of the dispatcher --------------------

/// `st` with `base`'s nodes and problems in front of its own.
pub open spec fn prepend(base: ParseState, st: ParseState) -> ParseState {
    ParseState {
        nodes: base.nodes + st.nodes,
        problems: base.problems + st.problems,
        active: st.active,
    }
}

/// Whether no line is being parsed, or its grammar is done.
pub open spec fn at_line_end(st: ParseState) -> bool {
    st.active is None || grammar_done(st.active->0.grammar)
}

proof fn lemma_run_from_append(st: ParseState, a: Seq<TokenView>, b: Seq<TokenView>)
    ensures
        run_from(st, a + b) == run_from(run_from(st, a), b),
    decreases b.len(),
{
    if b.len() == 0 {
        assert(a + b =~= a);
    } else {
        assert((a + b).drop_last() =~= a + b.drop_last());
        lemma_run_from_append(st, a, b.drop_last());
    }
}

proof fn lemma_close_prepend(base: ParseState, st: ParseState)
    ensures
        close_line(prepend(base, st)) == prepend(base, close_line(st)),
{
    assert((base.nodes + st.nodes).push(
        NodeView {
            node_type: st.active->0.node_type,
            grammar: st.active->0.grammar,
            source_line: st.active->0.line,
            parent_node_line: None,
        },
    ) =~= base.nodes + st.nodes.push(
        NodeView {
            node_type: st.active->0.node_type,
            grammar: st.active->0.grammar,
            source_line: st.active->0.line,
            parent_node_line: None,
        },
    ));
}

proof fn lemma_advance_prepend(base: ParseState, st: ParseState, t: TokenView)
    ensures
        advance(prepend(base, st), t) == prepend(base, advance(st, t)),
{
    lemma_close_prepend(base, st);
    match st.active {
        Some(a) => {
            if !grammar_done(a.grammar) {
                let (g, p) = grammar_step(a.grammar, t);
                assert(base.problems + st.problems + opt_seq(p) =~= base.problems + (
                st.problems + opt_seq(p)));
            }
        },
        None => {},
    }
}

/// From a state with no line being parsed, the tokens add what they add from the start.
proof fn lemma_run_from_idle(base: ParseState, toks: Seq<TokenView>)
    requires
        base.active is None,
    ensures
        run_from(base, toks) == prepend(base, run_from(parse_start(), toks)),
    decreases toks.len(),
{
    if toks.len() == 0 {
        assert(base.nodes + Seq::empty() =~= base.nodes);
        assert(base.problems + Seq::empty() =~= base.problems);
    } else {
        lemma_run_from_idle(base, toks.drop_last());
        lemma_advance_prepend(base, run_from(parse_start(), toks.drop_last()), toks.last());
    }
}

/// A line whose grammar is done ends before the next token, as if it had been closed.
proof fn lemma_run_from_closed(st: ParseState, toks: Seq<TokenView>)
    requires
        at_line_end(st),
        toks.len() > 0,
    ensures
        run_from(st, toks) == run_from(close_line(st), toks),
    decreases toks.len(),
{
    if toks.len() > 1 {
        lemma_run_from_closed(st, toks.drop_last());
    } else {
        assert(run_from(st, toks.drop_last()) == st);
        assert(run_from(close_line(st), toks.drop_last()) == close_line(st));
        assert(close_line(close_line(st)) == close_line(st));
    }
}

/// After a newline token, no line is left half parsed.
proof fn lemma_newline_ends_line(st: ParseState, toks: Seq<TokenView>)
    requires
        toks.len() > 0,
        toks.last().symbol == Symbol::Newline,
    ensures
        at_line_end(run_from(st, toks)),
{
    let prev = run_from(st, toks.drop_last());
    match prev.active {
        Some(a) => {
            if !grammar_done(a.grammar) {
                lemma_newline_ends_grammar(a.grammar, toks.last());
            }
        },
        None => {},
    }
}

/// The tokens of a sequence of segments, in order.
pub open spec fn join_segments(segs: Seq<Seq<TokenView>>) -> Seq<TokenView>
    decreases segs.len(),
{
    if segs.len() == 0 {
        Seq::empty()
    } else {
        join_segments(segs.drop_last()) + segs.last()
    }
}

/// The nodes and problems of a sequence of results, in order.
pub open spec fn join_results(rs: Seq<(Seq<NodeView>, Seq<ProblemView>)>) -> (
    Seq<NodeView>,
    Seq<ProblemView>,
)
    decreases rs.len(),
{
    if rs.len() == 0 {
        (Seq::empty(), Seq::empty())
    } else {
        let (n, p) = join_results(rs.drop_last());
        (n + rs.last().0, p + rs.last().1)
    }
}

/// Whether every segment but the last ends with a newline token.
pub open spec fn segments_end_lines(segs: Seq<Seq<TokenView>>) -> bool {
    forall|i: int|
        0 <= i < segs.len() - 1 ==> (#[trigger] segs[i]).len() > 0 && segs[i].last().symbol
            == Symbol::Newline
}

/// The results of parsing each segment on its own.
pub open spec fn segment_results(segs: Seq<Seq<TokenView>>) -> Seq<
    (Seq<NodeView>, Seq<ProblemView>),
> {
    Seq::new(segs.len(), |i: int| parse_spec(segs[i]))
}

/// Parsing is line-local: when every segment but the last ends with a newline, parsing the
/// segments one after another yields what parsing each on its own yields, joined in order.
pub proof fn lemma_parse_segments(segs: Seq<Seq<TokenView>>)
    requires
        segments_end_lines(segs),
    ensures
        parse_spec(join_segments(segs)) == join_results(segment_results(segs)),
    decreases segs.len(),
{
    if segs.len() == 0 {
        return;
    }
    let init = segs.drop_last();
    let s = segs.last();
    let j = join_segments(init);
    assert(segments_end_lines(init)) by {
        assert forall|i: int| 0 <= i < init.len() - 1 implies (#[trigger] init[i]).len() > 0
            && init[i].last().symbol == Symbol::Newline by {
            assert(init[i] == segs[i]);
        }
    }
    lemma_parse_segments(init);
    assert(segment_results(segs).drop_last() =~= segment_results(init));
    lemma_run_from_append(parse_start(), j, s);
    let st = run_from(parse_start(), j);
    if segs.len() == 1 {
        assert(init =~= Seq::<Seq<TokenView>>::empty());
        assert(j =~= Seq::<TokenView>::empty());
        let r = run_from(parse_start(), s);
        lemma_run_from_idle(parse_start(), s);
        lemma_close_prepend(parse_start(), r);
        assert(Seq::<NodeView>::empty() + close_line(r).nodes =~= close_line(r).nodes);
        assert(Seq::<ProblemView>::empty() + close_line(r).problems =~= close_line(r).problems);
        return;
    }
    assert(init[init.len() - 1] == segs[segs.len() - 2]);
    assert(j.len() > 0 && j.last() == init.last().last());
    lemma_newline_ends_line(parse_start(), j);
    if s.len() == 0 {
        assert(j + s =~= j);
        assert(parse_spec(s) == (Seq::<NodeView>::empty(), Seq::<ProblemView>::empty()));
        let c = close_line(st);
        assert(c.nodes + Seq::<NodeView>::empty() =~= c.nodes);
        assert(c.problems + Seq::<ProblemView>::empty() =~= c.problems);
    } else {
        lemma_run_from_closed(st, s);
        let c = close_line(st);
        lemma_run_from_idle(c, s);
        lemma_close_prepend(c, run_from(parse_start(), s));
    }
}

/// A line `fn NAME {` parses to a function declaration named `NAME`, with no arguments, whose
/// grammar is done and valid: whatever tokens follow, the first node is that declaration. On
/// those three tokens alone it is the only node, with no problem.
pub proof fn lemma_no_argument_function(toks: Seq<TokenView>)
    requires
        toks.len() >= 3,
        toks[0].symbol == Symbol::FunctionDeclare,
        toks[1].symbol == Symbol::Value,
        vstd::utf8::is_ascii_chars(toks[1].text),
        toks[2].symbol == Symbol::BraceOpen,
    ensures
        ({
            let nodes = parse_spec(toks).0;
            &&& nodes.len() > 0
            &&& nodes[0].node_type == NodeType::FunctionDeclaration
            &&& nodes[0].source_line == toks[0].line
            &&& match nodes[0].grammar {
                GrammarView::Function(f) => f.fn_name == toks[1].text && f.arguments.len() == 0
                    && f.done && f.is_valid,
                _ => false,
            }
        }),
        toks.len() == 3 ==> parse_spec(toks).0.len() == 1 && parse_spec(toks).1.len() == 0,
{
    let head = toks.take(3);
    let rest = toks.skip(3);
    assert(toks =~= head + rest);
    lemma_run_from_append(parse_start(), head, rest);
    assert(head.drop_last().drop_last().drop_last() =~= Seq::<TokenView>::empty());
    assert(head.drop_last().drop_last().last() == toks[0]);
    assert(head.drop_last().last() == toks[1]);
    assert(head.last() == toks[2]);
    let h1 = head.drop_last().drop_last();
    let h2 = head.drop_last();
    assert(run_from(parse_start(), h1.drop_last()) == parse_start());
    let s1 = run_from(parse_start(), h1);
    assert(s1 == advance(parse_start(), toks[0]));
    assert(initial_grammar(toks[0].symbol) == GrammarView::Function(
        crate::grammars::function_initial(),
    ));
    let s2 = run_from(parse_start(), h2);
    assert(s2 == advance(s1, toks[1]));
    let st = run_from(parse_start(), head);
    assert(st == advance(s2, toks[2]));
    assert(st.nodes.len() == 0);
    assert(st.problems.len() == 0);
    assert(at_line_end(st));
    if rest.len() == 0 {
        assert(run_from(st, rest) == st);
    } else {
        lemma_run_from_closed(st, rest);
        let c = close_line(st);
        lemma_run_from_idle(c, rest);
        lemma_close_prepend(c, run_from(parse_start(), rest));
    }
}

/// A source line `fn NAME {`, where `NAME` is a plain ASCII word that is no keyword, followed by
/// the end of the text or by further lines: parsing the text's tokens yields first a function
/// declaration named `NAME`, with no arguments, whose grammar is done and valid. When the line
/// is the whole text, that node is the only one and there is no problem.
pub proof fn lemma_no_argument_function_source(name: Seq<char>, rest: Seq<char>)
    requires
        name.len() > 0,
        crate::lex::free_of(name, crate::lex::separators()),
        crate::lex::free_of(name, crate::lex::newlines()),
        !crate::lex::is_wrapped(name),
        crate::lex::identify(name) == Symbol::Value,
        vstd::utf8::is_ascii_chars(name),
        rest.len() == 0 || rest[0] == '\n',
    ensures
        ({
            let nodes = parse_spec(crate::lex::lex_spec("fn"@ + seq![' '] + name + seq![' '] + "{"@ + rest)).0;
            &&& nodes.len() > 0
            &&& nodes[0].node_type == NodeType::FunctionDeclaration
            &&& nodes[0].source_line == 0
            &&& match nodes[0].grammar {
                GrammarView::Function(f) => f.fn_name == name && f.arguments.len() == 0 && f.done
                    && f.is_valid,
                _ => false,
            }
        }),
        rest.len() == 0 ==> ({
            let r = parse_spec(crate::lex::lex_spec("fn"@ + seq![' '] + name + seq![' '] + "{"@));
            r.0.len() == 1 && r.1.len() == 0
        }),
{
    crate::lex::lemma_lex_declaration_line(name, rest);
    crate::lex::lemma_declaration_symbols();
    lemma_no_argument_function(
        crate::lex::lex_spec("fn"@ + seq![' '] + name + seq![' '] + "{"@ + rest),
    );
}

// -------------------- Scopes --------------------

/// The scope pass's state: how deep it is, and the line of the enclosing function declaration.
pub struct ScopeState {
    pub depth: nat,
    pub anchor: usize,
}

/// The scope pass on one node: its new state, the node's enclosing declaration line, and the
/// problem with the node, if any.
pub open spec fn scope_step(st: ScopeState, n: NodeView) -> (
    ScopeState,
    Option<usize>,
    Option<ProblemView>,
) {
    let inside = if st.depth > 0 {
        Some(st.anchor)
    } else {
        None
    };
    if n.node_type == NodeType::FunctionDeclaration {
        if st.depth > 0 {
            (
                st,
                inside,
                Some(
                    crate::compiler_errors::problem(
                        ProblemClass::Error,
                        "issue with function declaration: either there's an unclosed scope or you tried to declare one function inside another"@,
                        "check for missing braces `}`, and don't try to declare a nested function"@,
                        n.source_line,
                        0,
                    ),
                ),
            )
        } else {
            (ScopeState { depth: st.depth + 1, anchor: n.source_line }, None, None)
        }
    } else if n.node_type == NodeType::CloseScope {
        if st.depth > 0 {
            (ScopeState { depth: (st.depth - 1) as nat, ..st }, inside, None)
        } else {
            (
                st,
                None,
                Some(
                    crate::compiler_errors::problem(
                        ProblemClass::Error,
                        "closing brace without an open scope"@,
                        "check for an extra brace `}`"@,
                        n.source_line,
                        0,
                    ),
                ),
            )
        }
    } else {
        (st, inside, None)
    }
}

/// The scope pass's state after the given nodes.
pub open spec fn scope_state(nodes: Seq<NodeView>) -> ScopeState
    decreases nodes.len(),
{
    if nodes.len() == 0 {
        ScopeState { depth: 0, anchor: 0 }
    } else {
        scope_step(scope_state(nodes.drop_last()), nodes.last()).0
    }
}

/// The problems that the scope pass reports on the given nodes.
pub open spec fn scope_problems(nodes: Seq<NodeView>) -> Seq<ProblemView>
    decreases nodes.len(),
{
    if nodes.len() == 0 {
        Seq::empty()
    } else {
        scope_problems(nodes.drop_last()) + opt_seq(
            scope_step(scope_state(nodes.drop_last()), nodes.last()).2,
        )
    }
}

/// The node at index `k` with its enclosing declaration line filled in.
pub open spec fn scoped_node(nodes: Seq<NodeView>, k: int) -> NodeView {
    NodeView {
        parent_node_line: scope_step(scope_state(nodes.take(k)), nodes[k]).1,
        ..nodes[k]
    }
}

/// Links every node to the line of the function declaration that encloses it (`None` outside
/// any function), and reports nested declarations and unmatched closing braces.
pub fn compute_scopes(nodes: &mut Vec<Node>) -> (r: Vec<CompilerProblem>)
    ensures
        final(nodes)@.len() == old(nodes)@.len(),
        forall|k: int|
            0 <= k < old(nodes)@.len() ==> (#[trigger] final(nodes)@[k])@ == scoped_node(
                node_views(old(nodes)@),
                k,
            ),
        problem_views(r@) == scope_problems(node_views(old(nodes)@)),
{
    let ghost orig = node_views(nodes@);
    let mut scope_depth: usize = 0;
    let mut last_seen_scope_line: usize = 0;
    let mut errors: Vec<CompilerProblem> = Vec::new();
    let mut i: usize = 0;
    proof {
        assert(orig.take(0) =~= Seq::empty());
        assert(problem_views(errors@) =~= Seq::empty());
    }
    while i < nodes.len()
        invariant
            i <= nodes@.len() == orig.len(),
            scope_depth <= 1,
            scope_state(orig.take(i as int)) == (ScopeState {
                depth: scope_depth as nat,
                anchor: last_seen_scope_line,
            }),
            problem_views(errors@) == scope_problems(orig.take(i as int)),
            forall|k: int| 0 <= k < i ==> (#[trigger] nodes@[k])@ == scoped_node(orig, k),
            forall|k: int| i <= k < nodes@.len() ==> (#[trigger] nodes@[k])@ == orig[k],
        decreases nodes@.len() - i,
    {
        proof {
            assert(orig.take(i + 1).drop_last() =~= orig.take(i as int));
        }
        let ghost before = errors@;
        let source_line = nodes[i].source_line;
        let inside = if scope_depth > 0 {
            Some(last_seen_scope_line)
        } else {
            None
        };
        let parent: Option<usize>;
        let mut problem: Option<CompilerProblem> = None;
        match nodes[i].node_type {
            NodeType::FunctionDeclaration => {
                if scope_depth > 0 {
                    parent = inside;
                    problem = Some(CompilerProblem::new(
                        ProblemClass::Error,
                        "issue with function declaration: either there's an unclosed scope or you tried to declare one function inside another",
                        "check for missing braces `}`, and don't try to declare a nested function",
                        source_line,
                        0,
                    ));
                } else {
                    parent = None;
                    last_seen_scope_line = source_line;
                    scope_depth = scope_depth + 1;
                }
            },
            NodeType::CloseScope => {
                if scope_depth > 0 {
                    parent = inside;
                    scope_depth = scope_depth - 1;
                } else {
                    parent = None;
                    problem = Some(CompilerProblem::new(
                        ProblemClass::Error,
                        "closing brace without an open scope",
                        "check for an extra brace `}`",
                        source_line,
                        0,
                    ));
                }
            },
            _ => {
                parent = inside;
            },
        }
        nodes[i].parent_node_line = parent;
        match problem {
            Some(q) => {
                errors.push(q);
                proof {
                    assert(problem_views(errors@) =~= problem_views(before) + opt_seq(Some(q@)));
                }
            },
            None => {
                assert(problem_views(errors@) =~= problem_views(before) + opt_seq(None));
            },
        }
        assert(orig.take(i as int + 1)[i as int] == orig[i as int]);
        i = i + 1;
    }
    assert(orig.take(i as int) =~= orig);
    errors
}

// -------------------- The function table --------------------

/// The function-table builder's state: the table so far, the function whose body is open (its
/// name and data), the line of the last declaration, and the problems so far.
pub struct TableState {
    pub table: Map<Seq<char>, FunctionDataView>,
    pub draft: Option<(Seq<char>, FunctionDataView)>,
    pub function_line: usize,
    pub problems: Seq<ProblemView>,
}

/// The builder before any node.
pub open spec fn table_start() -> TableState {
    TableState { table: Map::empty(), draft: None, function_line: 0, problems: Seq::empty() }
}

/// The problem with a property or permission list that stands outside any function; both
/// kinds are reported with the same text.
pub open spec fn outside_problem(n: NodeView) -> ProblemView {
    crate::compiler_errors::problem(
        ProblemClass::Error,
        "property list declared outside of function"@,
        "make sure all properties are inside a function"@,
        n.source_line,
        0,
    )
}

/// The builder on one node. A declaration opens a draft; a property or permission list fills
/// the open draft (or is reported when there is none); the closing brace of the declared
/// function commits the draft under the function's name.
pub open spec fn table_step(st: TableState, n: NodeView) -> TableState {
    if n.node_type == NodeType::FunctionDeclaration {
        TableState {
            draft: match n.grammar {
                GrammarView::Function(f) => Some(
                    (
                        f.fn_name,
                        FunctionDataView {
                            args: f.arguments,
                            return_type: f.return_type,
                            properties: Seq::empty(),
                            permissions: Seq::empty(),
                        },
                    ),
                ),
                _ => None,
            },
            function_line: n.source_line,
            ..st
        }
    } else {
        let st1 = match n.grammar {
            GrammarView::Property(p) => match st.draft {
                Some(d) => TableState {
                    draft: Some((d.0, FunctionDataView { properties: p.p_list, ..d.1 })),
                    ..st
                },
                None => TableState {
                    problems: st.problems.push(outside_problem(n)),
                    ..st
                },
            },
            GrammarView::Permission(p) => match st.draft {
                Some(d) => TableState {
                    draft: Some((d.0, FunctionDataView { permissions: p.p_list, ..d.1 })),
                    ..st
                },
                None => TableState {
                    problems: st.problems.push(outside_problem(n)),
                    ..st
                },
            },
            _ => st,
        };
        if n.node_type == NodeType::CloseScope && n.parent_node_line == Some(st1.function_line) {
            TableState {
                table: match st1.draft {
                    Some(d) => st1.table.insert(d.0, d.1),
                    None => st1.table,
                },
                draft: None,
                ..st1
            }
        } else {
            st1
        }
    }
}

/// The builder's state after the given nodes.
pub open spec fn table_run(nodes: Seq<NodeView>) -> TableState
    decreases nodes.len(),
{
    if nodes.len() == 0 {
        table_start()
    } else {
        table_step(table_run(nodes.drop_last()), nodes.last())
    }
}

/// The view of an optional draft.
pub open spec fn draft_view(d: Option<(String, FunctionData)>) -> Option<(Seq<char>, FunctionDataView)> {
    match d {
        Some(x) => Some((x.0@, x.1@)),
        None => None,
    }
}

/// Builds the function table from scoped nodes: each function whose closing brace is reached
/// is recorded under its name with its arguments, return type, properties and permissions.
/// Fails with every annotation list that stands outside a function.
pub fn populate_function_table(nodes: &Vec<Node>) -> (r: Result<FunctionTable, Vec<CompilerProblem>>)
    ensures
        ({
            let st = table_run(node_views(nodes@));
            match r {
                Ok(t) => st.problems.len() == 0 && t.wf() && t@ == st.table,
                Err(e) => st.problems.len() > 0 && problem_views(e@) == st.problems,
            }
        }),
{
    let ghost ns = node_views(nodes@);
    let mut table = FunctionTable::new();
    let mut errors: Vec<CompilerProblem> = Vec::new();
    let mut draft: Option<(String, FunctionData)> = None;
    let mut function_line: usize = 0;
    let mut i: usize = 0;
    proof {
        assert(ns.take(0) =~= Seq::<NodeView>::empty());
        assert(problem_views(errors@) =~= Seq::empty());
    }
    while i < nodes.len()
        invariant
            i <= nodes@.len(),
            ns == node_views(nodes@),
            table.wf(),
            ({
                let st = table_run(ns.take(i as int));
                &&& table@ == st.table
                &&& draft_view(draft) == st.draft
                &&& function_line == st.function_line
                &&& problem_views(errors@) == st.problems
            }),
        decreases nodes@.len() - i,
    {
        proof {
            assert(ns.take(i + 1).drop_last() =~= ns.take(i as int));
        }
        let node = &nodes[i];
        if node.node_type == NodeType::FunctionDeclaration {
            match &node.grammar {
                Grammar::Function(fg) => {
                    let mut d = FunctionData::new();
                    d.args = duplicate_variables(&fg.arguments);
                    d.return_type = fg.return_type;
                    draft = Some((fg.fn_name.clone(), d));
                },
                _ => {
                    draft = None;
                },
            }
            function_line = node.source_line;
        } else {
            match &node.grammar {
                Grammar::Property(pg) => {
                    match draft.take() {
                        Some((name, mut d)) => {
                            d.properties = copy_list(&pg.p_list);
                            draft = Some((name, d));
                        },
                        None => {
                            let ghost before = errors@;
                            let q = CompilerProblem::with_message(
                                ProblemClass::Error,
                                String::from_str("property list declared outside of function"),
                                "make sure all properties are inside a function",
                                node.source_line,
                                0,
                            );
                            errors.push(q);
                            proof {
                                assert(problem_views(errors@) =~= problem_views(before).push(q@));
                            }
                        },
                    }
                },
                Grammar::Permission(pg) => {
                    match draft.take() {
                        Some((name, mut d)) => {
                            d.permissions = copy_list(&pg.p_list);
                            draft = Some((name, d));
                        },
                        None => {
                            let ghost before = errors@;
                            let q = CompilerProblem::with_message(
                                ProblemClass::Error,
                                String::from_str("property list declared outside of function"),
                                "make sure all properties are inside a function",
                                node.source_line,
                                0,
                            );
                            errors.push(q);
                            proof {
                                assert(problem_views(errors@) =~= problem_views(before).push(q@));
                            }
                        },
                    }
                },
                _ => {},
            }
            if node.node_type == NodeType::CloseScope && node.parent_node_line == Some(function_line) {
                match draft.take() {
                    Some((name, d)) => {
                        table.insert(name, d);
                    },
                    None => {},
                }
            }
        }
        i = i + 1;
    }
    proof {
        assert(ns.take(i as int) =~= ns);
    }
    if errors.len() > 0 {
        Err(errors)
    } else {
        Ok(table)
    }
}

} // verus!
