use iona::compiler_errors::{CompilerProblem, ProblemClass};
use iona::grammars::{
    Grammar, GrammarExpression, GrammarFunctionDeclaration, GrammarImports, GrammarPermissions,
    GrammarProperty, GrammarVariableAssignments,
};
use iona::lex::{lex, Symbol};
use iona::parse::PrimitiveDataType;
use iona::permissions::Permissions;
use iona::properties::Properties;

#[test]
fn declare_import_1() {
    let mut gi = GrammarImports::new();
    let line: &str = "import a b from c";
    let tokens = lex(line);
    for t in tokens.into_iter().skip(1) {
        gi.step(&t);
    }
    assert!(gi.done);
    assert!(gi.is_valid);
    assert_eq!(gi.file, "c".to_string());
    assert!(gi.arguments.is_some());
    if let Some(args) = gi.arguments.as_ref() {
        assert_eq!(args[0].text, "a".to_string());
        assert_eq!(args[1].text, "b".to_string());
    }
}

#[test]
fn declare_import_2() {
    let mut gi = GrammarImports::new();
    let line: &str = "import this.c";
    let tokens = lex(line);
    for t in tokens.into_iter().skip(1) {
        gi.step(&t);
    }
    assert!(gi.done);
    assert!(gi.is_valid);
    assert_eq!(gi.file, "this.c".to_string());
    assert!(gi.arguments.is_none());
}

#[test]
fn declare_fn_simple_1() {
    let mut gfd = GrammarFunctionDeclaration::new();
    let line: &str = "fn add :: a int -> b int -> int {
        ";
    let tokens = lex(line);
    for t in tokens.into_iter().skip(1) {
        gfd.step(&t);
    }
    println!("{:?}", gfd);
    assert!(gfd.done);
    assert!(gfd.is_valid);
    assert_eq!(gfd.fn_name, "add");
    assert_eq!(gfd.arguments.len(), 2);
    assert_eq!(gfd.arguments[0].name, "a");
    assert_eq!(gfd.arguments[0].data_type, PrimitiveDataType::Int);
    assert!(gfd.arguments[0].value.is_none());
    assert_eq!(gfd.arguments[1].name, "b");
    assert_eq!(gfd.arguments[1].data_type, PrimitiveDataType::Int);
    assert!(gfd.arguments[1].value.is_none());
    assert_eq!(gfd.return_type, PrimitiveDataType::Int);
}

#[test]
fn declare_fn_simple_2() {
    let mut gfd = GrammarFunctionDeclaration::new();
    let line: &str = "fn copy_to :: old_filepath str -> new_filepath str -> void {
        ";
    let tokens = lex(line);
    for t in tokens.into_iter().skip(1) {
        gfd.step(&t);
    }
    println!("{:?}", gfd);
    assert!(gfd.done);
    assert!(gfd.is_valid);
    assert_eq!(gfd.fn_name, "copy_to");
    assert_eq!(gfd.arguments.len(), 2);
    assert_eq!(gfd.arguments[0].name, "old_filepath");
    assert_eq!(gfd.arguments[0].data_type, PrimitiveDataType::Str);
    assert!(gfd.arguments[0].value.is_none());
    assert_eq!(gfd.arguments[1].name, "new_filepath");
    assert_eq!(gfd.arguments[1].data_type, PrimitiveDataType::Str);
    assert!(gfd.arguments[1].value.is_none());
    assert_eq!(gfd.return_type, PrimitiveDataType::Void);
}

#[test]
fn declare_fn_no_name() {
    let mut gfd = GrammarFunctionDeclaration::new();
    let line: &str = "fn :: old_filepath str -> new_filepath str -> void {\n";
    let tokens = lex(line);
    let mut errors: Vec<Option<CompilerProblem>> = Vec::new();
    for t in tokens.into_iter().skip(1) {
        errors.push(gfd.step(&t));
    }
    assert!(gfd.done);
    assert!(!gfd.is_valid);
    assert!(errors[0].is_some());
    assert_eq!(
        errors[0].as_ref().unwrap().message,
        "function name is missing"
    );
}

#[test]
fn declare_fn_no_name_single_error() {
    let mut gfd = GrammarFunctionDeclaration::new();
    let tokens = lex("fn :: x str -> void {");
    let mut problems: Vec<CompilerProblem> = Vec::new();
    for t in tokens.iter().skip(1) {
        if let Some(p) = gfd.step(t) {
            problems.push(p);
        }
    }
    assert_eq!(problems.len(), 1);
    assert_eq!(problems[0].class, ProblemClass::Error);
    assert_eq!(problems[0].message, "function name is missing");
    assert!(!gfd.is_valid);
    assert!(gfd.done);
}

#[test]
fn declare_variable_init() {
    let mut gv = GrammarVariableAssignments::new(Symbol::Let);
    let line: &str = "let a :: int = 1";
    let tokens = lex(line);
    for t in tokens.into_iter().skip(1) {
        gv.step(&t);
    }
    assert!(gv.is_valid);
    assert_eq!(gv.data_type, PrimitiveDataType::Int);
    assert_eq!(gv.mutable, false);
    assert!(gv.type_provided);
    assert_eq!(gv.name, "a".to_string());
}

#[test]
fn declare_variable_init_mut() {
    let mut gv = GrammarVariableAssignments::new(Symbol::Let);
    let line: &str = "let a :: str mut = \"meow\"";
    let tokens = lex(line);
    for t in tokens.into_iter().skip(1) {
        gv.step(&t);
    }
    println!("{:#?}", gv);
    assert!(gv.is_valid);
    assert_eq!(gv.data_type, PrimitiveDataType::Str);
    assert_eq!(gv.mutable, true);
    assert!(gv.type_provided);
    assert_eq!(gv.name, "a".to_string());
}

#[test]
fn declare_variable_init_mut_no_type() {
    let mut gv = GrammarVariableAssignments::new(Symbol::Let);
    let line: &str = "let a :: mut = 42";
    let tokens = lex(line);
    for t in tokens.into_iter().skip(1) {
        println!("{:#?}", gv.step(&t));
    }
    println!("{:#?}", gv);
    assert!(gv.is_valid);
    assert_eq!(gv.data_type, PrimitiveDataType::Void);
    assert_eq!(gv.mutable, true);
    assert_eq!(gv.type_provided, false);
    assert_eq!(gv.name, "a".to_string());
}

#[test]
fn declare_variable_init_mut_auto() {
    let mut gv = GrammarVariableAssignments::new(Symbol::Let);
    let line: &str = "let a :: auto mut = 42";
    let tokens = lex(line);
    for t in tokens.into_iter().skip(1) {
        println!("{:#?}", gv.step(&t));
    }
    println!("{:#?}", gv);
    assert!(gv.is_valid);
    assert_eq!(gv.data_type, PrimitiveDataType::Void);
    assert_eq!(gv.mutable, true);
    assert_eq!(gv.type_provided, false);
    assert_eq!(gv.name, "a".to_string());
}

#[test]
fn declare_variable_mutate() {
    let mut gv = GrammarVariableAssignments::new(Symbol::Mut);
    let line: &str = "set a = 1";
    let tokens = lex(line);
    for t in tokens.into_iter().skip(1) {
        gv.step(&t);
    }
    assert!(gv.is_valid);
    assert_eq!(gv.name, "a".to_string());
}

#[test]
fn declare_variable_mutate_index() {
    let mut gv = GrammarVariableAssignments::new(Symbol::Mut);
    let line: &str = "set a @ 10 = 1";
    let tokens = lex(line);
    for t in tokens.into_iter().skip(1) {
        println!("{:?}, {:#?}", t, gv);
        gv.step(&t);
    }
    assert!(gv.is_valid);
    assert!(gv.index_text.is_some());
    assert_eq!(gv.index_text.unwrap(), "10".to_string());
    assert_eq!(gv.name, "a".to_string());
}

/// Feeds every token after the first to a grammar, collecting the problems.
fn feed(g: &mut Grammar, src: &str) -> Vec<CompilerProblem> {
    let mut out = Vec::new();
    for t in lex(src).iter().skip(1) {
        if let Some(p) = g.step(t) {
            out.push(p);
        }
    }
    out
}

fn single_error(g: &mut Grammar, src: &str) -> String {
    let problems = feed(g, src);
    assert_eq!(problems.len(), 1, "{:?}", problems);
    assert_eq!(problems[0].class, ProblemClass::Error);
    assert!(g.is_done());
    problems[0].message.clone()
}

#[test]
fn finished_grammar_ignores_tokens() {
    let mut g = Grammar::new(Symbol::FunctionDeclare);
    let problems = feed(&mut g, "fn f {");
    assert!(problems.is_empty());
    assert!(g.is_done());
    let extra = lex("return 5 }");
    for t in extra.iter() {
        assert!(g.step(t).is_none());
    }
    match &g {
        Grammar::Function(f) => {
            assert_eq!(f.fn_name, "f");
            assert!(f.arguments.is_empty());
            assert!(f.done && f.is_valid);
        }
        _ => panic!("expected a function grammar"),
    }
    let mut e = GrammarExpression::new();
    for t in lex("a b\nc").iter() {
        e.step(t);
    }
    assert!(e.done);
    assert_eq!(e.tokens.len(), 2);
}

#[test]
fn grammar_new_picks_grammar() {
    assert!(matches!(Grammar::new(Symbol::Import), Grammar::Import(_)));
    assert!(matches!(Grammar::new(Symbol::FunctionDeclare), Grammar::Function(_)));
    assert!(matches!(Grammar::new(Symbol::PropertyDeclaration), Grammar::Property(_)));
    assert!(matches!(Grammar::new(Symbol::PermissionsDeclaration), Grammar::Permission(_)));
    assert!(matches!(Grammar::new(Symbol::Let), Grammar::VariableAssignment(_)));
    assert!(matches!(Grammar::new(Symbol::Reassign), Grammar::VariableAssignment(_)));
    assert!(matches!(Grammar::new(Symbol::Return), Grammar::Return));
    assert!(matches!(Grammar::new(Symbol::Value), Grammar::Expression(_)));
    assert!(matches!(Grammar::new(Symbol::BraceClose), Grammar::Empty));
    assert!(matches!(Grammar::new(Symbol::Comment), Grammar::Empty));
    assert!(Grammar::new(Symbol::Return).is_done());
    assert!(!Grammar::new(Symbol::Import).is_done());
}

#[test]
fn function_argument_chain() {
    let mut g = Grammar::new(Symbol::FunctionDeclare);
    let problems = feed(&mut g, "fn f :: x float -> y bool -> z str -> bool {\nend");
    assert!(problems.is_empty());
    match &g {
        Grammar::Function(f) => {
            assert!(f.done && f.is_valid);
            let names: Vec<&str> = f.arguments.iter().map(|a| a.name.as_str()).collect();
            assert_eq!(names, vec!["x", "y", "z"]);
            let types: Vec<PrimitiveDataType> = f.arguments.iter().map(|a| a.data_type).collect();
            assert_eq!(
                types,
                vec![PrimitiveDataType::Float, PrimitiveDataType::Bool, PrimitiveDataType::Str]
            );
            assert_eq!(f.return_type, PrimitiveDataType::Bool);
        }
        _ => panic!("expected a function grammar"),
    }
}

#[test]
fn function_errors() {
    let cases: Vec<(&str, &str)> = vec![
        ("fn f ) {", "expected a '::' (if it has args) or a '{' (if it doesn't have args) after the function name, but received ')'."),
        ("fn f :: a void -> int {", "argument type for 'a' cannot be 'void'."),
        ("fn f :: a -> int {", "argument 'a' has no type information."),
        ("fn f :: a int b", "missing a '->' after argument 'a'."),
        ("fn f :: = ", "expected an argument name or a return type, but received '='."),
        ("fn f :: int int", "expected '{', but received 'int'."),
        ("fn f :: int { x", "expected new line, but received 'x'."),
        ("fn é {", "function name is not valid ASCII"),
    ];
    for (src, message) in cases {
        let mut g = Grammar::new(Symbol::FunctionDeclare);
        assert_eq!(single_error(&mut g, src), message, "{}", src);
    }
}

#[test]
fn import_errors() {
    let mut g = Grammar::new(Symbol::Import);
    assert_eq!(single_error(&mut g, "import fn"), "imported item is a reserved keyword");
    let mut g = Grammar::new(Symbol::Import);
    assert_eq!(
        single_error(&mut g, "import a let"),
        "expected the name of an item but received a keyword: let"
    );
    let mut g = Grammar::new(Symbol::Import);
    assert_eq!(
        single_error(&mut g, "import a from fn"),
        "expected the name of a library but received a keyword: fn"
    );
}

#[test]
fn empty_annotation_lists() {
    let mut p = GrammarProperty::new();
    let mut problems = Vec::new();
    for t in lex("#Properties ::\nend").iter().skip(1) {
        if let Some(q) = p.step(t) {
            problems.push(q);
        }
    }
    assert!(p.done);
    assert!(p.is_valid);
    assert_eq!(problems.len(), 1);
    assert_eq!(problems[0].class, ProblemClass::Warning);
    assert_eq!(problems[0].message, "empty property list");

    let mut q = GrammarPermissions::new();
    let mut problems = Vec::new();
    for t in lex("#Permissions ::\nend").iter().skip(1) {
        if let Some(x) = q.step(t) {
            problems.push(x);
        }
    }
    assert!(q.done);
    assert!(!q.is_valid);
    assert_eq!(problems.len(), 1);
    assert_eq!(problems[0].class, ProblemClass::Error);
    assert_eq!(problems[0].message, "empty permission list");
}

#[test]
fn annotation_lists() {
    let mut p = GrammarProperty::new();
    for t in lex("#Properties :: Pure Public Export\nend").iter().skip(1) {
        assert!(p.step(t).is_none());
    }
    assert!(p.done && p.is_valid);
    assert_eq!(p.p_list, vec![Properties::Pure, Properties::Public, Properties::Export]);
    let mut q = GrammarPermissions::new();
    for t in lex("#Permissions :: ReadFile WriteNetwork\nend").iter().skip(1) {
        assert!(q.step(t).is_none());
    }
    assert!(q.done && q.is_valid);
    assert_eq!(q.p_list, vec![Permissions::ReadFile, Permissions::WriteNetwork]);

    let mut g = Grammar::new(Symbol::PropertyDeclaration);
    assert_eq!(single_error(&mut g, "#Properties :: Fast"), "unrecognized property Fast.");
    let mut g = Grammar::new(Symbol::PropertyDeclaration);
    assert_eq!(
        single_error(&mut g, "#Properties Pure"),
        "property list is invalid - expected a `::` but found Pure"
    );
    let mut g = Grammar::new(Symbol::PropertyDeclaration);
    assert_eq!(
        single_error(&mut g, "#Properties :: Pure ="),
        "expected a valid property name or a new line, but received an unexpected token instead. the offending token is =, which has symbol EqualSign."
    );
    let mut g = Grammar::new(Symbol::PropertyDeclaration);
    let problems = feed(&mut g, "#Properties :: Fast");
    assert_eq!(problems[0].hint, "valid properties are:\n[\"Pure\", \"Public\", \"Export\"]");
    let mut g = Grammar::new(Symbol::PermissionsDeclaration);
    assert_eq!(single_error(&mut g, "#Permissions :: Fly"), "unrecognized permission Fly.");
    let mut g = Grammar::new(Symbol::PermissionsDeclaration);
    assert_eq!(
        single_error(&mut g, "#Permissions :: ReadFile ::"),
        "expected a valid permission name or a new line, but received an unexpected token instead. the offending token is ::, which has symbol DoubleColon."
    );
}

#[test]
fn permission_names() {
    assert_eq!(Permissions::from_str("ReadFile"), Permissions::ReadFile);
    assert_eq!(Permissions::from_str("WriteFile"), Permissions::WriteFile);
    assert_eq!(Permissions::from_str("ReadNetwork"), Permissions::ReadNetwork);
    assert_eq!(Permissions::from_str("WriteNetwork"), Permissions::WriteNetwork);
    assert_eq!(Permissions::from_str("readfile"), Permissions::Custom);
    assert_eq!(Properties::from_name("Export"), Some(Properties::Export));
    assert_eq!(Properties::from_name("export"), None);
}

#[test]
fn assignment_values_and_errors() {
    let mut g = GrammarVariableAssignments::new(Symbol::Let);
    let mut problems = Vec::new();
    for t in lex("let total = + a b\nend").iter().skip(1) {
        if let Some(p) = g.step(t) {
            problems.push(p);
        }
    }
    assert!(g.done && g.is_valid);
    assert_eq!(g.values.len(), 3);
    assert_eq!(problems.len(), 1);
    assert_eq!(problems[0].class, ProblemClass::Lint);
    assert_eq!(
        problems[0].message,
        "use `auto` with `total` to be explicit about your type inference"
    );
    assert_eq!(problems[0].hint, "try this: `let total :: auto = ...`");

    let cases: Vec<(Symbol, &str, &str)> = vec![
        (Symbol::Let, "let a @ 1 = 2", "in declaration of `a`, cannot index into a collection when initializing a value"),
        (Symbol::Let, "let a :: int =\nend", "missing value for `a`"),
        (Symbol::Let, "let a :: int = return\n", "`return` cannot appear in the value of `a`"),
        (Symbol::Let, "let fn", "expected a variable name, but found a system reserved keyword instead (found `fn`"),
        (Symbol::Let, "let a 5", "expected a `::` or a `=` after the variable name, but found `5`"),
        (Symbol::Let, "let a :: x", "expected a type name, but found `x`"),
        (Symbol::Let, "let a :: int int", "expected either `mut` or `=`, but found `int`"),
        (Symbol::Let, "let a :: int mut mut", "expected `=` after `mut`, but found `mut`"),
        (Symbol::Reassign, "set a @ fn", "expected an index, but found a system reserved keyword instead (found `fn`"),
    ];
    for (s, src, message) in cases {
        let mut g = Grammar::new(s);
        let problems = feed(&mut g, src);
        let errors: Vec<&CompilerProblem> =
            problems.iter().filter(|p| p.class == ProblemClass::Error).collect();
        assert_eq!(errors.len(), 1, "{}", src);
        assert_eq!(errors[0].message, message);
        assert!(g.is_done());
    }
}

#[test]
fn expression_grammar_rejects_keywords() {
    let mut g = Grammar::new(Symbol::Value);
    assert_eq!(
        single_error(&mut g, "a let"),
        "expected a function, variable, or operation, found let"
    );
}
