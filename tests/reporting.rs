use iona::codegen_c::c_header;
use iona::compiler_errors::{is_error_free, CompilerProblem, ProblemClass};
use iona::fused::{lex_and_parse_line, split_lines};
use iona::lex::lex;
use iona::parse::{compute_scopes, parse, populate_function_table, NodeType, PrimitiveDataType};

#[test]
fn severity_order_and_labels() {
    assert_eq!(ProblemClass::Lint.label(), "lint");
    assert_eq!(ProblemClass::Warning.label(), "warning");
    assert_eq!(ProblemClass::Error.label(), "error");
    assert!(ProblemClass::Error.at_least(&ProblemClass::Warning));
    assert!(ProblemClass::Warning.at_least(&ProblemClass::Warning));
    assert!(!ProblemClass::Lint.at_least(&ProblemClass::Warning));
    let lint = CompilerProblem::new(ProblemClass::Lint, "m", "h", 2, 3);
    assert_eq!((lint.line, lint.word_index), (2, 3));
    assert_eq!(lint.message, "m");
    assert_eq!(lint.hint, "h");
    let error = CompilerProblem::new(ProblemClass::Error, "e", "h", 0, 0);
    assert!(is_error_free(&vec![lint.clone()]));
    assert!(!is_error_free(&vec![lint, error]));
    assert!(is_error_free(&Vec::new()));
}

#[test]
fn c_header_lists_functions_in_name_order() {
    let src = "fn twice :: x int -> y str -> float {\n}\nfn answer :: int {\n}\nfn go {\n}";
    let (mut nodes, problems) = parse(lex(src));
    assert!(problems.is_empty());
    assert!(compute_scopes(&mut nodes).is_empty());
    let table = populate_function_table(&nodes).unwrap();
    assert_eq!(table.get("go").unwrap().return_type, PrimitiveDataType::Void);
    assert_eq!(
        c_header(&table),
        "#include <stdbool.h>\n\nint answer();\n\nvoid go();\n\nfloat twice(int x, char y);\n\n"
    );
}

#[test]
fn lines_and_single_line_parsing() {
    let lines = split_lines("a b\n\nc\n");
    assert_eq!(lines, vec!["a b".to_string(), String::new(), "c".to_string()]);
    assert!(split_lines("").is_empty());
    let (nodes, problems) = lex_and_parse_line("fn f :: int {", 4, 6);
    assert!(problems.is_empty());
    assert_eq!(nodes.len(), 1);
    assert_eq!(nodes[0].node_type, NodeType::FunctionDeclaration);
    assert_eq!(nodes[0].source_line, 4);
    let (nodes, problems) = lex_and_parse_line("#Properties ::", 5, 6);
    assert_eq!(nodes.len(), 1);
    assert!(problems.is_empty());
    let (nodes, problems) = lex_and_parse_line("#Properties ::", 4, 6);
    assert_eq!(nodes.len(), 1);
    assert_eq!(problems.len(), 1);
    assert_eq!(problems[0].class, ProblemClass::Warning);
}
