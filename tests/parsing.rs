use iona::compiler_errors::{is_error_free, ProblemClass};
use iona::fused::fused_lex_and_parse;
use iona::grammars::Grammar;
use iona::lex::lex;
use iona::parse::{compute_scopes, parse, populate_function_table, NodeType, PrimitiveDataType};
use iona::permissions::Permissions;
use iona::properties::Properties;

#[test]
fn parse_line_1() {
    let code: &str = "fn five :: int {";
    let tokens = lex(code);
    let (nodes, errors) = parse(tokens);
    assert_eq!(nodes.len(), 1);
    assert!(errors.is_empty());
    assert_eq!(nodes[0].node_type, NodeType::FunctionDeclaration);
}

#[test]
fn parse_function_1() {
    let code: &str = "// Empty comment
        fn five :: int {
            return 5
        }";
    let tokens = lex(code);
    let (nodes, errors) = parse(tokens);
    assert_eq!(nodes.len(), 5);
    assert!(errors.is_empty());
    assert_eq!(nodes[0].node_type, NodeType::Comment);
    assert_eq!(nodes[1].node_type, NodeType::FunctionDeclaration);
    assert_eq!(nodes[2].node_type, NodeType::ReturnStatement);
    assert_eq!(nodes[3].node_type, NodeType::Expression);
    assert_eq!(nodes[4].node_type, NodeType::CloseScope);
    match &nodes[1].grammar {
        Grammar::Function(g) => assert_eq!(g.fn_name, "five"),
        _ => {}
    }
}

#[test]
fn parse_function_2() {
    let code: &str = "// This function adds two numbers
        fn add :: a int -> b int -> int {
            #Properties :: Pure Export
            return a + b
        }";
    let tokens = lex(code);
    let (nodes, errors) = parse(tokens);
    assert_eq!(nodes.len(), 6);
    assert!(errors.is_empty());
    assert_eq!(nodes[0].node_type, NodeType::Comment);
    assert_eq!(nodes[1].node_type, NodeType::FunctionDeclaration);
    assert_eq!(nodes[2].node_type, NodeType::PropertyDeclaration);
    assert_eq!(nodes[3].node_type, NodeType::ReturnStatement);
    assert_eq!(nodes[4].node_type, NodeType::Expression);
    assert_eq!(nodes[5].node_type, NodeType::CloseScope);
}

#[test]
fn populate_function_table_1() {
    let code: &str = "// This function adds two numbers
        fn add :: a int -> b int -> int {
            #Properties :: Pure Export
            return a + b
        }";
    let tokens = lex(code);
    let (mut nodes, _) = parse(tokens);
    compute_scopes(&mut nodes);
    let f_table = populate_function_table(&nodes);
    assert!(f_table.is_ok());
    let function_table = f_table.unwrap();
    for i in 0..function_table.len() {
        println!("{}: {:#?}", function_table.key_at(i), function_table.value_at(i));
    }
    assert!(function_table.get("add").is_some());
    assert_eq!(
        function_table.get("add").unwrap().return_type,
        PrimitiveDataType::Int
    );
}

#[test]
fn function_table_round_trip() {
    let src = "fn add :: a int -> b int -> int {\n#Properties :: Pure Export\nreturn a + b\n}";
    let (mut nodes, problems) = parse(lex(src));
    assert!(problems.is_empty());
    let scope_problems = compute_scopes(&mut nodes);
    assert!(scope_problems.is_empty());
    let table = populate_function_table(&nodes).unwrap();
    assert_eq!(table.len(), 1);
    let add = table.get("add").unwrap();
    assert_eq!(add.return_type, PrimitiveDataType::Int);
    assert_eq!(add.properties, vec![Properties::Pure, Properties::Export]);
    assert_eq!(add.arity(), 2);
    assert!(add.permissions.is_empty());
    assert!(table.get("sub").is_none());
}

#[test]
fn function_table_is_ordered_by_name() {
    let src = "fn zeta {\n}\nfn alpha :: x int -> void {\n#Permissions :: ReadFile\n}\nfn mid :: bool {\n}";
    let (mut nodes, problems) = parse(lex(src));
    assert!(problems.is_empty(), "{:?}", problems);
    assert!(compute_scopes(&mut nodes).is_empty());
    let table = populate_function_table(&nodes).unwrap();
    let names: Vec<String> = (0..table.len()).map(|i| table.key_at(i).clone()).collect();
    assert_eq!(names, vec!["alpha", "mid", "zeta"]);
    assert_eq!(table.get("alpha").unwrap().permissions, vec![Permissions::ReadFile]);
    assert_eq!(table.value_at(1).return_type, PrimitiveDataType::Bool);
    assert!(table.contains_key("zeta"));
}

#[test]
fn scopes_link_nodes_to_their_function() {
    let src = "import x.y\nfn f {\nreturn 1\n}\n5";
    let (mut nodes, problems) = parse(lex(src));
    assert!(problems.is_empty());
    let types: Vec<NodeType> = nodes.iter().map(|n| n.node_type).collect();
    assert_eq!(
        types,
        vec![
            NodeType::ImportStatement,
            NodeType::FunctionDeclaration,
            NodeType::ReturnStatement,
            NodeType::Expression,
            NodeType::CloseScope,
            NodeType::Expression
        ]
    );
    assert!(compute_scopes(&mut nodes).is_empty());
    let parents: Vec<Option<usize>> = nodes.iter().map(|n| n.parent_node_line).collect();
    assert_eq!(parents, vec![None, None, Some(1), Some(1), Some(1), None]);
}

#[test]
fn scope_errors() {
    let src = "fn f {\nfn g {\n}\n}";
    let (mut nodes, _) = parse(lex(src));
    let problems = compute_scopes(&mut nodes);
    assert_eq!(problems.len(), 2);
    assert_eq!(problems[0].class, ProblemClass::Error);
    assert_eq!(problems[0].line, 1);
    assert!(problems[0].message.starts_with("issue with function declaration"));
    assert_eq!(problems[1].message, "closing brace without an open scope");
    assert_eq!(problems[1].line, 3);
    assert!(!is_error_free(&problems));
}

#[test]
fn annotation_outside_function() {
    let src = "#Properties :: Pure\n#Permissions :: ReadFile\nfn f {\n}";
    let (mut nodes, problems) = parse(lex(src));
    assert!(is_error_free(&problems));
    compute_scopes(&mut nodes);
    let errors = populate_function_table(&nodes).err().unwrap();
    assert_eq!(errors.len(), 2);
    assert_eq!(errors[0].message, "property list declared outside of function");
    assert_eq!(errors[1].message, "property list declared outside of function");
    assert_eq!(errors[1].hint, "make sure all properties are inside a function");
    assert_eq!(errors[1].line, 1);
}

#[test]
fn unterminated_function_is_not_recorded() {
    let src = "fn f {\nreturn 1";
    let (mut nodes, _) = parse(lex(src));
    compute_scopes(&mut nodes);
    let table = populate_function_table(&nodes).unwrap();
    assert_eq!(table.len(), 0);
}

#[test]
fn failed_line_has_no_node_but_parsing_goes_on() {
    let src = "fn :: int {\nimport a\nreturn 1";
    let (nodes, problems) = parse(lex(src));
    let types: Vec<NodeType> = nodes.iter().map(|n| n.node_type).collect();
    assert_eq!(
        types,
        vec![NodeType::Empty, NodeType::Empty, NodeType::ReturnStatement, NodeType::Expression]
    );
    assert_eq!(problems.len(), 2);
    assert_eq!(problems[0].message, "function name is missing");
    assert_eq!(problems[1].line, 1);
    let (nodes, problems) = parse(lex("#Properties ::\nlet a = 1\n"));
    assert_eq!(nodes.len(), 2);
    assert_eq!(problems.len(), 2);
    assert_eq!(problems[0].class, ProblemClass::Warning);
    assert_eq!(problems[1].class, ProblemClass::Lint);
    assert!(is_error_free(&problems));
}

#[test]
fn compare_single_multi_threaded_1() {
    let line: &str = "import a b from c";
    let parsed_mt = fused_lex_and_parse(line);
    let lexed = lex(line);
    let parsed_st = parse(lexed);
    assert_eq!(parsed_mt.0.len(), parsed_st.0.len());
    assert_eq!(parsed_mt.0.len(), 1);
    assert_eq!(parsed_mt.0[0].node_type, parsed_st.0[0].node_type);
    assert_eq!(parsed_mt.1, parsed_st.1);
}

#[test]
fn fused_matches_sequential() {
    let src = "// adds\nfn add :: a int -> b int -> int {\n#Properties ::\n#Permissions ::\nlet x = + a b\nreturn x\n}\nimport q\nfn bad ::\n\n5 6";
    let (fused_nodes, fused_problems) = fused_lex_and_parse(src);
    let (nodes, problems) = parse(lex(src));
    let a: Vec<(NodeType, usize)> = fused_nodes.iter().map(|n| (n.node_type, n.source_line)).collect();
    let b: Vec<(NodeType, usize)> = nodes.iter().map(|n| (n.node_type, n.source_line)).collect();
    assert_eq!(a, b);
    assert_eq!(fused_problems, problems);
    assert!(problems.len() >= 4);
    let (empty_nodes, empty_problems) = fused_lex_and_parse("");
    assert!(empty_nodes.is_empty() && empty_problems.is_empty());
}

#[test]
fn no_argument_function_line() {
    let (nodes, problems) = parse(lex("fn main {\nreturn 0\n}"));
    assert!(problems.is_empty());
    assert_eq!(nodes[0].node_type, NodeType::FunctionDeclaration);
    match &nodes[0].grammar {
        Grammar::Function(f) => {
            assert_eq!(f.fn_name, "main");
            assert!(f.arguments.is_empty());
            assert!(f.done && f.is_valid);
        }
        _ => panic!("expected a function grammar"),
    }
}

#[test]
fn no_argument_function_alone() {
    let (nodes, problems) = parse(lex("fn start {"));
    assert!(problems.is_empty());
    assert_eq!(nodes.len(), 1);
    assert_eq!(nodes[0].node_type, NodeType::FunctionDeclaration);
    assert!(nodes[0].grammar.is_done());
    match &nodes[0].grammar {
        Grammar::Function(f) => {
            assert_eq!(f.fn_name, "start");
            assert!(f.arguments.is_empty());
            assert!(f.is_valid);
        }
        _ => panic!("expected a function grammar"),
    }
}
