use iona::lex::{lex, Symbol, Token};

#[test]
fn import() {
    let program: &str = "import read write from std.files";
    let expected: Vec<Symbol> = vec![
        Symbol::Import,
        Symbol::Value,
        Symbol::Value,
        Symbol::From,
        Symbol::Value,
    ];
    let tokens = lex(program);
    let actual = tokens.iter().map(|t| t.symbol).collect::<Vec<Symbol>>();
    assert_eq!(actual, expected);
}

#[test]
fn hello_world() {
    let program: &str = "fn main {
            println \"Hello, world\"
        }";
    let expected: Vec<Symbol> = vec![
        Symbol::FunctionDeclare,
        Symbol::Value,
        Symbol::BraceOpen,
        Symbol::Newline,
        Symbol::Value,
        Symbol::Value,
        Symbol::Value,
        Symbol::Newline,
        Symbol::BraceClose,
    ];
    let tokens = lex(program);
    let actual = tokens.iter().map(|t| t.symbol).collect::<Vec<Symbol>>();
    assert_eq!(actual, expected);
}

#[test]
fn partial_contract_pre() {
    let program: &str = "#In :: n < 0 -> \"n must be at least 0\"";
    let expected: Vec<Symbol> = vec![
        Symbol::ContractPre,
        Symbol::DoubleColon,
        Symbol::Value,
        Symbol::OpLt,
        Symbol::Value,
        Symbol::RightArrow,
        Symbol::Value,
        Symbol::Value,
        Symbol::Value,
        Symbol::Value,
        Symbol::Value,
        Symbol::Value,
    ];
    let tokens = lex(program);
    let actual = tokens.iter().map(|t| t.symbol).collect::<Vec<Symbol>>();
    assert_eq!(actual, expected);
}

#[test]
fn basic_math_ops() {
    let program: &str = "// This function adds two numbers
        fn add :: a int -> b int -> int {
            #Properties :: Pure Export
            return a + b
        }";
    let expected: Vec<Symbol> = vec![
        Symbol::Comment,
        Symbol::Newline,
        Symbol::FunctionDeclare,
        Symbol::Value,
        Symbol::DoubleColon,
        Symbol::Value,
        Symbol::TypeInt,
        Symbol::RightArrow,
        Symbol::Value,
        Symbol::TypeInt,
        Symbol::RightArrow,
        Symbol::TypeInt,
        Symbol::BraceOpen,
        Symbol::Newline,
        Symbol::PropertyDeclaration,
        Symbol::DoubleColon,
        Symbol::Value,
        Symbol::Value,
        Symbol::Newline,
        Symbol::Return,
        Symbol::Value,
        Symbol::OpPlus,
        Symbol::Value,
        Symbol::Newline,
        Symbol::BraceClose,
    ];
    let tokens = lex(program);
    let actual = tokens.iter().map(|t| t.symbol).collect::<Vec<Symbol>>();
    assert_eq!(actual, expected);
    assert_eq!(tokens[2].line, 1);
    assert_eq!(tokens[2].word, 0);
    assert_eq!(tokens[3].line, 1);
    assert_eq!(tokens[3].word, 1);
}

fn texts(tokens: &[Token]) -> Vec<String> {
    tokens.iter().map(|t| t.text.clone()).collect()
}

#[test]
fn lex_empty_and_blank_lines() {
    assert!(lex("").is_empty());
    assert!(lex("\n").is_empty());
    let tokens = lex("a\n\nb\n");
    assert_eq!(texts(&tokens), vec!["a", "\n", "\n", "b"]);
    assert_eq!(tokens[2].line, 1);
    assert_eq!(tokens[2].word, 0);
    assert_eq!(tokens[3].line, 2);
}

#[test]
fn lex_parentheses_and_separators() {
    let tokens = lex("f ((x)) \t()  y\r");
    assert_eq!(texts(&tokens), vec!["f", "(", "(", "x", ")", ")", "(", ")", "y"]);
    let words: Vec<usize> = tokens.iter().map(|t| t.word).collect();
    assert_eq!(words, vec![0, 1, 2, 3, 4, 5, 6, 7, 8]);
    assert_eq!(tokens[1].symbol, Symbol::ParenOpen);
    assert_eq!(tokens[3].symbol, Symbol::Value);
    assert_eq!(tokens[4].symbol, Symbol::ParenClose);
    let single = lex("(");
    assert_eq!(texts(&single), vec!["("]);
}

#[test]
fn lex_comment_lines() {
    let tokens = lex("  // a comment with fn and {\nx");
    assert_eq!(texts(&tokens), vec!["//", "\n", "x"]);
    assert_eq!(tokens[0].symbol, Symbol::Comment);
    assert_eq!(tokens[1].word, 1);
    assert_eq!(tokens[2].line, 1);
    let not_comment = lex("//x y");
    assert_eq!(not_comment[0].symbol, Symbol::Value);
    assert_eq!(not_comment.len(), 2);
}

#[test]
fn identify_symbols() {
    let cases: Vec<(&str, Symbol)> = vec![
        ("fn", Symbol::FunctionDeclare),
        ("::", Symbol::DoubleColon),
        ("->", Symbol::RightArrow),
        ("==", Symbol::DoubleEqualSign),
        ("^", Symbol::OpExp),
        (">=", Symbol::OpGte),
        ("set", Symbol::Reassign),
        ("get", Symbol::Get),
        ("#Permissions", Symbol::PermissionsDeclaration),
        ("#Invariant", Symbol::ContractInvariant),
        ("auto", Symbol::TypeAuto),
        ("@", Symbol::At),
        ("\n", Symbol::Newline),
        ("fnx", Symbol::Value),
    ];
    for (text, symbol) in cases {
        assert_eq!(Symbol::identify(text), symbol, "{}", text);
        let t = Token::new(text, 3, 4);
        assert_eq!(t.symbol, symbol);
        assert_eq!(t.text, text);
        assert_eq!((t.line, t.word), (3, 4));
    }
    assert!(Symbol::Value.is_expression_token());
    assert!(!Symbol::Newline.is_expression_token());
    assert!(Symbol::TypeAuto.is_banned_rhs());
    assert!(!Symbol::OpPlus.is_banned_rhs());
}
