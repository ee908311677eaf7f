//! The lexer: turns source text into a flat stream of located tokens.
use vstd::prelude::*;

use crate::text::{str_eq, string_from_chars};

verus! {

/// The lexical category of a token, a function of its text alone.
#[derive(Clone, Copy, Debug, PartialEq, Eq, Structural)]
pub enum Symbol {
    Value,
    FunctionDeclare,
    DoubleColon,
    RightArrow,
    EqualSign,
    DoubleEqualSign,
    OpPlus,
    OpMinus,
    OpDiv,
    OpMul,
    OpExp,
    OpGt,
    OpLt,
    OpGte,
    OpLte,
    ParenOpen,
    ParenClose,
    BraceOpen,
    BraceClose,
    Return,
    Import,
    From,
    Reassign,
    Get,
    If,
    Else,
    Comment,
    Newline,
    PropertyDeclaration,
    PermissionsDeclaration,
    ContractPre,
    ContractPost,
    ContractInvariant,
    Let,
    Mut,
    TypeStr,
    TypeInt,
    TypeBool,
    TypeVoid,
    TypeFloat,
    TypeAuto,
    At,
}

/// The symbol of a token text: keywords, operators and punctuation by exact text,
/// `Value` for anything else.
pub open spec fn identify(s: Seq<char>) -> Symbol {
    if s == "fn"@ {
        Symbol::FunctionDeclare
    } else if s == "::"@ {
        Symbol::DoubleColon
    } else if s == "->"@ {
        Symbol::RightArrow
    } else if s == "="@ {
        Symbol::EqualSign
    } else if s == "=="@ {
        Symbol::DoubleEqualSign
    } else if s == "+"@ {
        Symbol::OpPlus
    } else if s == "-"@ {
        Symbol::OpMinus
    } else if s == "/"@ {
        Symbol::OpDiv
    } else if s == "*"@ {
        Symbol::OpMul
    } else if s == "^"@ {
        Symbol::OpExp
    } else if s == ">"@ {
        Symbol::OpGt
    } else if s == "<"@ {
        Symbol::OpLt
    } else if s == ">="@ {
        Symbol::OpGte
    } else if s == "<="@ {
        Symbol::OpLte
    } else if s == "("@ {
        Symbol::ParenOpen
    } else if s == ")"@ {
        Symbol::ParenClose
    } else if s == "{"@ {
        Symbol::BraceOpen
    } else if s == "}"@ {
        Symbol::BraceClose
    } else if s == "return"@ {
        Symbol::Return
    } else if s == "import"@ {
        Symbol::Import
    } else if s == "from"@ {
        Symbol::From
    } else if s == "set"@ {
        Symbol::Reassign
    } else if s == "get"@ {
        Symbol::Get
    } else if s == "if"@ {
        Symbol::If
    } else if s == "else"@ {
        Symbol::Else
    } else if s == "//"@ {
        Symbol::Comment
    } else if s == "\n"@ {
        Symbol::Newline
    } else if s == "#Properties"@ {
        Symbol::PropertyDeclaration
    } else if s == "#Permissions"@ {
        Symbol::PermissionsDeclaration
    } else if s == "#In"@ {
        Symbol::ContractPre
    } else if s == "#Out"@ {
        Symbol::ContractPost
    } else if s == "#Invariant"@ {
        Symbol::ContractInvariant
    } else if s == "let"@ {
        Symbol::Let
    } else if s == "mut"@ {
        Symbol::Mut
    } else if s == "str"@ {
        Symbol::TypeStr
    } else if s == "int"@ {
        Symbol::TypeInt
    } else if s == "bool"@ {
        Symbol::TypeBool
    } else if s == "float"@ {
        Symbol::TypeFloat
    } else if s == "void"@ {
        Symbol::TypeVoid
    } else if s == "auto"@ {
        Symbol::TypeAuto
    } else if s == "@"@ {
        Symbol::At
    } else {
        Symbol::Value
    }
}

/// Symbols that may not appear in the value of an assignment.
pub open spec fn banned_rhs(s: Symbol) -> bool {
    match s {
        Symbol::FunctionDeclare | Symbol::DoubleColon | Symbol::Return | Symbol::Import
        | Symbol::From | Symbol::PropertyDeclaration | Symbol::PermissionsDeclaration
        | Symbol::ContractPre | Symbol::ContractPost | Symbol::ContractInvariant | Symbol::Let
        | Symbol::Mut | Symbol::TypeBool | Symbol::TypeFloat | Symbol::TypeInt | Symbol::TypeStr
        | Symbol::TypeVoid | Symbol::TypeAuto => true,
        _ => false,
    }
}

/// Symbols that may appear in an expression.
pub open spec fn expression_symbol(s: Symbol) -> bool {
    match s {
        Symbol::Value | Symbol::OpPlus | Symbol::OpMinus | Symbol::OpMul | Symbol::OpDiv
        | Symbol::OpExp | Symbol::OpGt | Symbol::OpLt | Symbol::OpGte | Symbol::OpLte | Symbol::At
        | Symbol::ParenOpen | Symbol::ParenClose => true,
        _ => false,
    }
}

/// The name of a symbol, as diagnostics print it.
pub open spec fn symbol_name(s: Symbol) -> Seq<char> {
    match s {
        Symbol::Value => "Value"@,
        Symbol::FunctionDeclare => "FunctionDeclare"@,
        Symbol::DoubleColon => "DoubleColon"@,
        Symbol::RightArrow => "RightArrow"@,
        Symbol::EqualSign => "EqualSign"@,
        Symbol::DoubleEqualSign => "DoubleEqualSign"@,
        Symbol::OpPlus => "OpPlus"@,
        Symbol::OpMinus => "OpMinus"@,
        Symbol::OpDiv => "OpDiv"@,
        Symbol::OpMul => "OpMul"@,
        Symbol::OpExp => "OpExp"@,
        Symbol::OpGt => "OpGt"@,
        Symbol::OpLt => "OpLt"@,
        Symbol::OpGte => "OpGte"@,
        Symbol::OpLte => "OpLte"@,
        Symbol::ParenOpen => "ParenOpen"@,
        Symbol::ParenClose => "ParenClose"@,
        Symbol::BraceOpen => "BraceOpen"@,
        Symbol::BraceClose => "BraceClose"@,
        Symbol::Return => "Return"@,
        Symbol::Import => "Import"@,
        Symbol::From => "From"@,
        Symbol::Reassign => "Set"@,
        Symbol::Get => "Get"@,
        Symbol::If => "If"@,
        Symbol::Else => "Else"@,
        Symbol::Comment => "Comment"@,
        Symbol::Newline => "Newline"@,
        Symbol::PropertyDeclaration => "PropertyDeclaration"@,
        Symbol::PermissionsDeclaration => "PermissionsDeclaration"@,
        Symbol::ContractPre => "ContractPre"@,
        Symbol::ContractPost => "ContractPost"@,
        Symbol::ContractInvariant => "ContractInvariant"@,
        Symbol::Let => "Let"@,
        Symbol::Mut => "Mut"@,
        Symbol::TypeStr => "TypeStr"@,
        Symbol::TypeInt => "TypeInt"@,
        Symbol::TypeBool => "TypeBool"@,
        Symbol::TypeVoid => "TypeVoid"@,
        Symbol::TypeFloat => "TypeFloat"@,
        Symbol::TypeAuto => "TypeAuto"@,
        Symbol::At => "At"@,
    }
}

impl Symbol {
    /// The name of the symbol, as diagnostics print it.
    pub fn name(&self) -> (r: &'static str)
        ensures
            r@ == symbol_name(*self),
    {
        match self {
            Symbol::Value => "Value",
            Symbol::FunctionDeclare => "FunctionDeclare",
            Symbol::DoubleColon => "DoubleColon",
            Symbol::RightArrow => "RightArrow",
            Symbol::EqualSign => "EqualSign",
            Symbol::DoubleEqualSign => "DoubleEqualSign",
            Symbol::OpPlus => "OpPlus",
            Symbol::OpMinus => "OpMinus",
            Symbol::OpDiv => "OpDiv",
            Symbol::OpMul => "OpMul",
            Symbol::OpExp => "OpExp",
            Symbol::OpGt => "OpGt",
            Symbol::OpLt => "OpLt",
            Symbol::OpGte => "OpGte",
            Symbol::OpLte => "OpLte",
            Symbol::ParenOpen => "ParenOpen",
            Symbol::ParenClose => "ParenClose",
            Symbol::BraceOpen => "BraceOpen",
            Symbol::BraceClose => "BraceClose",
            Symbol::Return => "Return",
            Symbol::Import => "Import",
            Symbol::From => "From",
            Symbol::Reassign => "Set",
            Symbol::Get => "Get",
            Symbol::If => "If",
            Symbol::Else => "Else",
            Symbol::Comment => "Comment",
            Symbol::Newline => "Newline",
            Symbol::PropertyDeclaration => "PropertyDeclaration",
            Symbol::PermissionsDeclaration => "PermissionsDeclaration",
            Symbol::ContractPre => "ContractPre",
            Symbol::ContractPost => "ContractPost",
            Symbol::ContractInvariant => "ContractInvariant",
            Symbol::Let => "Let",
            Symbol::Mut => "Mut",
            Symbol::TypeStr => "TypeStr",
            Symbol::TypeInt => "TypeInt",
            Symbol::TypeBool => "TypeBool",
            Symbol::TypeVoid => "TypeVoid",
            Symbol::TypeFloat => "TypeFloat",
            Symbol::TypeAuto => "TypeAuto",
            Symbol::At => "At",
        }
    }

    /// The symbol of a token text.
    pub fn identify(input: &str) -> (r: Symbol)
        ensures
            r == identify(input@),
    {
        if str_eq(input, "fn") {
            Symbol::FunctionDeclare
        } else if str_eq(input, "::") {
            Symbol::DoubleColon
        } else if str_eq(input, "->") {
            Symbol::RightArrow
        } else if str_eq(input, "=") {
            Symbol::EqualSign
        } else if str_eq(input, "==") {
            Symbol::DoubleEqualSign
        } else if str_eq(input, "+") {
            Symbol::OpPlus
        } else if str_eq(input, "-") {
            Symbol::OpMinus
        } else if str_eq(input, "/") {
            Symbol::OpDiv
        } else if str_eq(input, "*") {
            Symbol::OpMul
        } else if str_eq(input, "^") {
            Symbol::OpExp
        } else if str_eq(input, ">") {
            Symbol::OpGt
        } else if str_eq(input, "<") {
            Symbol::OpLt
        } else if str_eq(input, ">=") {
            Symbol::OpGte
        } else if str_eq(input, "<=") {
            Symbol::OpLte
        } else if str_eq(input, "(") {
            Symbol::ParenOpen
        } else if str_eq(input, ")") {
            Symbol::ParenClose
        } else if str_eq(input, "{") {
            Symbol::BraceOpen
        } else if str_eq(input, "}") {
            Symbol::BraceClose
        } else if str_eq(input, "return") {
            Symbol::Return
        } else if str_eq(input, "import") {
            Symbol::Import
        } else if str_eq(input, "from") {
            Symbol::From
        } else if str_eq(input, "set") {
            Symbol::Reassign
        } else if str_eq(input, "get") {
            Symbol::Get
        } else if str_eq(input, "if") {
            Symbol::If
        } else if str_eq(input, "else") {
            Symbol::Else
        } else if str_eq(input, "//") {
            Symbol::Comment
        } else if str_eq(input, "\n") {
            Symbol::Newline
        } else if str_eq(input, "#Properties") {
            Symbol::PropertyDeclaration
        } else if str_eq(input, "#Permissions") {
            Symbol::PermissionsDeclaration
        } else if str_eq(input, "#In") {
            Symbol::ContractPre
        } else if str_eq(input, "#Out") {
            Symbol::ContractPost
        } else if str_eq(input, "#Invariant") {
            Symbol::ContractInvariant
        } else if str_eq(input, "let") {
            Symbol::Let
        } else if str_eq(input, "mut") {
            Symbol::Mut
        } else if str_eq(input, "str") {
            Symbol::TypeStr
        } else if str_eq(input, "int") {
            Symbol::TypeInt
        } else if str_eq(input, "bool") {
            Symbol::TypeBool
        } else if str_eq(input, "float") {
            Symbol::TypeFloat
        } else if str_eq(input, "void") {
            Symbol::TypeVoid
        } else if str_eq(input, "auto") {
            Symbol::TypeAuto
        } else if str_eq(input, "@") {
            Symbol::At
        } else {
            Symbol::Value
        }
    }

    /// Whether the symbol may not appear in the value of an assignment.
    pub fn is_banned_rhs(&self) -> (r: bool)
        ensures
            r == banned_rhs(*self),
    {
        match self {
            Symbol::FunctionDeclare | Symbol::DoubleColon | Symbol::Return | Symbol::Import
            | Symbol::From | Symbol::PropertyDeclaration | Symbol::PermissionsDeclaration
            | Symbol::ContractPre | Symbol::ContractPost | Symbol::ContractInvariant | Symbol::Let
            | Symbol::Mut | Symbol::TypeBool | Symbol::TypeFloat | Symbol::TypeInt
            | Symbol::TypeStr | Symbol::TypeVoid | Symbol::TypeAuto => true,
            _ => false,
        }
    }

    /// Whether the symbol may appear in an expression.
    pub fn is_expression_token(&self) -> (r: bool)
        ensures
            r == expression_symbol(*self),
    {
        match self {
            Symbol::Value | Symbol::OpPlus | Symbol::OpMinus | Symbol::OpMul | Symbol::OpDiv
            | Symbol::OpExp | Symbol::OpGt | Symbol::OpLt | Symbol::OpGte | Symbol::OpLte
            | Symbol::At | Symbol::ParenOpen | Symbol::ParenClose => true,
            _ => false,
        }
    }
}

/// A token: its text, its symbol, and its zero-based line and word position.
#[derive(Clone, Debug, PartialEq, Eq)]
pub struct Token {
    pub text: String,
    pub symbol: Symbol,
    pub line: usize,
    pub word: usize,
}

/// What a token holds, with its text as characters.
pub struct TokenView {
    pub text: Seq<char>,
    pub symbol: Symbol,
    pub line: usize,
    pub word: usize,
}

impl View for Token {
    type V = TokenView;

    open spec fn view(&self) -> TokenView {
        TokenView { text: self.text@, symbol: self.symbol, line: self.line, word: self.word }
    }
}

/// The views of a sequence of tokens.
pub open spec fn token_views(v: Seq<Token>) -> Seq<TokenView> {
    v.map_values(|t: Token| t@)
}

/// The token with the given text at the given position.
pub open spec fn make_token(text: Seq<char>, line: int, word: int) -> TokenView {
    TokenView { text, symbol: identify(text), line: line as usize, word: word as usize }
}

impl Token {
    pub fn new(text: &str, line: usize, word: usize) -> (r: Token)
        ensures
            r@ == make_token(text@, line as int, word as int),
    {
        Token { text: String::from_str(text), symbol: Symbol::identify(text), line, word }
    }

    /// A copy of this token.
    pub fn duplicate(&self) -> (r: Token)
        ensures
            r@ == self@,
    {
        Token { text: self.text.clone(), symbol: self.symbol, line: self.line, word: self.word }
    }
}

// -------------------- How source text splits --------------------

/// The pieces of `s` between the characters that `sep` holds of, empty pieces included:
/// one more piece than there are separators.
pub open spec fn pieces(s: Seq<char>, sep: spec_fn(char) -> bool) -> Seq<Seq<char>>
    decreases s.len(),
{
    if s.len() == 0 {
        seq![Seq::empty()]
    } else {
        let p = pieces(s.drop_last(), sep);
        if sep(s.last()) {
            p.push(Seq::empty())
        } else {
            p.update(p.len() - 1, p.last().push(s.last()))
        }
    }
}

/// The line separator.
pub open spec fn is_newline(c: char) -> bool {
    c == '\n'
}

/// Word separators within a line.
pub open spec fn is_separator(c: char) -> bool {
    c == ' ' || c == '\t' || c == '\r'
}

/// The newline test, as a function value.
pub open spec fn newlines() -> spec_fn(char) -> bool {
    |c: char| is_newline(c)
}

/// The separator test, as a function value.
pub open spec fn separators() -> spec_fn(char) -> bool {
    |c: char| is_separator(c)
}

/// The test for a non-empty word, as a function value.
pub open spec fn nonempty() -> spec_fn(Seq<char>) -> bool {
    |w: Seq<char>| w.len() > 0
}

/// The physical lines of a text: split at each newline, with no line after a final newline.
pub open spec fn source_lines(s: Seq<char>) -> Seq<Seq<char>> {
    let p = pieces(s, newlines());
    if p.last().len() == 0 {
        p.drop_last()
    } else {
        p
    }
}

/// The words of a line: its pieces between separators, empty ones dropped.
pub open spec fn words_of(line: Seq<char>) -> Seq<Seq<char>> {
    pieces(line, separators()).filter(nonempty())
}

/// The number of `(` at the start of a word.
pub open spec fn leading_opens(w: Seq<char>) -> nat
    decreases w.len(),
{
    if w.len() > 0 && w[0] == '(' {
        1 + leading_opens(w.drop_first())
    } else {
        0
    }
}

/// The number of `)` at the end of a word.
pub open spec fn trailing_closes(w: Seq<char>) -> nat
    decreases w.len(),
{
    if w.len() > 0 && w.last() == ')' {
        1 + trailing_closes(w.drop_last())
    } else {
        0
    }
}

/// Whether a word is split at its parentheses.
pub open spec fn is_wrapped(w: Seq<char>) -> bool {
    w.len() > 1 && (w[0] == '(' || w.last() == ')')
}

/// `n` copies of a text.
pub open spec fn copies(t: Seq<char>, n: nat) -> Seq<Seq<char>> {
    Seq::new(n, |i: int| t)
}

/// The word stripped of its leading `(` and trailing `)`.
pub open spec fn core_of(w: Seq<char>) -> Seq<char> {
    w.subrange(leading_opens(w) as int, w.len() - trailing_closes(w))
}

/// The token texts of one word: a wrapped word gives its `(`s, its core unless empty, and its
/// `)`s; any other word is one token.
pub open spec fn word_texts(w: Seq<char>) -> Seq<Seq<char>> {
    if is_wrapped(w) {
        let core = core_of(w);
        copies("("@, leading_opens(w)) + (if core.len() > 0 {
            seq![core]
        } else {
            Seq::empty()
        }) + copies(")"@, trailing_closes(w))
    } else {
        seq![w]
    }
}

/// The token texts of a sequence of words, in order.
pub open spec fn texts_of_words(ws: Seq<Seq<char>>) -> Seq<Seq<char>>
    decreases ws.len(),
{
    if ws.len() == 0 {
        Seq::empty()
    } else {
        texts_of_words(ws.drop_last()) + word_texts(ws.last())
    }
}

/// Whether a line is a comment: its first word is `//`.
pub open spec fn is_comment_line(line: Seq<char>) -> bool {
    words_of(line).len() > 0 && words_of(line)[0] == "//"@
}

/// The token texts of a line, before its newline. A comment line is the single text `//`.
pub open spec fn line_texts(line: Seq<char>) -> Seq<Seq<char>> {
    if is_comment_line(line) {
        seq!["//"@]
    } else {
        texts_of_words(words_of(line))
    }
}

/// Tokens for the given texts on one line, numbered from word `first`.
pub open spec fn tokens_from(texts: Seq<Seq<char>>, line: int, first: int) -> Seq<TokenView> {
    Seq::new(texts.len(), |j: int| make_token(texts[j], line, first + j))
}

/// The tokens of the line with the given index, its newline included, numbered from word 0.
pub open spec fn line_tokens(line: Seq<char>, index: int) -> Seq<TokenView> {
    tokens_from(line_texts(line).push("\n"@), index, 0)
}

/// The tokens of a sequence of lines, each with its newline, numbered from line 0.
pub open spec fn tokens_of_lines(ls: Seq<Seq<char>>) -> Seq<TokenView>
    decreases ls.len(),
{
    if ls.len() == 0 {
        Seq::empty()
    } else {
        tokens_of_lines(ls.drop_last()) + line_tokens(ls.last(), ls.len() - 1)
    }
}

/// The tokens of a text: those of its lines, without the newline after the last line.
pub open spec fn lex_spec(s: Seq<char>) -> Seq<TokenView> {
    let all = tokens_of_lines(source_lines(s));
    if all.len() > 0 {
        all.drop_last()
    } else {
        all
    }
}


proof fn lemma_tokens_from_append(t: Seq<Seq<char>>, u: Seq<Seq<char>>, line: int, first: int)
    ensures
        tokens_from(t + u, line, first) == tokens_from(t, line, first) + tokens_from(
            u,
            line,
            first + t.len(),
        ),
{
    assert(tokens_from(t + u, line, first) =~= tokens_from(t, line, first) + tokens_from(
        u,
        line,
        first + t.len(),
    ));
}

proof fn lemma_token_views_push(v: Seq<Token>, t: Token)
    ensures
        token_views(v.push(t)) == token_views(v).push(t@),
{
    assert(token_views(v.push(t)) =~= token_views(v).push(t@));
}

proof fn lemma_leading_step(c: Seq<char>, a: int, e: int)
    requires
        0 <= a < e <= c.len(),
        c[a] == '(',
    ensures
        leading_opens(c.subrange(a, e)) == 1 + leading_opens(c.subrange(a + 1, e)),
{
    assert(c.subrange(a, e).drop_first() =~= c.subrange(a + 1, e));
}

proof fn lemma_trailing_step(c: Seq<char>, s: int, b: int)
    requires
        0 <= s < b <= c.len(),
        c[b - 1] == ')',
    ensures
        trailing_closes(c.subrange(s, b)) == 1 + trailing_closes(c.subrange(s, b - 1)),
{
    assert(c.subrange(s, b).drop_last() =~= c.subrange(s, b - 1));
}

/// Pushes the tokens of the word `chars[s..e]`, numbered from `word`; returns the next number.
fn push_word_tokens(
    chars: &Vec<char>,
    s: usize,
    e: usize,
    line: usize,
    word: usize,
    tokens: &mut Vec<Token>,
) -> (next: usize)
    requires
        s < e <= chars@.len(),
        word + (e - s) <= usize::MAX,
    ensures
        token_views(final(tokens)@) == token_views(old(tokens)@) + tokens_from(
            word_texts(chars@.subrange(s as int, e as int)),
            line as int,
            word as int,
        ),
        next == word + word_texts(chars@.subrange(s as int, e as int)).len(),
        next <= word + (e - s),
{
    let ghost w = chars@.subrange(s as int, e as int);
    let ghost base = token_views(tokens@);
    if e - s > 1 && (chars[s] == '(' || chars[e - 1] == ')') {
        let mut a: usize = s;
        while a < e && chars[a] == '('
            invariant
                s <= a <= e <= chars@.len(),
                leading_opens(w) == (a - s) + leading_opens(chars@.subrange(a as int, e as int)),
                forall|j: int| s <= j < a ==> chars@[j] == '(',
            decreases e - a,
        {
            proof {
                lemma_leading_step(chars@, a as int, e as int);
            }
            a = a + 1;
        }
        assert(leading_opens(chars@.subrange(a as int, e as int)) == 0);
        let mut b: usize = e;
        while b > a && chars[b - 1] == ')'
            invariant
                s <= a <= b <= e <= chars@.len(),
                trailing_closes(w) == (e - b) + trailing_closes(chars@.subrange(s as int, b as int)),
                forall|j: int| b <= j < e ==> chars@[j] == ')',
            decreases b - a,
        {
            proof {
                lemma_trailing_step(chars@, s as int, b as int);
            }
            b = b - 1;
        }
        assert(trailing_closes(chars@.subrange(s as int, b as int)) == 0) by {
            if b == a && a > s {
                assert(chars@.subrange(s as int, b as int).last() == chars@[a - 1]);
            }
        }
        assert(core_of(w) =~= chars@.subrange(a as int, b as int));
        let mut n: usize = word;
        let opens_end: usize = word + (a - s);
        let ghost mut done: Seq<Seq<char>> = Seq::empty();
        while n < opens_end
            invariant
                opens_end == word + (a - s),
                word <= n <= opens_end,
                done == copies("("@, (n - word) as nat),
                token_views(tokens@) == base + tokens_from(done, line as int, word as int),
            decreases opens_end - n,
        {
            let t = Token::new("(", line, n);
            proof {
                lemma_token_views_push(tokens@, t);
            }
            tokens.push(t);
            proof {
                lemma_tokens_from_append(done, seq!["("@], line as int, word as int);
                done = done.push("("@);
                assert(done =~= copies("("@, (n + 1 - word) as nat));
            }
            n = n + 1;
        }
        if a < b {
            let t = Token::new(string_from_chars(&chars.as_slice()[a..b]).as_str(), line, n);
            proof {
                lemma_token_views_push(tokens@, t);
                lemma_tokens_from_append(done, seq![t@.text], line as int, word as int);
                done = done.push(t@.text);
            }
            tokens.push(t);
            n = n + 1;
        }
        let ghost mid = done;
        let mid_n = n;
        assert(mid_n + (e - b) <= word + (e - s));
        let closes_end: usize = mid_n + (e - b);
        while n < closes_end
            invariant
                closes_end == mid_n + (e - b),
                mid_n <= n <= closes_end,
                mid_n == word + mid.len(),
                done == mid + copies(")"@, (n - mid_n) as nat),
                token_views(tokens@) == base + tokens_from(done, line as int, word as int),
            decreases closes_end - n,
        {
            let t = Token::new(")", line, n);
            proof {
                lemma_token_views_push(tokens@, t);
            }
            tokens.push(t);
            proof {
                lemma_tokens_from_append(done, seq![")"@], line as int, word as int);
                done = done.push(")"@);
                assert(done =~= mid + copies(")"@, (n + 1 - mid_n) as nat));
            }
            n = n + 1;
        }
        assert(done =~= word_texts(w));
        n
    } else {
        let t = Token::new(string_from_chars(&chars.as_slice()[s..e]).as_str(), line, word);
        proof {
            lemma_token_views_push(tokens@, t);
            assert(tokens_from(word_texts(w), line as int, word as int) =~= seq![t@]);
        }
        tokens.push(t);
        word + 1
    }
}


// -------------------- Lexing a declaration line --------------------

/// Whether no character of `s` is one that `sep` holds of.
pub open spec fn free_of(s: Seq<char>, sep: spec_fn(char) -> bool) -> bool {
    forall|i: int| 0 <= i < s.len() ==> !sep(#[trigger] s[i])
}

proof fn lemma_pieces_free(s: Seq<char>, sep: spec_fn(char) -> bool)
    requires
        free_of(s, sep),
    ensures
        pieces(s, sep) == seq![s],
    decreases s.len(),
{
    if s.len() > 0 {
        assert(free_of(s.drop_last(), sep)) by {
            assert forall|i: int| 0 <= i < s.drop_last().len() implies !sep(
                #[trigger] s.drop_last()[i],
            ) by {
                assert(s.drop_last()[i] == s[i]);
            }
        }
        lemma_pieces_free(s.drop_last(), sep);
        assert(!sep(s[s.len() - 1]));
        assert(s.drop_last().push(s.last()) =~= s);
    } else {
        assert(s =~= Seq::<char>::empty());
    }
}

/// A separator splits the pieces in two.
proof fn lemma_pieces_split(a: Seq<char>, c: char, b: Seq<char>, sep: spec_fn(char) -> bool)
    requires
        sep(c),
    ensures
        pieces(a.push(c) + b, sep) == pieces(a, sep) + pieces(b, sep),
    decreases b.len(),
{
    if b.len() == 0 {
        assert(a.push(c) + b =~= a.push(c));
        assert(a.push(c).drop_last() =~= a);
        assert(pieces(a, sep).push(Seq::empty()) =~= pieces(a, sep) + seq![Seq::<char>::empty()]);
    } else {
        lemma_pieces_split(a, c, b.drop_last(), sep);
        lemma_pieces_nonempty(b.drop_last(), sep);
        assert((a.push(c) + b).drop_last() =~= a.push(c) + b.drop_last());
        assert((a.push(c) + b).last() == b.last());
        let p = pieces(a, sep);
        let q = pieces(b.drop_last(), sep);
        if sep(b.last()) {
            assert((p + q).push(Seq::empty()) =~= p + q.push(Seq::empty()));
        } else {
            assert((p + q).update((p + q).len() - 1, (p + q).last().push(b.last())) =~= p + q.update(
                q.len() - 1,
                q.last().push(b.last()),
            ));
        }
    }
}

/// With a separator after a separator-free prefix, the first piece is that prefix.
proof fn lemma_first_piece(a: Seq<char>, b: Seq<char>, sep: spec_fn(char) -> bool)
    requires
        free_of(a, sep),
        b.len() > 0,
        sep(b[0]),
    ensures
        pieces(a + b, sep)[0] == a,
        pieces(a + b, sep).len() >= 2,
{
    lemma_pieces_free(a, sep);
    assert(a + b =~= a.push(b[0]) + b.drop_first());
    lemma_pieces_split(a, b[0], b.drop_first(), sep);
    lemma_pieces_nonempty(b.drop_first(), sep);
}

/// The tokens of the first line lead the tokens of all lines.
proof fn lemma_first_line_tokens(ls: Seq<Seq<char>>)
    requires
        ls.len() > 0,
    ensures
        tokens_of_lines(ls).len() >= line_tokens(ls[0], 0).len(),
        tokens_of_lines(ls).take(line_tokens(ls[0], 0).len() as int) == line_tokens(ls[0], 0),
    decreases ls.len(),
{
    if ls.len() == 1 {
        assert(ls.drop_last() =~= Seq::<Seq<char>>::empty());
        assert(tokens_of_lines(ls.drop_last()) == Seq::<TokenView>::empty());
        let lt = line_tokens(ls[0], 0);
        assert(Seq::<TokenView>::empty() + lt =~= lt);
        assert(lt.take(lt.len() as int) =~= lt);
    } else {
        lemma_first_line_tokens(ls.drop_last());
        let t = tokens_of_lines(ls.drop_last());
        let n = line_tokens(ls[0], 0).len() as int;
        assert((t + line_tokens(ls.last(), ls.len() - 1)).take(n) =~= t.take(n));
    }
}

/// The symbol of the newline text.
pub proof fn lemma_newline_symbol()
    ensures
        identify("\n"@) == Symbol::Newline,
{
    reveal_strlit("\n");
    assert("\n"@ =~= seq!['\n']);
    assert("\n"@[0] == '\n');
    reveal_strlit("fn");
    assert("fn"@ =~= seq!['f', 'n']);
    assert("fn"@[0] == 'f');
    reveal_strlit("::");
    assert("::"@ =~= seq![':', ':']);
    assert("::"@[0] == ':');
    reveal_strlit("->");
    assert("->"@ =~= seq!['-', '>']);
    assert("->"@[0] == '-');
    reveal_strlit("=");
    assert("="@ =~= seq!['=']);
    assert("="@[0] == '=');
    reveal_strlit("==");
    assert("=="@ =~= seq!['=', '=']);
    assert("=="@[0] == '=');
    reveal_strlit("+");
    assert("+"@ =~= seq!['+']);
    assert("+"@[0] == '+');
    reveal_strlit("-");
    assert("-"@ =~= seq!['-']);
    assert("-"@[0] == '-');
    reveal_strlit("/");
    assert("/"@ =~= seq!['/']);
    assert("/"@[0] == '/');
    reveal_strlit("*");
    assert("*"@ =~= seq!['*']);
    assert("*"@[0] == '*');
    reveal_strlit("^");
    assert("^"@ =~= seq!['^']);
    assert("^"@[0] == '^');
    reveal_strlit(">");
    assert(">"@ =~= seq!['>']);
    assert(">"@[0] == '>');
    reveal_strlit("<");
    assert("<"@ =~= seq!['<']);
    assert("<"@[0] == '<');
    reveal_strlit(">=");
    assert(">="@ =~= seq!['>', '=']);
    assert(">="@[0] == '>');
    reveal_strlit("<=");
    assert("<="@ =~= seq!['<', '=']);
    assert("<="@[0] == '<');
    reveal_strlit("(");
    assert("("@ =~= seq!['(']);
    assert("("@[0] == '(');
    reveal_strlit(")");
    assert(")"@ =~= seq![')']);
    assert(")"@[0] == ')');
    reveal_strlit("{");
    assert("{"@ =~= seq!['{']);
    assert("{"@[0] == '{');
    reveal_strlit("}");
    assert("}"@ =~= seq!['}']);
    assert("}"@[0] == '}');
    reveal_strlit("return");
    assert("return"@ =~= seq!['r', 'e', 't', 'u', 'r', 'n']);
    assert("return"@[0] == 'r');
    reveal_strlit("import");
    assert("import"@ =~= seq!['i', 'm', 'p', 'o', 'r', 't']);
    assert("import"@[0] == 'i');
    reveal_strlit("from");
    assert("from"@ =~= seq!['f', 'r', 'o', 'm']);
    assert("from"@[0] == 'f');
    reveal_strlit("set");
    assert("set"@ =~= seq!['s', 'e', 't']);
    assert("set"@[0] == 's');
    reveal_strlit("get");
    assert("get"@ =~= seq!['g', 'e', 't']);
    assert("get"@[0] == 'g');
    reveal_strlit("if");
    assert("if"@ =~= seq!['i', 'f']);
    assert("if"@[0] == 'i');
    reveal_strlit("else");
    assert("else"@ =~= seq!['e', 'l', 's', 'e']);
    assert("else"@[0] == 'e');
    reveal_strlit("//");
    assert("//"@ =~= seq!['/', '/']);
    assert("//"@[0] == '/');
}

/// The symbols of `fn` and `{`.
pub proof fn lemma_declaration_symbols()
    ensures
        identify("{"@) == Symbol::BraceOpen,
        identify("fn"@) == Symbol::FunctionDeclare,
{
    reveal_strlit("{");
    assert("{"@ =~= seq!['{']);
    assert("{"@[0] == '{');
    reveal_strlit("fn");
    assert("fn"@ =~= seq!['f', 'n']);
    reveal_strlit("::");
    assert("::"@ =~= seq![':', ':']);
    reveal_strlit("->");
    assert("->"@ =~= seq!['-', '>']);
    reveal_strlit("=");
    assert("="@ =~= seq!['=']);
    assert("="@[0] == '=');
    reveal_strlit("==");
    assert("=="@ =~= seq!['=', '=']);
    reveal_strlit("+");
    assert("+"@ =~= seq!['+']);
    assert("+"@[0] == '+');
    reveal_strlit("-");
    assert("-"@ =~= seq!['-']);
    assert("-"@[0] == '-');
    reveal_strlit("/");
    assert("/"@ =~= seq!['/']);
    assert("/"@[0] == '/');
    reveal_strlit("*");
    assert("*"@ =~= seq!['*']);
    assert("*"@[0] == '*');
    reveal_strlit("^");
    assert("^"@ =~= seq!['^']);
    assert("^"@[0] == '^');
    reveal_strlit(">");
    assert(">"@ =~= seq!['>']);
    assert(">"@[0] == '>');
    reveal_strlit("<");
    assert("<"@ =~= seq!['<']);
    assert("<"@[0] == '<');
    reveal_strlit(">=");
    assert(">="@ =~= seq!['>', '=']);
    reveal_strlit("<=");
    assert("<="@ =~= seq!['<', '=']);
    reveal_strlit("(");
    assert("("@ =~= seq!['(']);
    assert("("@[0] == '(');
    reveal_strlit(")");
    assert(")"@ =~= seq![')']);
    assert(")"@[0] == ')');
}

/// The pieces of `a b c` when none of the three holds a separator.
proof fn lemma_three_pieces(a: Seq<char>, b: Seq<char>, c: Seq<char>)
    requires
        free_of(a, separators()),
        free_of(b, separators()),
        free_of(c, separators()),
    ensures
        pieces(a + seq![' '] + b + seq![' '] + c, separators()) == seq![a, b, c],
{
    let tail = b + seq![' '] + c;
    assert(a + seq![' '] + b + seq![' '] + c =~= a.push(' ') + tail);
    lemma_pieces_split(a, ' ', tail, separators());
    assert(tail =~= b.push(' ') + c);
    lemma_pieces_split(b, ' ', c, separators());
    lemma_pieces_free(a, separators());
    lemma_pieces_free(b, separators());
    lemma_pieces_free(c, separators());
    assert(seq![a] + (seq![b] + seq![c]) =~= seq![a, b, c]);
}

/// Three non-empty pieces are three words.
proof fn lemma_three_words(a: Seq<char>, b: Seq<char>, c: Seq<char>)
    requires
        a.len() > 0,
        b.len() > 0,
        c.len() > 0,
    ensures
        seq![a, b, c].filter(nonempty()) == seq![a, b, c],
{
    let ps = seq![a, b, c];
    lemma_filter_last(ps);
    lemma_filter_last(ps.drop_last());
    lemma_filter_last(ps.drop_last().drop_last());
    assert(ps.drop_last().drop_last().drop_last() =~= Seq::<Seq<char>>::empty());
    reveal(Seq::filter);
    assert(ps.drop_last().drop_last().drop_last().filter(nonempty()) =~= Seq::<Seq<char>>::empty());
    assert(ps.drop_last().drop_last() =~= seq![a]);
    assert(ps.drop_last() =~= seq![a, b]);
    assert(seq![a].filter(nonempty()) =~= seq![a]);
    assert(seq![a, b].filter(nonempty()) =~= seq![a, b]);
    assert(ps.filter(nonempty()) =~= ps);
}

/// The token texts of three words that are not wrapped in parentheses.
proof fn lemma_three_texts(a: Seq<char>, b: Seq<char>, c: Seq<char>)
    requires
        !is_wrapped(a),
        !is_wrapped(b),
        !is_wrapped(c),
    ensures
        texts_of_words(seq![a, b, c]) == seq![a, b, c],
{
    let ws = seq![a, b, c];
    assert(ws.drop_last().drop_last().drop_last() =~= Seq::<Seq<char>>::empty());
    assert(ws.drop_last().drop_last() =~= seq![a]);
    assert(ws.drop_last() =~= seq![a, b]);
    assert(seq![a].drop_last() =~= Seq::<Seq<char>>::empty());
    assert(texts_of_words(Seq::<Seq<char>>::empty()) == Seq::<Seq<char>>::empty());
    assert(word_texts(a) == seq![a]);
    assert(word_texts(b) == seq![b]);
    assert(word_texts(c) == seq![c]);
    assert(Seq::<Seq<char>>::empty() + seq![a] =~= seq![a]);
    assert(texts_of_words(seq![a]) =~= seq![a]);
    assert(seq![a, b].drop_last() =~= seq![a]);
    assert(texts_of_words(seq![a, b]) =~= seq![a, b]);
    assert(texts_of_words(ws) =~= seq![a, b, c]);
}

/// The words of `fn NAME {`.
proof fn lemma_declaration_words(name: Seq<char>)
    requires
        name.len() > 0,
        free_of(name, separators()),
        !is_wrapped(name),
    ensures
        line_texts("fn"@ + seq![' '] + name + seq![' '] + "{"@) == seq!["fn"@, name, "{"@],
{
    reveal_strlit("fn");
    reveal_strlit("{");
    reveal_strlit("//");
    let kw: Seq<char> = "fn"@;
    let br: Seq<char> = "{"@;
    assert(kw =~= seq!['f', 'n']);
    assert(br =~= seq!['{']);
    let line = kw + seq![' '] + name + seq![' '] + br;
    assert(free_of(kw, separators()));
    assert(free_of(br, separators()));
    lemma_three_pieces(kw, name, br);
    lemma_three_words(kw, name, br);
    assert(words_of(line) == seq![kw, name, br]);
    assert(!is_comment_line(line)) by {
        assert("//"@ =~= seq!['/', '/']);
        assert(kw[0] != "//"@[0]);
    }
    lemma_three_texts(kw, name, br);
}

/// A line `fn NAME {`, where `NAME` is one plain word, followed by the end of the text or a
/// newline, lexes to the tokens `fn`, `NAME` and `{` on line 0.
pub proof fn lemma_lex_declaration_line(name: Seq<char>, rest: Seq<char>)
    requires
        name.len() > 0,
        free_of(name, separators()),
        free_of(name, newlines()),
        !is_wrapped(name),
        rest.len() == 0 || rest[0] == '\n',
    ensures
        ({
            let toks = lex_spec("fn"@ + seq![' '] + name + seq![' '] + "{"@ + rest);
            &&& toks.len() >= 3
            &&& toks[0] == make_token("fn"@, 0, 0)
            &&& toks[1] == make_token(name, 0, 1)
            &&& toks[2] == make_token("{"@, 0, 2)
            &&& rest.len() == 0 ==> toks.len() == 3
        }),
{
    reveal_strlit("fn");
    reveal_strlit("{");
    let kw: Seq<char> = "fn"@;
    let br: Seq<char> = "{"@;
    assert(kw =~= seq!['f', 'n']);
    assert(br =~= seq!['{']);
    let line = kw + seq![' '] + name + seq![' '] + br;
    let text = line + rest;
    assert(free_of(line, newlines())) by {
        assert forall|i: int| 0 <= i < line.len() implies !newlines()(#[trigger] line[i]) by {
            if 3 <= i < 3 + name.len() {
                assert(line[i] == name[i - 3]);
            }
        }
    }
    if rest.len() == 0 {
        assert(text =~= line);
        lemma_pieces_free(line, newlines());
        assert(source_lines(text) == seq![line]);
    } else {
        lemma_first_piece(line, rest, newlines());
    }
    let ls = source_lines(text);
    assert(ls.len() > 0 && ls[0] == line);
    lemma_declaration_words(name);
    lemma_first_line_tokens(ls);
    let lt = line_tokens(line, 0);
    assert(lt.len() == 4);
    let all = tokens_of_lines(ls);
    assert(all.take(4) == lt);
    assert(all[0] == lt[0] && all[1] == lt[1] && all[2] == lt[2]);
    if rest.len() == 0 {
        assert(ls.len() == 1);
        assert(ls.drop_last() =~= Seq::<Seq<char>>::empty());
        assert(all.len() == tokens_of_lines(ls.drop_last()).len() + lt.len());
    }
}

/// One step of `pieces`: the pieces after one more character.
proof fn lemma_pieces_step(c: Seq<char>, from: int, i: int, sep: spec_fn(char) -> bool)
    requires
        0 <= from <= i < c.len(),
    ensures
        ({
            let p = pieces(c.subrange(from, i), sep);
            pieces(c.subrange(from, i + 1), sep) == if sep(c[i]) {
                p.push(Seq::empty())
            } else {
                p.update(p.len() - 1, p.last().push(c[i]))
            }
        }),
        pieces(c.subrange(from, i), sep).len() > 0,
{
    assert(c.subrange(from, i + 1).drop_last() =~= c.subrange(from, i));
    lemma_pieces_nonempty(c.subrange(from, i), sep);
}

proof fn lemma_pieces_nonempty(s: Seq<char>, sep: spec_fn(char) -> bool)
    ensures
        pieces(s, sep).len() > 0,
    decreases s.len(),
{
    if s.len() > 0 {
        lemma_pieces_nonempty(s.drop_last(), sep);
    }
}

proof fn lemma_filter_last(p: Seq<Seq<char>>)
    requires
        p.len() > 0,
    ensures
        p.filter(nonempty()) == if p.last().len() > 0 {
            p.drop_last().filter(nonempty()).push(p.last())
        } else {
            p.drop_last().filter(nonempty())
        },
{
    reveal(Seq::filter);
}

/// The start and end of each word of `chars[from..to]`, in order.
fn word_spans(chars: &Vec<char>, from: usize, to: usize) -> (spans: Vec<(usize, usize)>)
    requires
        from <= to <= chars@.len(),
    ensures
        spans@.len() == words_of(chars@.subrange(from as int, to as int)).len(),
        forall|k: int|
            0 <= k < spans@.len() ==> from <= (#[trigger] spans@[k]).0 < spans@[k].1 <= to
                && chars@.subrange(spans@[k].0 as int, spans@[k].1 as int) == words_of(
                chars@.subrange(from as int, to as int),
            )[k],
        forall|k: int| 0 < k < spans@.len() ==> spans@[k - 1].1 < (#[trigger] spans@[k]).0,
{
    let mut spans: Vec<(usize, usize)> = Vec::new();
    let mut start: usize = from;
    let mut i: usize = from;
    while i < to
        invariant
            from <= start <= i <= to <= chars@.len(),
            pieces(chars@.subrange(from as int, i as int), separators()).len() > 0,
            pieces(chars@.subrange(from as int, i as int), separators()).last()
                == chars@.subrange(start as int, i as int),
            ({
                let f = pieces(chars@.subrange(from as int, i as int), separators()).drop_last().filter(
                    nonempty(),
                );
                &&& spans@.len() == f.len()
                &&& forall|k: int|
                    0 <= k < spans@.len() ==> from <= (#[trigger] spans@[k]).0 < spans@[k].1 < start
                        && chars@.subrange(spans@[k].0 as int, spans@[k].1 as int) == f[k]
            }),
            forall|k: int| 0 < k < spans@.len() ==> spans@[k - 1].1 < (#[trigger] spans@[k]).0,
        decreases to - i,
    {
        let ghost p = pieces(chars@.subrange(from as int, i as int), separators());
        proof {
            lemma_pieces_step(chars@, from as int, i as int, separators());
        }
        let c = chars[i];
        if c == ' ' || c == '\t' || c == '\r' {
            assert(pieces(chars@.subrange(from as int, i + 1), separators()).drop_last() =~= p);
            proof {
                lemma_filter_last(p);
            }
            if start < i {
                spans.push((start, i));
            }
            start = i + 1;
        } else {
            assert(pieces(chars@.subrange(from as int, i + 1), separators()).drop_last()
                =~= p.drop_last());
            assert(chars@.subrange(start as int, i + 1) =~= chars@.subrange(
                start as int,
                i as int,
            ).push(c));
        }
        i = i + 1;
    }
    let ghost p = pieces(chars@.subrange(from as int, to as int), separators());
    proof {
        lemma_pieces_nonempty(chars@.subrange(from as int, to as int), separators());
        lemma_filter_last(p);
    }
    if start < to {
        spans.push((start, to));
    }
    spans
}

/// Whether the line `chars[from..to]`, whose word spans are given, is a comment line.
fn first_word_is_comment(chars: &Vec<char>, from: usize, to: usize, spans: &Vec<(usize, usize)>) -> (r:
    bool)
    requires
        from <= to <= chars@.len(),
        spans@.len() == words_of(chars@.subrange(from as int, to as int)).len(),
        forall|k: int|
            0 <= k < spans@.len() ==> from <= (#[trigger] spans@[k]).0 < spans@[k].1 <= to
                && chars@.subrange(spans@[k].0 as int, spans@[k].1 as int) == words_of(
                chars@.subrange(from as int, to as int),
            )[k],
    ensures
        r == is_comment_line(chars@.subrange(from as int, to as int)),
{
    let ghost words = words_of(chars@.subrange(from as int, to as int));
    proof {
        reveal_strlit("//");
    }
    if spans.len() > 0 && spans[0].1 - spans[0].0 == 2 && chars[spans[0].0] == '/' && chars[spans[0].0
        + 1] == '/' {
        assert(words[0] =~= "//"@);
        true
    } else {
        assert(!is_comment_line(chars@.subrange(from as int, to as int))) by {
            if words.len() > 0 && words[0] == "//"@ {
                assert(words[0].len() == 2);
                assert(words[0][0] == chars@[spans@[0].0 as int]);
                assert(words[0][1] == chars@[spans@[0].0 + 1]);
            }
        }
        false
    }
}

/// Pushes the tokens of the line `chars[from..to]` with the given index, its newline included.
#[verifier::rlimit(40)]
pub(crate) fn lex_line(chars: &Vec<char>, from: usize, to: usize, index: usize, tokens: &mut Vec<Token>)
    requires
        from <= to <= chars@.len(),
    ensures
        token_views(final(tokens)@) == token_views(old(tokens)@) + line_tokens(
            chars@.subrange(from as int, to as int),
            index as int,
        ),
{
    let ghost line = chars@.subrange(from as int, to as int);
    let ghost words = words_of(line);
    let ghost base = token_views(tokens@);
    let spans = word_spans(chars, from, to);
    if first_word_is_comment(chars, from, to, &spans) {
        let t1 = Token::new("//", index, 0);
        proof {
            lemma_token_views_push(tokens@, t1);
        }
        tokens.push(t1);
        let t2 = Token::new("\n", index, 1);
        proof {
            lemma_token_views_push(tokens@, t2);
        }
        tokens.push(t2);
        assert(line_tokens(line, index as int) =~= seq![t1@, t2@]);
        return;
    }
    let mut word: usize = 0;
    let mut k: usize = 0;
    while k < spans.len()
        invariant
            0 <= k <= spans@.len() == words.len(),
            from <= to <= chars@.len(),
            words == words_of(chars@.subrange(from as int, to as int)),
            forall|j: int|
                0 <= j < spans@.len() ==> from <= (#[trigger] spans@[j]).0 < spans@[j].1 <= to
                    && chars@.subrange(spans@[j].0 as int, spans@[j].1 as int) == words[j],
            forall|j: int| 0 < j < spans@.len() ==> spans@[j - 1].1 < (#[trigger] spans@[j]).0,
            token_views(tokens@) == base + tokens_from(
                texts_of_words(words.take(k as int)),
                index as int,
                0,
            ),
            word == texts_of_words(words.take(k as int)).len(),
            k == 0 ==> word == 0,
            k > 0 ==> word <= spans@[k - 1].1 - from,
        decreases spans@.len() - k,
    {
        let (s, e) = spans[k];
        let ghost before = texts_of_words(words.take(k as int));
        let next = push_word_tokens(chars, s, e, index, word, tokens);
        proof {
            assert(words.take(k + 1).drop_last() =~= words.take(k as int));
            lemma_tokens_from_append(before, word_texts(words[k as int]), index as int, 0);
        }
        word = next;
        k = k + 1;
    }
    assert(words.take(k as int) =~= words);
    let t = Token::new("\n", index, word);
    proof {
        lemma_token_views_push(tokens@, t);
        lemma_tokens_from_append(line_texts(line), seq!["\n"@], index as int, 0);
    }
    tokens.push(t);
}

/// Splits source text into tokens: each physical line's words, classified by their text, then
/// a newline token, except after the last line.
pub fn lex(input: &str) -> (r: Vec<Token>)
    ensures
        token_views(r@) == lex_spec(input@),
{
    let chars = crate::text::chars_of(input);
    let n = chars.len();
    let mut tokens: Vec<Token> = Vec::new();
    let mut start: usize = 0;
    let mut line: usize = 0;
    let mut i: usize = 0;
    while i < n
        invariant
            n == chars@.len(),
            chars@ == input@,
            start <= i <= n,
            line <= i,
            pieces(chars@.subrange(0, i as int), newlines()).last() == chars@.subrange(
                start as int,
                i as int,
            ),
            pieces(chars@.subrange(0, i as int), newlines()).len() == line + 1,
            token_views(tokens@) == tokens_of_lines(
                pieces(chars@.subrange(0, i as int), newlines()).drop_last(),
            ),
        decreases n - i,
    {
        let ghost p = pieces(chars@.subrange(0, i as int), newlines());
        proof {
            lemma_pieces_step(chars@, 0, i as int, newlines());
        }
        if chars[i] == '\n' {
            lex_line(&chars, start, i, line, &mut tokens);
            assert(pieces(chars@.subrange(0, i + 1), newlines()).drop_last() =~= p);
            assert(p.drop_last() =~= p.drop_last());
            start = i + 1;
            line = line + 1;
        } else {
            assert(pieces(chars@.subrange(0, i + 1), newlines()).drop_last() =~= p.drop_last());
            assert(chars@.subrange(start as int, i + 1) =~= chars@.subrange(
                start as int,
                i as int,
            ).push(chars@[i as int]));
        }
        i = i + 1;
    }
    assert(chars@.subrange(0, n as int) =~= input@);
    if start < n {
        lex_line(&chars, start, n, line, &mut tokens);
    }
    if tokens.len() > 0 {
        tokens.pop();
    }
    tokens
}

} // verus!
