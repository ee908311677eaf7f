//! Expression parsing: prefix (Polish) notation, reduced right to left on a stack. Operators
//! and known functions take their arguments from the stack; anything else is a literal.
use vstd::prelude::*;

use crate::compiler_errors::{problem, CompilerProblem, ProblemClass, ProblemView};
use crate::function_table::FunctionTable;
use crate::lex::{token_views, Symbol, Token, TokenView};
use crate::parse::FunctionDataView;
use crate::text::{concat2, ends_with_char, starts_with_char, str_eq};

verus! {

// -------------------- Literals --------------------

/// A decimal digit.
pub open spec fn is_digit(c: char) -> bool {
    '0' <= c && c <= '9'
}

/// The value of a string of decimal digits.
pub open spec fn digits_value(s: Seq<char>) -> int
    decreases s.len(),
{
    if s.len() == 0 {
        0
    } else {
        digits_value(s.drop_last()) * 10 + ((s.last() as int) - ('0' as int))
    }
}

/// The text after an optional leading sign.
pub open spec fn unsigned_part(s: Seq<char>) -> Seq<char> {
    if s.len() > 0 && (s[0] == '-' || s[0] == '+') {
        s.drop_first()
    } else {
        s
    }
}

/// Whether every character is a decimal digit.
pub open spec fn all_digits(s: Seq<char>) -> bool {
    forall|i: int| 0 <= i < s.len() ==> is_digit(#[trigger] s[i])
}

/// Digits with at most one decimal point, and at least one digit.
pub open spec fn is_mantissa(s: Seq<char>) -> bool {
    (s.len() > 0 && all_digits(s)) || exists|k: int|
        0 <= k < s.len() && s[k] == '.' && all_digits(s.take(k)) && all_digits(s.skip(k + 1))
            && s.len() > 1
}

/// An exponent after `e`: an optional sign and one or more digits.
pub open spec fn is_exponent(s: Seq<char>) -> bool {
    unsigned_part(s).len() > 0 && all_digits(unsigned_part(s))
}

/// A mantissa, optionally followed by `e` or `E` and an exponent.
pub open spec fn is_decimal_number(s: Seq<char>) -> bool {
    is_mantissa(s) || exists|k: int|
        0 <= k < s.len() && (s[k] == 'e' || s[k] == 'E') && is_mantissa(s.take(k)) && is_exponent(
            s.skip(k + 1),
        )
}

/// Whether `s` is `word` (given in lower and upper case) with each letter in either case.
pub open spec fn is_word_any_case(s: Seq<char>, lower: Seq<char>, upper: Seq<char>) -> bool {
    s.len() == lower.len() && s.len() == upper.len() && forall|i: int|
        0 <= i < s.len() ==> #[trigger] s[i] == lower[i] || s[i] == upper[i]
}

/// The floating-point literals of the documented `f64` grammar: an optional sign, then `inf`,
/// `infinity` or `nan` in any case, or a decimal number with an optional exponent.
pub open spec fn is_float_text(s: Seq<char>) -> bool {
    let b = unsigned_part(s);
    is_word_any_case(b, "inf"@, "INF"@) || is_word_any_case(b, "infinity"@, "INFINITY"@)
        || is_word_any_case(b, "nan"@, "NAN"@) || is_decimal_number(b)
}

/// Whether `cs[from..to]` is a mantissa.
fn check_mantissa(cs: &Vec<char>, from: usize, to: usize) -> (r: bool)
    requires
        from <= to <= cs@.len(),
    ensures
        r == is_mantissa(cs@.subrange(from as int, to as int)),
{
    let ghost m = cs@.subrange(from as int, to as int);
    let mut p: usize = from;
    while p < to && '0' <= cs[p] && cs[p] <= '9'
        invariant
            from <= p <= to <= cs@.len(),
            m == cs@.subrange(from as int, to as int),
            forall|j: int| from <= j < p ==> is_digit(#[trigger] cs@[j]),
        decreases to - p,
    {
        p = p + 1;
    }
    if p == to {
        assert(all_digits(m));
        return to > from;
    }
    assert(!is_digit(m[p - from]));
    if cs[p] != '.' {
        assert(!is_mantissa(m)) by {
            if exists|k: int|
                0 <= k < m.len() && m[k] == '.' && all_digits(m.take(k)) && all_digits(m.skip(k + 1))
                    && m.len() > 1 {
                let k = choose|k: int|
                    0 <= k < m.len() && m[k] == '.' && all_digits(m.take(k)) && all_digits(
                        m.skip(k + 1),
                    ) && m.len() > 1;
                if k < p - from {
                    assert(is_digit(m[k]));
                } else if k > p - from {
                    assert(m.take(k)[p - from] == m[p - from]);
                }
            }
        }
        return false;
    }
    let mut q: usize = p + 1;
    while q < to && '0' <= cs[q] && cs[q] <= '9'
        invariant
            p < q <= to <= cs@.len(),
            forall|j: int| p < j < q ==> is_digit(#[trigger] cs@[j]),
        decreases to - q,
    {
        q = q + 1;
    }
    if q == to && to - from > 1 {
        assert(m[p - from] == '.');
        assert(all_digits(m.take(p - from)));
        assert(all_digits(m.skip(p - from + 1)));
        true
    } else {
        assert(!is_mantissa(m)) by {
            assert(!all_digits(m));
            if exists|k: int|
                0 <= k < m.len() && m[k] == '.' && all_digits(m.take(k)) && all_digits(m.skip(k + 1))
                    && m.len() > 1 {
                let k = choose|k: int|
                    0 <= k < m.len() && m[k] == '.' && all_digits(m.take(k)) && all_digits(
                        m.skip(k + 1),
                    ) && m.len() > 1;
                if k < p - from {
                    assert(is_digit(m[k]));
                } else if k > p - from {
                    assert(m.take(k)[p - from] == m[p - from]);
                } else if q < to {
                    assert(m.skip(k + 1)[q - p - 1] == cs@[q as int]);
                }
            }
        }
        false
    }
}

/// Whether `cs[from..to]` is an exponent.
fn check_exponent(cs: &Vec<char>, from: usize, to: usize) -> (r: bool)
    requires
        from <= to <= cs@.len(),
    ensures
        r == is_exponent(cs@.subrange(from as int, to as int)),
{
    let ghost e = cs@.subrange(from as int, to as int);
    let mut start = from;
    if from < to && (cs[from] == '+' || cs[from] == '-') {
        start = from + 1;
    }
    assert(unsigned_part(e) =~= cs@.subrange(start as int, to as int));
    let mut i: usize = start;
    while i < to
        invariant
            start <= i <= to <= cs@.len(),
            unsigned_part(e) == cs@.subrange(start as int, to as int),
            e == cs@.subrange(from as int, to as int),
            forall|j: int| start <= j < i ==> is_digit(#[trigger] cs@[j]),
        decreases to - i,
    {
        if !('0' <= cs[i] && cs[i] <= '9') {
            assert(!is_digit(cs@.subrange(start as int, to as int)[i - start]));
            return false;
        }
        i = i + 1;
    }
    assert(all_digits(unsigned_part(e)));
    start < to
}

/// Whether `cs[from..to]` is `word` with each letter in either case.
fn check_word(cs: &Vec<char>, from: usize, to: usize, lower: &str, upper: &str) -> (r: bool)
    requires
        from <= to <= cs@.len(),
    ensures
        r == is_word_any_case(cs@.subrange(from as int, to as int), lower@, upper@),
{
    let n = lower.unicode_len();
    let m = upper.unicode_len();
    if to - from != n || n != m {
        return false;
    }
    let mut i: usize = 0;
    while i < n
        invariant
            n == lower@.len(),
            m == upper@.len(),
            n == m,
            to - from == n,
            from <= to <= cs@.len(),
            i <= n,
            forall|j: int|
                0 <= j < i ==> #[trigger] cs@[from + j] == lower@[j] || cs@[from + j] == upper@[j],
        decreases n - i,
    {
        let c = cs[from + i];
        if c != lower.get_char(i) && c != upper.get_char(i) {
            assert(cs@.subrange(from as int, to as int)[i as int] == c);
            return false;
        }
        i = i + 1;
    }
    assert forall|j: int| 0 <= j < n implies #[trigger] cs@.subrange(from as int, to as int)[j]
        == lower@[j] || cs@.subrange(from as int, to as int)[j] == upper@[j] by {
        assert(cs@.subrange(from as int, to as int)[j] == cs@[from + j]);
    }
    true
}

/// Whether a text is a floating-point literal of the documented `f64` grammar.
pub fn is_float_literal(text: &str) -> (r: bool)
    ensures
        r == is_float_text(text@),
{
    let cs = crate::text::chars_of(text);
    let n = cs.len();
    let mut start: usize = 0;
    if n > 0 && (cs[0] == '+' || cs[0] == '-') {
        start = 1;
    }
    let ghost b = unsigned_part(text@);
    assert(b =~= cs@.subrange(start as int, n as int));
    if check_word(&cs, start, n, "inf", "INF") || check_word(&cs, start, n, "infinity", "INFINITY")
        || check_word(&cs, start, n, "nan", "NAN") {
        return true;
    }
    check_decimal_number(&cs, start, n)
}

/// Whether `cs[from..to]` is a decimal number.
fn check_decimal_number(cs: &Vec<char>, from: usize, to: usize) -> (r: bool)
    requires
        from <= to <= cs@.len(),
    ensures
        r == is_decimal_number(cs@.subrange(from as int, to as int)),
{
    let ghost b = cs@.subrange(from as int, to as int);
    let mut k: usize = from;
    while k < to && cs[k] != 'e' && cs[k] != 'E'
        invariant
            from <= k <= to <= cs@.len(),
            forall|j: int| from <= j < k ==> cs@[j] != 'e' && cs@[j] != 'E',
        decreases to - k,
    {
        k = k + 1;
    }
    if check_mantissa(cs, from, to) {
        return true;
    }
    if k == to {
        assert(!is_decimal_number(b)) by {
            if exists|j: int|
                0 <= j < b.len() && (b[j] == 'e' || b[j] == 'E') && is_mantissa(b.take(j))
                    && is_exponent(b.skip(j + 1)) {
                let j = choose|j: int|
                    0 <= j < b.len() && (b[j] == 'e' || b[j] == 'E') && is_mantissa(b.take(j))
                        && is_exponent(b.skip(j + 1));
                assert(b[j] == cs@[from + j]);
            }
        }
        return false;
    }
    let ok = check_mantissa(cs, from, k) && check_exponent(cs, k + 1, to);
    assert(cs@.subrange(from as int, k as int) =~= b.take(k - from));
    assert(cs@.subrange(k + 1, to as int) =~= b.skip(k - from + 1));
    if !ok {
        assert(!is_decimal_number(b)) by {
            if exists|j: int|
                0 <= j < b.len() && (b[j] == 'e' || b[j] == 'E') && is_mantissa(b.take(j))
                    && is_exponent(b.skip(j + 1)) {
                let j = choose|j: int|
                    0 <= j < b.len() && (b[j] == 'e' || b[j] == 'E') && is_mantissa(b.take(j))
                        && is_exponent(b.skip(j + 1));
                if j < k - from {
                    assert(b[j] == cs@[from + j]);
                } else if j > k - from {
                    lemma_no_mantissa_with(b.take(j), k - from);
                }
            }
        }
    } else {
        assert(b[k - from] == cs@[k as int]);
    }
    ok
}

/// A text holding `e` or `E` is no mantissa.
proof fn lemma_no_mantissa_with(s: Seq<char>, i: int)
    requires
        0 <= i < s.len(),
        s[i] == 'e' || s[i] == 'E',
    ensures
        !is_mantissa(s),
{
    assert(!is_digit(s[i]));
    if exists|k: int|
        0 <= k < s.len() && s[k] == '.' && all_digits(s.take(k)) && all_digits(s.skip(k + 1))
            && s.len() > 1 {
        let k = choose|k: int|
            0 <= k < s.len() && s[k] == '.' && all_digits(s.take(k)) && all_digits(s.skip(k + 1))
                && s.len() > 1;
        if i < k {
            assert(s.take(k)[i] == s[i]);
        } else if i > k {
            assert(s.skip(k + 1)[i - k - 1] == s[i]);
        }
    }
}

/// The integer an `i64` literal stands for: an optional `+` or `-` and one or more decimal
/// digits, whose value fits in an `i64`.
pub open spec fn int_literal(s: Seq<char>) -> Option<i64> {
    let body = unsigned_part(s);
    let v = if s.len() > 0 && s[0] == '-' {
        -digits_value(body)
    } else {
        digits_value(body)
    };
    if body.len() > 0 && (forall|i: int| 0 <= i < body.len() ==> is_digit(#[trigger] body[i]))
        && i64::MIN <= v <= i64::MAX {
        Some(v as i64)
    } else {
        None
    }
}

/// One more than `i64::MAX`: the largest magnitude a negative literal may have.
pub const MAGNITUDE_CAP: u128 = 9223372036854775808;

proof fn lemma_digits_nonneg(s: Seq<char>)
    requires
        forall|i: int| 0 <= i < s.len() ==> is_digit(#[trigger] s[i]),
    ensures
        digits_value(s) >= 0,
    decreases s.len(),
{
    if s.len() > 0 {
        lemma_digits_nonneg(s.drop_last());
    }
}

/// Parses an `i64` literal as Rust's `i64` parser does.
pub fn parse_int(text: &str) -> (r: Option<i64>)
    ensures
        r == int_literal(text@),
{
    let n = text.unicode_len();
    let mut start: usize = 0;
    let mut negative = false;
    if n > 0 {
        let c = text.get_char(0);
        if c == '-' || c == '+' {
            start = 1;
            negative = c == '-';
        }
    }
    let ghost body = unsigned_part(text@);
    assert(body =~= text@.subrange(start as int, n as int));
    if start == n {
        return None;
    }
    let mut acc: u128 = 0;
    let mut i: usize = start;
    while i < n
        invariant
            n == text@.len(),
            start <= i <= n,
            body == unsigned_part(text@),
            body == text@.subrange(start as int, n as int),
            forall|j: int| 0 <= j < i - start ==> is_digit(#[trigger] body[j]),
            acc <= MAGNITUDE_CAP + 1,
            acc == if digits_value(body.take(i - start)) <= MAGNITUDE_CAP + 1 {
                digits_value(body.take(i - start))
            } else {
                MAGNITUDE_CAP + 1
            },
        decreases n - i,
    {
        let c = text.get_char(i);
        if !('0' <= c && c <= '9') {
            assert(!is_digit(body[i - start]));
            return None;
        }
        let d = (c as u32 - '0' as u32) as u128;
        assert(body.take(i + 1 - start).drop_last() =~= body.take(i - start));
        proof {
            lemma_digits_nonneg(body.take(i - start));
        }
        let next = acc * 10 + d;
        acc = if next > MAGNITUDE_CAP + 1 {
            MAGNITUDE_CAP + 1
        } else {
            next
        };
        i = i + 1;
    }
    assert(body.take(n - start) =~= body);
    proof {
        lemma_digits_nonneg(body);
    }
    if negative {
        if acc <= MAGNITUDE_CAP {
            Some((0 - (acc as i128)) as i64)
        } else {
            None
        }
    } else {
        if acc < MAGNITUDE_CAP {
            Some(acc as i64)
        } else {
            None
        }
    }
}

/// A literal value: an integer, a floating-point number (kept as its text), a boolean, a
/// string (kept with its quotes), or a symbol.
#[derive(Debug, Clone, PartialEq)]
pub enum Literal {
    Int(i64),
    Float(String),
    Bool(bool),
    Str(String),
    Symbol(String),
}

/// What a literal holds, with texts as characters.
pub enum LiteralView {
    Int(i64),
    Float(Seq<char>),
    Bool(bool),
    Str(Seq<char>),
    Symbol(Seq<char>),
}

impl View for Literal {
    type V = LiteralView;

    open spec fn view(&self) -> LiteralView {
        match self {
            Literal::Int(v) => LiteralView::Int(*v),
            Literal::Float(t) => LiteralView::Float(t@),
            Literal::Bool(b) => LiteralView::Bool(*b),
            Literal::Str(t) => LiteralView::Str(t@),
            Literal::Symbol(t) => LiteralView::Symbol(t@),
        }
    }
}

/// A problem found while reading a literal, before it is placed at its token.
pub open spec fn literal_problem(message: Seq<char>, hint: Seq<char>) -> ProblemView {
    problem(ProblemClass::Error, message, hint, 0, 0)
}

/// What a token text stands for as a literal, tried in order: boolean, string, integer,
/// floating-point number; `float_ok` says whether the text is a floating-point literal.
pub open spec fn literal_with(text: Seq<char>, float_ok: bool) -> Result<LiteralView, ProblemView> {
    if text == "true"@ {
        Ok(LiteralView::Bool(true))
    } else if text == "false"@ {
        Ok(LiteralView::Bool(false))
    } else if text.len() > 0 && text[0] == '"' {
        if text.last() == '"' {
            Ok(LiteralView::Str(text))
        } else {
            Err(
                literal_problem(
                    "a string literal had an unclosed parenthesis"@,
                    "if this isn't a string, remove the opening parenthesis, otherwise, close the parenthesis"@,
                ),
            )
        }
    } else if text.len() > 0 && text.last() == '"' {
        Err(
            literal_problem(
                "a string literal had an unopened parenthesis"@,
                "if this isn't a string, remove the closing parenthesis, otherwise, close the parenthesis"@,
            ),
        )
    } else {
        match int_literal(text) {
            Some(v) => Ok(LiteralView::Int(v)),
            None => if float_ok {
                Ok(LiteralView::Float(text))
            } else {
                Err(
                    literal_problem(
                        "unrecognized value "@ + text,
                        "check for syntax errors"@,
                    ),
                )
            },
        }
    }
}

/// What a token text stands for as a literal.
pub open spec fn literal_of(text: Seq<char>) -> Result<LiteralView, ProblemView> {
    literal_with(text, is_float_text(text))
}

/// The view of a literal result.
pub open spec fn literal_result_view(r: Result<Literal, CompilerProblem>) -> Result<
    LiteralView,
    ProblemView,
> {
    match r {
        Ok(l) => Ok(l@),
        Err(e) => Err(e@),
    }
}

impl Literal {
    /// Reads a token text as a literal, given whether it is a floating-point literal.
    fn from_str_with(text: &str, float_ok: bool) -> (r: Result<Literal, CompilerProblem>)
        ensures
            literal_result_view(r) == literal_with(text@, float_ok),
    {
        if str_eq(text, "true") {
            return Ok(Literal::Bool(true));
        } else if str_eq(text, "false") {
            return Ok(Literal::Bool(false));
        } else if starts_with_char(text, '"') {
            if ends_with_char(text, '"') {
                return Ok(Literal::Str(String::from_str(text)));
            } else {
                return Err(
                    CompilerProblem::new(
                        ProblemClass::Error,
                        "a string literal had an unclosed parenthesis",
                        "if this isn't a string, remove the opening parenthesis, otherwise, close the parenthesis",
                        0,
                        0,
                    ),
                );
            }
        } else if ends_with_char(text, '"') {
            return Err(
                CompilerProblem::new(
                    ProblemClass::Error,
                    "a string literal had an unopened parenthesis",
                    "if this isn't a string, remove the closing parenthesis, otherwise, close the parenthesis",
                    0,
                    0,
                ),
            );
        }
        match parse_int(text) {
            Some(v) => Ok(Literal::Int(v)),
            None => {
                if float_ok {
                    Ok(Literal::Float(String::from_str(text)))
                } else {
                    Err(
                        CompilerProblem::with_message(
                            ProblemClass::Error,
                            concat2("unrecognized value ", text),
                            "check for syntax errors",
                            0,
                            0,
                        ),
                    )
                }
            },
        }
    }

    /// Reads a token text as a literal: a boolean, a string, an integer or a floating-point
    /// number, tried in that order.
    pub fn from_str(text: &str) -> (r: Result<Literal, CompilerProblem>)
        ensures
            literal_result_view(r) == literal_of(text@),
    {
        let float_ok = is_float_literal(text);
        Literal::from_str_with(text, float_ok)
    }
}

// -------------------- Operators and objects --------------------

/// An operator: arithmetic, or a call of a named function.
#[derive(Debug, Clone, PartialEq)]
pub enum Operator {
    Add,
    Subtract,
    Multiply,
    Divide,
    Negate,
    Inverse,
    Function { name: String },
}

/// What an operator holds, with a function name as characters.
pub enum OperatorView {
    Add,
    Subtract,
    Multiply,
    Divide,
    Negate,
    Inverse,
    Function { name: Seq<char> },
}

impl View for Operator {
    type V = OperatorView;

    open spec fn view(&self) -> OperatorView {
        match self {
            Operator::Add => OperatorView::Add,
            Operator::Subtract => OperatorView::Subtract,
            Operator::Multiply => OperatorView::Multiply,
            Operator::Divide => OperatorView::Divide,
            Operator::Negate => OperatorView::Negate,
            Operator::Inverse => OperatorView::Inverse,
            Operator::Function { name } => OperatorView::Function { name: name@ },
        }
    }
}

/// The binding power of an operator: additive 20, multiplicative 30, unary 40, calls 10.
pub open spec fn binding_power(op: OperatorView) -> u8 {
    match op {
        OperatorView::Add | OperatorView::Subtract => 20,
        OperatorView::Multiply | OperatorView::Divide => 30,
        OperatorView::Negate | OperatorView::Inverse => 40,
        OperatorView::Function { .. } => 10,
    }
}

/// The binary operator that a symbol stands for.
pub open spec fn operator_of(symbol: Symbol) -> Option<OperatorView> {
    match symbol {
        Symbol::OpPlus => Some(OperatorView::Add),
        Symbol::OpMinus => Some(OperatorView::Subtract),
        Symbol::OpMul => Some(OperatorView::Multiply),
        Symbol::OpDiv => Some(OperatorView::Divide),
        _ => None,
    }
}

impl Operator {
    pub fn binding_power(&self) -> (r: u8)
        ensures
            r == binding_power(self@),
    {
        match self {
            Self::Add => 20,
            Self::Subtract => 20,
            Self::Multiply => 30,
            Self::Divide => 30,
            Self::Negate => 40,
            Self::Inverse => 40,
            Self::Function { .. } => 10,
        }
    }

    pub fn from_symbol(symbol: Symbol) -> (r: Option<Operator>)
        ensures
            match r {
                Some(op) => operator_of(symbol) == Some(op@),
                None => operator_of(symbol) is None,
            },
    {
        match symbol {
            Symbol::OpPlus => Some(Operator::Add),
            Symbol::OpMinus => Some(Operator::Subtract),
            Symbol::OpMul => Some(Operator::Multiply),
            Symbol::OpDiv => Some(Operator::Divide),
            _ => None,
        }
    }
}

/// An operation: an operator applied, in prefix form, to its arguments.
#[derive(Debug)]
pub enum Expression {
    Prefix { op: Operator, args: Vec<Object> },
}

/// A parsed expression: an operation, or a literal value.
#[derive(Debug)]
pub enum Object {
    Operation(Expression),
    Value(Literal),
}

/// An expression tree: an operator with its arguments in source order, or a literal.
pub enum ObjectView {
    Operation(OperatorView, Seq<ObjectView>),
    Value(LiteralView),
}

/// The tree that an object stands for.
pub open spec fn object_view(o: Object) -> ObjectView
    decreases o, 0nat,
{
    match o {
        Object::Operation(Expression::Prefix { op, args }) => ObjectView::Operation(
            op@,
            object_views_upto(args, args@.len()),
        ),
        Object::Value(l) => ObjectView::Value(l@),
    }
}

/// The trees of the first `n` objects of `v`.
pub open spec fn object_views_upto(v: Vec<Object>, n: nat) -> Seq<ObjectView>
    decreases v, n,
{
    if n == 0 || n > v@.len() {
        Seq::empty()
    } else {
        object_views_upto(v, (n - 1) as nat).push(object_view(v@[n - 1]))
    }
}

impl View for Object {
    type V = ObjectView;

    open spec fn view(&self) -> ObjectView {
        object_view(*self)
    }
}

/// The trees of a sequence of objects.
pub open spec fn object_views(s: Seq<Object>) -> Seq<ObjectView> {
    s.map_values(|o: Object| object_view(o))
}

proof fn lemma_object_views_upto(v: Vec<Object>, n: nat)
    requires
        n <= v@.len(),
    ensures
        object_views_upto(v, n) == object_views(v@.take(n as int)),
    decreases n,
{
    if n > 0 {
        lemma_object_views_upto(v, (n - 1) as nat);
        assert(object_views(v@.take(n as int)) =~= object_views(v@.take(n - 1)).push(
            object_view(v@[n - 1]),
        ));
    } else {
        assert(object_views(v@.take(0)) =~= Seq::empty());
    }
}

impl Expression {
    /// The binding power of the expression's operator.
    pub fn get_bp(&self) -> (r: u8)
        ensures
            match self {
                Expression::Prefix { op, .. } => r == binding_power(op@),
            },
    {
        match self {
            Expression::Prefix { op, .. } => op.binding_power(),
        }
    }
}

// -------------------- The stack reduction --------------------

/// The last `n` objects of a stack, the top one first: the arguments, in source order, of an
/// operator read right to left.
pub open spec fn top_args(stack: Seq<ObjectView>, n: int) -> Seq<ObjectView> {
    Seq::new(n as nat, |j: int| stack[stack.len() - 1 - j])
}

/// Applies an operator that takes `n` arguments to the stack, or reports that there are too few.
pub open spec fn reduce(stack: Seq<ObjectView>, op: OperatorView, n: int, t: TokenView) -> Result<
    Seq<ObjectView>,
    ProblemView,
> {
    if stack.len() < n {
        Err(
            problem(
                ProblemClass::Error,
                "not enough arguments when calling function "@ + t.text,
                "partial functions are not yet supported by the compiler"@,
                t.line,
                t.word,
            ),
        )
    } else {
        Ok(stack.take(stack.len() - n).push(ObjectView::Operation(op, top_args(stack, n))))
    }
}

/// The stack after one more token, read right to left.
pub open spec fn expr_token(
    stack: Seq<ObjectView>,
    t: TokenView,
    table: Map<Seq<char>, FunctionDataView>,
) -> Result<Seq<ObjectView>, ProblemView> {
    match operator_of(t.symbol) {
        Some(op) => reduce(stack, op, 2, t),
        None => if t.symbol == Symbol::Value {
            if table.contains_key(t.text) {
                reduce(
                    stack,
                    OperatorView::Function { name: t.text },
                    table[t.text].args.len() as int,
                    t,
                )
            } else {
                match literal_of(t.text) {
                    Ok(l) => Ok(stack.push(ObjectView::Value(l))),
                    Err(p) => Err(ProblemView { line: t.line, word: t.word, ..p }),
                }
            }
        } else {
            Err(
                problem(
                    ProblemClass::Error,
                    "unimplemented symbol found in expression"@,
                    "please wait for compiler update"@,
                    t.line,
                    t.word,
                ),
            )
        },
    }
}

/// The stack after reading the tokens right to left, or the first problem met.
pub open spec fn expr_run(toks: Seq<TokenView>, table: Map<Seq<char>, FunctionDataView>) -> Result<
    Seq<ObjectView>,
    ProblemView,
>
    decreases toks.len(),
{
    if toks.len() == 0 {
        Ok(Seq::empty())
    } else {
        match expr_run(toks.drop_first(), table) {
            Ok(stack) => expr_token(stack, toks[0], table),
            Err(p) => Err(p),
        }
    }
}

/// The expression that a line's tokens stand for: exactly one tree must be left on the stack.
pub open spec fn expression_of(toks: Seq<TokenView>, table: Map<Seq<char>, FunctionDataView>) -> Result<
    ObjectView,
    ProblemView,
> {
    if toks.len() == 0 {
        Err(
            problem(
                ProblemClass::Error,
                "empty expression"@,
                "make sure to provide a value or call a function here"@,
                0,
                0,
            ),
        )
    } else {
        match expr_run(toks, table) {
            Err(p) => Err(p),
            Ok(stack) => if stack.len() == 1 {
                Ok(stack[0])
            } else if stack.len() == 0 {
                Err(
                    problem(
                        ProblemClass::Error,
                        "empty expression"@,
                        "make sure to provide a value or call a function here"@,
                        toks[0].line,
                        toks[0].word,
                    ),
                )
            } else {
                Err(
                    problem(
                        ProblemClass::Error,
                        "too many arguments: objects left on the expression stack after parsing"@,
                        "you probably have passed too many arguments to a function"@,
                        toks.last().line,
                        toks.last().word,
                    ),
                )
            },
        }
    }
}

/// Pops `arg_count` objects off the stack, the top one first, and pushes the operation that
/// applies `op` to them; reports the token instead when the stack holds too few.
pub fn push_fn_to_stack(token: &Token, op: Operator, arg_count: usize, stack: &mut Vec<Object>) -> (r:
    Option<CompilerProblem>)
    ensures
        match reduce(object_views(old(stack)@), op@, arg_count as int, token@) {
            Ok(s) => r is None && object_views(final(stack)@) == s,
            Err(p) => r is Some && r->0@ == p && final(stack)@ == old(stack)@,
        },
{
    if stack.len() < arg_count {
        return Some(
            CompilerProblem::with_message(
                ProblemClass::Error,
                concat2("not enough arguments when calling function ", token.text.as_str()),
                "partial functions are not yet supported by the compiler",
                token.line,
                token.word,
            ),
        );
    }
    let ghost old_stack = object_views(stack@);
    let ghost len = stack@.len();
    let mut args: Vec<Object> = Vec::new();
    let mut k: usize = 0;
    while k < arg_count
        invariant
            k <= arg_count <= len,
            old_stack.len() == len,
            stack@.len() == len - k,
            object_views(stack@) == old_stack.take(len - k),
            object_views(args@) == top_args(old_stack, k as int),
        decreases arg_count - k,
    {
        let ghost before = args@;
        let ghost stack_before = stack@;
        match stack.pop() {
            Some(o) => {
                args.push(o);
                proof {
                    assert(stack@ == stack_before.drop_last());
                    assert(o == stack_before.last());
                    assert(object_views(stack_before)[len - k - 1] == object_view(o));
                    assert(old_stack.take(len - k)[len - k - 1] == old_stack[len - k - 1]);
                    assert(object_views(args@) =~= object_views(before).push(object_view(o)));
                    assert(object_views(stack@) =~= old_stack.take(len - k - 1));
                    assert(top_args(old_stack, k + 1) =~= top_args(old_stack, k as int).push(
                        old_stack[len - 1 - k],
                    ));
                }
            },
            None => {},
        }
        k = k + 1;
    }
    let ghost args_seq = args@;
    let ghost stack_before = stack@;
    let o = Object::Operation(Expression::Prefix { op, args });
    proof {
        lemma_object_views_upto(args, args_seq.len());
        assert(args_seq.take(args_seq.len() as int) =~= args_seq);
    }
    stack.push(o);
    proof {
        assert(object_views(stack@) =~= object_views(stack_before).push(object_view(o)));
    }
    None
}

/// The view of an expression result.
pub open spec fn object_result_view(r: Result<Object, CompilerProblem>) -> Result<ObjectView, ProblemView> {
    match r {
        Ok(o) => Ok(object_view(o)),
        Err(e) => Err(e@),
    }
}

proof fn lemma_run_error(toks: Seq<TokenView>, table: Map<Seq<char>, FunctionDataView>, i: int, p: ProblemView)
    requires
        0 <= i <= toks.len(),
        expr_run(toks.skip(i), table) == Err::<Seq<ObjectView>, ProblemView>(p),
    ensures
        expr_run(toks, table) == Err::<Seq<ObjectView>, ProblemView>(p),
    decreases i,
{
    if i > 0 {
        assert(toks.skip(i - 1).drop_first() =~= toks.skip(i));
        lemma_run_error(toks, table, i - 1, p);
    } else {
        assert(toks.skip(0) =~= toks);
    }
}

/// Parses one line's expression in prefix notation, reading its tokens right to left: an
/// operator or a function named in the table takes its arguments off the stack, any other
/// value is pushed as a literal. Exactly one tree must be left.
pub fn parse_expression(tokens: &Vec<Token>, fn_table: &FunctionTable) -> (r: Result<
    Object,
    CompilerProblem,
>)
    requires
        fn_table.wf(),
    ensures
        object_result_view(r) == expression_of(token_views(tokens@), fn_table@),
{
    let ghost toks = token_views(tokens@);
    let ghost table = fn_table@;
    if tokens.len() == 0 {
        return Err(
            CompilerProblem::new(
                ProblemClass::Error,
                "empty expression",
                "make sure to provide a value or call a function here",
                0,
                0,
            ),
        );
    }
    let mut stack: Vec<Object> = Vec::new();
    let mut i: usize = tokens.len();
    proof {
        assert(toks.skip(i as int) =~= Seq::empty());
        assert(object_views(stack@) =~= Seq::empty());
    }
    while i > 0
        invariant
            i <= tokens@.len(),
            toks == token_views(tokens@),
            table == fn_table@,
            fn_table.wf(),
            expr_run(toks.skip(i as int), table) == Ok::<Seq<ObjectView>, ProblemView>(
                object_views(stack@),
            ),
        decreases i,
    {
        let token = &tokens[i - 1];
        proof {
            assert(toks.skip(i - 1).drop_first() =~= toks.skip(i as int));
            assert(toks.skip(i - 1)[0] == token@);
        }
        let outcome: Option<CompilerProblem> = match Operator::from_symbol(token.symbol) {
            Some(op) => push_fn_to_stack(token, op, 2, &mut stack),
            None => {
                if token.symbol == Symbol::Value {
                    match fn_table.get(token.text.as_str()) {
                        Some(data) => {
                            let arg_count = data.arity();
                            push_fn_to_stack(
                                token,
                                Operator::Function { name: token.text.clone() },
                                arg_count,
                                &mut stack,
                            )
                        },
                        None => {
                            match Literal::from_str(token.text.as_str()) {
                                Ok(lit) => {
                                    let ghost before = stack@;
                                    let o = Object::Value(lit);
                                    stack.push(o);
                                    proof {
                                        assert(object_views(stack@) =~= object_views(before).push(
                                            object_view(o),
                                        ));
                                    }
                                    None
                                },
                                Err(e) => {
                                    let mut e = e;
                                    e.line = token.line;
                                    e.word_index = token.word;
                                    Some(e)
                                },
                            }
                        },
                    }
                } else {
                    Some(
                        CompilerProblem::new(
                            ProblemClass::Error,
                            "unimplemented symbol found in expression",
                            "please wait for compiler update",
                            token.line,
                            token.word,
                        ),
                    )
                }
            },
        };
        match outcome {
            Some(e) => {
                proof {
                    lemma_run_error(toks, table, i - 1, e@);
                }
                return Err(e);
            },
            None => {},
        }
        i = i - 1;
    }
    assert(toks.skip(0) =~= toks);
    let n = stack.len();
    if n == 1 {
        match stack.pop() {
            Some(o) => Ok(o),
            None => Err(
                CompilerProblem::new(
                    ProblemClass::Error,
                    "empty expression",
                    "make sure to provide a value or call a function here",
                    0,
                    0,
                ),
            ),
        }
    } else if n == 0 {
        Err(
            CompilerProblem::new(
                ProblemClass::Error,
                "empty expression",
                "make sure to provide a value or call a function here",
                tokens[0].line,
                tokens[0].word,
            ),
        )
    } else {
        let last = &tokens[tokens.len() - 1];
        Err(
            CompilerProblem::new(
                ProblemClass::Error,
                "too many arguments: objects left on the expression stack after parsing",
                "you probably have passed too many arguments to a function",
                last.line,
                last.word,
            ),
        )
    }
}

} // verus!
