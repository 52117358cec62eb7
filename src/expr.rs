use vstd::prelude::*;
use vstd::string::StringExecFns;

verus! {

/// A binary arithmetic operator.
#[derive(Clone, Copy, Debug, PartialEq, Eq, Structural)]
pub enum Op {
    Add,
    Sub,
    Mul,
    Div,
    Pow,
}

/// The characters that denote an operator.
pub open spec fn is_op_char(c: char) -> bool {
    c == '+' || c == '-' || c == '*' || c == '/' || c == '^'
}

/// The operator that a symbol character denotes.
pub open spec fn op_of_char(c: char) -> Op
    recommends
        is_op_char(c),
{
    if c == '+' {
        Op::Add
    } else if c == '-' {
        Op::Sub
    } else if c == '*' {
        Op::Mul
    } else if c == '/' {
        Op::Div
    } else {
        Op::Pow
    }
}

/// The one-character symbol of an operator.
pub open spec fn symbol_of(op: Op) -> char {
    match op {
        Op::Add => '+',
        Op::Sub => '-',
        Op::Mul => '*',
        Op::Div => '/',
        Op::Pow => '^',
    }
}

/// The texts that `Op::from_str` accepts: one operator character.
pub open spec fn is_op_symbol(s: Seq<char>) -> bool {
    s.len() == 1 && is_op_char(s[0])
}

impl Op {
    /// Reads an operator from its one-character symbol.
    pub fn from_str(s: &str) -> (r: Op)
        requires
            is_op_symbol(s@),
        ensures
            r == op_of_char(s@[0]),
    {
        let c = s.get_char(0);
        Op::from_char(c)
    }

    /// Reads an operator from its symbol character.
    pub fn from_char(c: char) -> (r: Op)
        requires
            is_op_char(c),
        ensures
            r == op_of_char(c),
    {
        if c == '+' {
            Op::Add
        } else if c == '-' {
            Op::Sub
        } else if c == '*' {
            Op::Mul
        } else if c == '/' {
            Op::Div
        } else {
            Op::Pow
        }
    }

    /// The operator's symbol as a one-character string.
    pub fn display(&self) -> (r: String)
        ensures
            r@ == seq![symbol_of(*self)],
    {
        proof {
            reveal_strlit("+");
            reveal_strlit("-");
            reveal_strlit("*");
            reveal_strlit("/");
            reveal_strlit("^");
        }
        match self {
            Op::Add => String::from_str("+"),
            Op::Sub => String::from_str("-"),
            Op::Mul => String::from_str("*"),
            Op::Div => String::from_str("/"),
            Op::Pow => String::from_str("^"),
        }
    }
}

/// Displaying the operator read from any operator symbol gives that symbol
/// back, and reading the symbol that an operator displays as gives the
/// operator back.
pub proof fn lemma_op_round_trip(s: Seq<char>, op: Op)
    ensures
        is_op_symbol(s) ==> seq![symbol_of(op_of_char(s[0]))] == s,
        is_op_symbol(seq![symbol_of(op)]),
        op_of_char(symbol_of(op)) == op,
{
    if is_op_symbol(s) {
        assert(seq![symbol_of(op_of_char(s[0]))] =~= s);
    }
}

/// Unicode `White_Space` characters.
pub open spec fn is_ws(c: char) -> bool {
    ('\u{9}' <= c && c <= '\u{d}') || c == ' ' || c == '\u{85}' || c == '\u{a0}'
        || c == '\u{1680}' || ('\u{2000}' <= c && c <= '\u{200a}') || c == '\u{2028}'
        || c == '\u{2029}' || c == '\u{202f}' || c == '\u{205f}' || c == '\u{3000}'
}

/// `s` with every whitespace character removed.
pub open spec fn strip_ws(s: Seq<char>) -> Seq<char> {
    s.filter(|c: char| !is_ws(c))
}

/// `t` without one outer pair of parentheses, where it starts with `(` and
/// ends with `)`.
pub open spec fn unwrap_parens(t: Seq<char>) -> Seq<char> {
    if t.len() >= 2 && t[0] == '(' && t.last() == ')' {
        t.subrange(1, t.len() - 1)
    } else {
        t
    }
}

/// The text that the operator scan runs over.
pub open spec fn normalize(s: Seq<char>) -> Seq<char> {
    unwrap_parens(strip_ws(s))
}

/// Whether `t` holds an operator character.
pub open spec fn has_op(t: Seq<char>) -> bool {
    exists|k: int| 0 <= k < t.len() && is_op_char(#[trigger] t[k])
}

/// Whether position `k` holds the leftmost operator character of `t`.
pub open spec fn first_op_at(t: Seq<char>, k: int) -> bool {
    &&& 0 <= k < t.len()
    &&& is_op_char(t[k])
    &&& forall|j: int| 0 <= j < k ==> !is_op_char(#[trigger] t[j])
}

/// Whether a character is whitespace.
pub fn is_whitespace(c: char) -> (r: bool)
    ensures
        r == is_ws(c),
{
    ('\u{9}' <= c && c <= '\u{d}') || c == ' ' || c == '\u{85}' || c == '\u{a0}'
        || c == '\u{1680}' || ('\u{2000}' <= c && c <= '\u{200a}') || c == '\u{2028}'
        || c == '\u{2029}' || c == '\u{202f}' || c == '\u{205f}' || c == '\u{3000}'
}

/// Removes every whitespace character from `s`.
pub fn strip_whitespace(s: &str) -> (r: String)
    ensures
        r@ == strip_ws(s@),
{
    let n = s.unicode_len();
    let mut out = String::new();
    let mut i: usize = 0;
    while i < n
        invariant
            n == s@.len(),
            i <= n,
            out@ == strip_ws(s@.subrange(0, i as int)),
        decreases n - i,
    {
        let c = s.get_char(i);
        let ghost pre = s@.subrange(0, i as int);
        let ghost next = s@.subrange(0, i + 1);
        proof {
            assert(next.drop_last() =~= pre);
            assert(next.last() == c);
            reveal(Seq::filter);
        }
        if !is_whitespace(c) {
            let one = s.substring_char(i, i + 1);
            proof {
                assert(one@ =~= seq![c]);
            }
            out.append(one);
        }
        i += 1;
    }
    proof {
        assert(s@.subrange(0, n as int) =~= s@);
    }
    out
}

/// Removes one outer pair of parentheses from `t`, where it starts with `(`
/// and ends with `)`.
pub fn strip_outer_parens(t: &str) -> (r: String)
    ensures
        r@ == unwrap_parens(t@),
{
    let n = t.unicode_len();
    if n >= 2 && t.get_char(0) == '(' && t.get_char(n - 1) == ')' {
        String::from_str(t.substring_char(1, n - 1))
    } else {
        String::from_str(t)
    }
}

/// Splits `text` at its leftmost operator character: the text before it,
/// the operator, and the text after it.
pub fn split_at_first_op(text: &str) -> (r: Option<(String, Op, String)>)
    ensures
        r is Some <==> has_op(text@),
        r matches Some((l, op, rt)) ==> exists|k: int|
            {
                &&& first_op_at(text@, k)
                &&& l@ == text@.subrange(0, k)
                &&& op == op_of_char(text@[k])
                &&& rt@ == text@.subrange(k + 1, text@.len() as int)
            },
{
    let n = text.unicode_len();
    let mut i: usize = 0;
    while i < n
        invariant
            n == text@.len(),
            i <= n,
            forall|j: int| 0 <= j < i ==> !is_op_char(#[trigger] text@[j]),
        decreases n - i,
    {
        let c = text.get_char(i);
        if c == '+' || c == '-' || c == '*' || c == '/' || c == '^' {
            let left = String::from_str(text.substring_char(0, i));
            let right = String::from_str(text.substring_char(i + 1, n));
            let op = Op::from_char(c);
            proof {
                assert(first_op_at(text@, i as int));
            }
            return Some((left, op, right));
        }
        i += 1;
    }
    None
}

/// Why a text does not read as an expression.
#[derive(Clone, Copy, Debug, PartialEq, Eq, Structural)]
pub enum ParseError {
    /// The text holds no operator character.
    InvalidExpression,
}

/// Why an expression has no numeric value.
#[derive(Clone, Copy, Debug, PartialEq, Eq, Structural)]
pub enum EvalError {
    /// A variable stands where a number is needed.
    NonNumericOperand,
}

impl ParseError {
    /// A message for the user.
    pub fn message(&self) -> (r: String)
        ensures
            r@ == "Invalid expression"@,
    {
        String::from_str("Invalid expression")
    }
}

impl EvalError {
    /// A message for the user.
    pub fn message(&self) -> (r: String)
        ensures
            r@ == "Cannot evaluate variable"@,
    {
        String::from_str("Cannot evaluate variable")
    }
}

/// One side of an expression: a variable, a number, or a nested expression.
#[verifier::reject_recursive_types(N)]
pub enum ExprHand<N> {
    Var(String),
    Num(N),
    Exp(Box<Expr<N>>),
}

/// Two operands joined by a binary operator.
#[verifier::reject_recursive_types(N)]
pub struct Expr<N> {
    pub left: ExprHand<N>,
    pub right: ExprHand<N>,
    pub op: Op,
}

/// Whether a variable occurs anywhere in an operand.
pub open spec fn hand_has_var<N>(h: ExprHand<N>) -> bool
    decreases h,
{
    match h {
        ExprHand::Var(_) => true,
        ExprHand::Num(_) => false,
        ExprHand::Exp(e) => expr_has_var(*e),
    }
}

/// Whether a variable occurs anywhere in an expression.
pub open spec fn expr_has_var<N>(e: Expr<N>) -> bool
    decreases e,
{
    hand_has_var(e.left) || hand_has_var(e.right)
}

/// Whether `v` is a value of the operand `h` when each operator is applied
/// by `f`.
pub open spec fn hand_value<N, F: Fn(Op, N, N) -> N>(h: ExprHand<N>, f: F, v: N) -> bool
    decreases h,
{
    match h {
        ExprHand::Var(_) => false,
        ExprHand::Num(n) => v == n,
        ExprHand::Exp(e) => expr_value(*e, f, v),
    }
}

/// Whether `v` is a value of the expression `e` when each operator is
/// applied by `f`: `f` applied to the operator and to values of both sides.
pub open spec fn expr_value<N, F: Fn(Op, N, N) -> N>(e: Expr<N>, f: F, v: N) -> bool
    decreases e,
{
    exists|a: N, b: N|
        #![trigger f.ensures((e.op, a, b), v)]
        hand_value(e.left, f, a) && hand_value(e.right, f, b) && f.ensures((e.op, a, b), v)
}

/// Whether `h` is what the text `x` reads as: a number where `p` parses it
/// as one, else a variable named by the text.
pub open spec fn reads_as<N, P: Fn(&str) -> Option<N>>(h: ExprHand<N>, x: &str, p: P) -> bool {
    match h {
        ExprHand::Num(n) => p.ensures((x,), Some(n)),
        ExprHand::Var(v) => v@ == x@ && p.ensures((x,), None),
        ExprHand::Exp(_) => false,
    }
}

/// Whether `h` is what a text with the characters `t` reads as.
pub open spec fn reads_text<N, P: Fn(&str) -> Option<N>>(h: ExprHand<N>, t: Seq<char>, p: P) -> bool {
    exists|x: &str| x@ == t && #[trigger] reads_as(h, x, p)
}

/// Whether `e` is what `text` reads as: `text` with its whitespace removed
/// and one outer pair of parentheses unwrapped is split at its leftmost
/// operator character, and each side is read as an operand.
pub open spec fn parsed_from<N, P: Fn(&str) -> Option<N>>(e: Expr<N>, text: Seq<char>, p: P) -> bool {
    let t = normalize(text);
    exists|k: int|
        #[trigger] first_op_at(t, k) && e.op == op_of_char(t[k]) && reads_text(
            e.left,
            t.subrange(0, k),
            p,
        ) && reads_text(e.right, t.subrange(k + 1, t.len() as int), p)
}

/// The display form of an expression whose sides display as `a` and `b`:
/// parenthesized, with one space on each side of the operator.
pub open spec fn framed(a: Seq<char>, op: Op, b: Seq<char>) -> Seq<char> {
    seq!['('] + a + seq![' ', symbol_of(op), ' '] + b + seq![')']
}

/// Whether `t` is a display form of the operand `h`, numbers shown by `g`.
pub open spec fn hand_text<N, G: Fn(N) -> String>(h: ExprHand<N>, g: G, t: Seq<char>) -> bool
    decreases h,
{
    match h {
        ExprHand::Var(v) => t == v@,
        ExprHand::Num(n) => exists|s: String| s@ == t && #[trigger] g.ensures((n,), s),
        ExprHand::Exp(e) => expr_text(*e, g, t),
    }
}

/// Whether `t` is a display form of the expression `e`, numbers shown by `g`.
pub open spec fn expr_text<N, G: Fn(N) -> String>(e: Expr<N>, g: G, t: Seq<char>) -> bool
    decreases e,
{
    exists|a: Seq<char>, b: Seq<char>|
        #![trigger framed(a, e.op, b)]
        t == framed(a, e.op, b) && hand_text(e.left, g, a) && hand_text(e.right, g, b)
}

impl<N: Copy> ExprHand<N> {
    /// The operand as text: a variable by its name, a number as `show`
    /// writes it, a nested expression in its display form.
    pub fn display<G: Fn(N) -> String>(&self, show: &G) -> (r: String)
        requires
            forall|n: N| #[trigger] show.requires((n,)),
        ensures
            hand_text(*self, *show, r@),
        decreases self,
    {
        match self {
            ExprHand::Var(v) => v.clone(),
            ExprHand::Num(n) => show(*n),
            ExprHand::Exp(e) => e.display(show),
        }
    }

    /// Reads an operand from its text: a number where `parse_number` parses
    /// the text as one, else a variable of that name.
    pub fn from_str<P: Fn(&str) -> Option<N>>(s: &str, parse_number: &P) -> (r: ExprHand<N>)
        requires
            forall|x: &str| #[trigger] parse_number.requires((x,)),
        ensures
            reads_as(r, s, *parse_number),
    {
        match parse_number(s) {
            Some(n) => ExprHand::Num(n),
            None => ExprHand::Var(String::from_str(s)),
        }
    }

    /// The numeric value of the operand, each operator applied by `apply`.
    pub fn eval<F: Fn(Op, N, N) -> N>(&self, apply: &F) -> (r: Result<N, EvalError>)
        requires
            forall|o: Op, a: N, b: N| #[trigger] apply.requires((o, a, b)),
        ensures
            r is Err <==> hand_has_var(*self),
            r matches Err(e) ==> e == EvalError::NonNumericOperand,
            r matches Ok(v) ==> hand_value(*self, *apply, v),
        decreases self,
    {
        match self {
            ExprHand::Var(_) => Err(EvalError::NonNumericOperand),
            ExprHand::Num(n) => Ok(*n),
            ExprHand::Exp(e) => match e.eval(apply) {
                Ok(ExprHand::Num(n)) => Ok(n),
                _ => Err(EvalError::NonNumericOperand),
            },
        }
    }
}

impl<N: Copy> Expr<N> {
    /// An expression of two operands and an operator.
    pub fn new(left: ExprHand<N>, right: ExprHand<N>, op: Op) -> (r: Expr<N>)
        ensures
            r == (Expr { left, right, op }),
    {
        Expr { left, right, op }
    }

    /// Reads an expression from text: whitespace is removed, one outer pair
    /// of parentheses is unwrapped, and the rest is split at its leftmost
    /// operator character into two operands. Fails exactly where no
    /// operator character is left.
    pub fn from_str<P: Fn(&str) -> Option<N>>(s: &str, parse_number: &P) -> (r: Result<Expr<N>, ParseError>)
        requires
            forall|x: &str| #[trigger] parse_number.requires((x,)),
        ensures
            r is Err <==> !has_op(normalize(s@)),
            r matches Err(e) ==> e == ParseError::InvalidExpression,
            r matches Ok(e) ==> parsed_from(e, s@, *parse_number),
    {
        let stripped = strip_whitespace(s);
        let text = strip_outer_parens(stripped.as_str());
        match split_at_first_op(text.as_str()) {
            None => Err(ParseError::InvalidExpression),
            Some((l, op, r)) => {
                let left = ExprHand::from_str(l.as_str(), parse_number);
                let right = ExprHand::from_str(r.as_str(), parse_number);
                proof {
                    assert(reads_text(left, l@, *parse_number));
                    assert(reads_text(right, r@, *parse_number));
                }
                Ok(Expr::new(left, right, op))
            },
        }
    }

    /// The expression as text: `(left op right)`, one space on each side of
    /// the operator, numbers written by `show`.
    pub fn display<G: Fn(N) -> String>(&self, show: &G) -> (r: String)
        requires
            forall|n: N| #[trigger] show.requires((n,)),
        ensures
            expr_text(*self, *show, r@),
        decreases self,
    {
        let a = self.left.display(show);
        let b = self.right.display(show);
        let sym = self.op.display();
        let mut out = String::from_str("(");
        out.append(a.as_str());
        out.append(" ");
        out.append(sym.as_str());
        out.append(" ");
        out.append(b.as_str());
        out.append(")");
        proof {
            reveal_strlit("(");
            reveal_strlit(" ");
            reveal_strlit(")");
            assert(out@ =~= framed(a@, self.op, b@));
        }
        out
    }

    /// Reduces the expression to a number, each operator applied by `apply`.
    /// Fails exactly where a variable occurs in it.
    pub fn eval<F: Fn(Op, N, N) -> N>(&self, apply: &F) -> (r: Result<ExprHand<N>, EvalError>)
        requires
            forall|o: Op, a: N, b: N| #[trigger] apply.requires((o, a, b)),
        ensures
            r is Err <==> expr_has_var(*self),
            r matches Err(e) ==> e == EvalError::NonNumericOperand,
            r matches Ok(h) ==> h matches ExprHand::Num(v) && expr_value(*self, *apply, v),
        decreases self,
    {
        let l = match self.left.eval(apply) {
            Ok(v) => v,
            Err(e) => return Err(e),
        };
        let r = match self.right.eval(apply) {
            Ok(v) => v,
            Err(e) => return Err(e),
        };
        let v = apply(self.op, l, r);
        proof {
            assert(hand_value(self.left, *apply, l) && hand_value(self.right, *apply, r)
                && apply.ensures((self.op, l, r), v));
            assert(expr_value(*self, *apply, v));
        }
        Ok(ExprHand::Num(v))
    }
}

} // verus!
