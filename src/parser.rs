//! The parser: source text to the nodes of a program.
use vstd::prelude::*;
use vstd::std_specs::iter::IteratorSpec;
use vstd::string::StringExecFns;

use crate::ast::{BinaryOperator, Node, NodeModel};
use crate::errors::{Error, ErrorModel};
use crate::interpret::{fits, models, run, run_spec, value_result, Value};
use crate::grammar::{
    block, char_at, digits_value, expr, in_class, int_literal, is_digit, is_name_start, is_reserved, items,
    left, name_starts, op_of, parse_spec, run_len, term, binary, word_at, ws_len, CharClass,
};
use crate::text::{is_white_space, push_char};

verus! {

/// The characters of `s`, in order.
fn chars_of(s: &str) -> (r: Vec<char>)
    ensures
        r@ == s@,
{
    let mut it = s.chars();
    let mut out: Vec<char> = Vec::new();
    broadcast use vstd::string::axiom_spec_iter, vstd::string::next_postcondition;

    loop
        invariant
            IteratorSpec::remaining(&it) == s@.subrange(out@.len() as int, s@.len() as int),
            out@ == s@.subrange(0, out@.len() as int),
            out@.len() <= s@.len(),
        decreases s@.len() - out@.len(),
    {
        match it.next() {
            Some(c) => {
                out.push(c);
            },
            None => {
                return out;
            },
        }
    }
}

/// The characters `s[a..b]` as a string.
fn text_of(s: &Vec<char>, a: usize, b: usize) -> (r: String)
    requires
        a <= b <= s@.len(),
    ensures
        r@ == s@.subrange(a as int, b as int),
{
    let mut out = String::new();
    let mut i = a;
    while i < b
        invariant
            a <= i <= b <= s@.len(),
            out@ == s@.subrange(a as int, i as int),
        decreases b - i,
    {
        push_char(&mut out, s[i]);
        assert(out@ =~= s@.subrange(a as int, i + 1));
        i = i + 1;
    }
    out
}

/// Whether `s[a..b]` spells `w`.
fn spells(s: &Vec<char>, a: usize, b: usize, w: &Vec<char>) -> (r: bool)
    requires
        a <= b <= s@.len(),
    ensures
        r == (s@.subrange(a as int, b as int) == w@),
{
    if b - a != w.len() {
        return false;
    }
    let mut i: usize = 0;
    while i < w.len()
        invariant
            a <= b <= s@.len(),
            b - a == w@.len(),
            i <= w@.len(),
            forall|j: int| 0 <= j < i ==> s@[a + j] == w@[j],
        decreases w@.len() - i,
    {
        if s[a + i] != w[i] {
            assert(s@.subrange(a as int, b as int)[i as int] != w@[i as int]);
            return false;
        }
        i = i + 1;
    }
    assert(s@.subrange(a as int, b as int) =~= w@);
    true
}

/// Whether `c` belongs to the class `k`.
fn is_in_class(k: CharClass, c: char) -> (r: bool)
    ensures
        r == in_class(k, c),
{
    match k {
        CharClass::Space => {
            let u = c as u32;
            (0x09 <= u && u <= 0x0d) || u == 0x20 || u == 0x85 || u == 0xa0 || u == 0x1680 || (
            0x2000 <= u && u <= 0x200a) || u == 0x2028 || u == 0x2029 || u == 0x202f || u
                == 0x205f || u == 0x3000
        },
        CharClass::Digit => '0' <= c && c <= '9',
        CharClass::NameChar => ('a' <= c && c <= 'z') || ('A' <= c && c <= 'Z') || c == '_' || (
        '0' <= c && c <= '9'),
        CharClass::OpChar => c == '+' || c == '-' || c == '*' || c == '/' || c == '<' || c == '>'
            || c == '=' || c == '!' || c == '&' || c == '|',
    }
}

/// Whether `c` may start a name.
fn starts_name(c: char) -> (r: bool)
    ensures
        r == is_name_start(c),
{
    ('a' <= c && c <= 'z') || ('A' <= c && c <= 'Z') || c == '_'
}

/// The end of the run of characters of class `k` that starts at `i`.
fn scan(s: &Vec<char>, i: usize, k: CharClass) -> (r: usize)
    requires
        i <= s@.len(),
    ensures
        r == i + run_len(s@, i as int, k),
        r <= s@.len(),
{
    let mut j = i;
    while j < s.len() && is_in_class(k, s[j])
        invariant
            i <= j <= s@.len(),
            run_len(s@, i as int, k) == (j - i) + run_len(s@, j as int, k),
        decreases s@.len() - j,
    {
        j = j + 1;
    }
    j
}

/// Whether `s[a..b]` is a word that cannot name a variable.
fn reserved(s: &Vec<char>, a: usize, b: usize) -> (r: bool)
    requires
        a <= b <= s@.len(),
    ensures
        r == is_reserved(s@.subrange(a as int, b as int)),
{
    spells(s, a, b, &vec!['l', 'e', 't']) || spells(s, a, b, &vec!['i', 'f']) || spells(
        s,
        a,
        b,
        &vec!['e', 'l', 's', 'e'],
    ) || spells(s, a, b, &vec!['T', 'r', 'u', 'e']) || spells(
        s,
        a,
        b,
        &vec!['F', 'a', 'l', 's', 'e'],
    )
}

/// The operator spelled `op`, if the language has one.
pub fn parse_operator(op: &str) -> (r: Option<BinaryOperator>)
    ensures
        r == op_of(op@),
{
    let v = chars_of(op);
    if v.len() == 1 {
        let c = v[0];
        if c == '+' {
            Some(BinaryOperator::Plus)
        } else if c == '-' {
            Some(BinaryOperator::Minus)
        } else if c == '*' {
            Some(BinaryOperator::Times)
        } else if c == '/' {
            Some(BinaryOperator::Divides)
        } else if c == '<' {
            Some(BinaryOperator::Less)
        } else if c == '>' {
            Some(BinaryOperator::More)
        } else {
            None
        }
    } else if v.len() == 2 {
        let (c, d) = (v[0], v[1]);
        if c == '<' && d == '=' {
            Some(BinaryOperator::LessOrEqual)
        } else if c == '>' && d == '=' {
            Some(BinaryOperator::MoreOrEqual)
        } else if c == '|' && d == '|' {
            Some(BinaryOperator::Or)
        } else if c == '&' && d == '&' {
            Some(BinaryOperator::And)
        } else if c == '=' && d == '=' {
            Some(BinaryOperator::Equal)
        } else if c == '!' && d == '=' {
            Some(BinaryOperator::Different)
        } else {
            None
        }
    } else {
        None
    }
}

/// `r` is what the grammar gives from position `i`, in absolute positions.
pub open spec fn same_node(
    r: Result<(Node, usize), Error>,
    g: Result<(NodeModel, nat), ErrorModel>,
    s: Seq<char>,
    i: int,
) -> bool {
    match r {
        Ok((n, j)) => i <= j <= s.len() && g == Ok::<(NodeModel, nat), ErrorModel>(
            (n.model(), (j - i) as nat),
        ),
        Err(e) => g == Err::<(NodeModel, nat), ErrorModel>(e@),
    }
}

/// `r` is what the grammar gives for a list from position `i`.
pub open spec fn same_list(
    r: Result<(Vec<Node>, usize), Error>,
    g: Result<(Seq<NodeModel>, nat), ErrorModel>,
    s: Seq<char>,
    i: int,
) -> bool {
    match r {
        Ok((v, j)) => i <= j <= s.len() && g == Ok::<(Seq<NodeModel>, nat), ErrorModel>(
            (models(v@), (j - i) as nat),
        ),
        Err(e) => g == Err::<(Seq<NodeModel>, nat), ErrorModel>(e@),
    }
}

/// The error for a text that is not a program.
fn syntax_error(src: &str) -> (e: Error)
    ensures
        e@ == ErrorModel::Parsing(src@),
{
    Error::Parsing(String::from_str(src))
}

/// A longer run of digits has a value at least as large.
proof fn lemma_digits_grow(s: Seq<char>, i: int, m: nat, n: nat)
    requires
        m <= n,
        0 <= i,
        i + n <= s.len(),
        forall|p: int| i <= p < i + n ==> is_digit(#[trigger] s[p]),
    ensures
        0 <= digits_value(s, i, m) <= digits_value(s, i, n),
    decreases n,
{
    if n > 0 {
        if m < n {
            lemma_digits_grow(s, i, m, (n - 1) as nat);
        }
        lemma_digits_grow(s, i, (n - 1) as nat, (n - 1) as nat);
        assert(is_digit(s[i + n - 1]));
    }
}

/// A run of characters of a class lies within the text, and each of its
/// characters is of that class.
proof fn lemma_run_class(s: Seq<char>, i: int, k: CharClass)
    requires
        0 <= i,
    ensures
        i + run_len(s, i, k) <= s.len() || run_len(s, i, k) == 0,
        forall|p: int| i <= p < i + run_len(s, i, k) ==> in_class(k, #[trigger] s[p]),
    decreases left(s, i),
{
    if 0 <= i < s.len() && in_class(k, s[i]) {
        lemma_run_class(s, i + 1, k);
    }
}

/// An integer literal at `i`, which starts with a digit or with `-` and a
/// digit.
fn int_at(src: &str, s: &Vec<char>, i: usize) -> (r: Result<(Node, usize), Error>)
    requires
        s@ == src@,
        i < s@.len(),
        is_digit(s@[i as int]) || (s@[i as int] == '-' && i + 1 < s@.len() && is_digit(
            s@[i + 1],
        )),
    ensures
        same_node(r, int_literal(s@, i as int), s@, i as int),
{
    let neg = s[i] == '-' && s.len() - i > 1;
    let start = if neg {
        i + 1
    } else {
        i
    };
    let end = scan(s, start, CharClass::Digit);
    proof {
        lemma_run_class(s@, start as int, CharClass::Digit);
    }
    let ghost n = run_len(s@, start as int, CharClass::Digit);
    let mut acc: i64 = 0;
    let mut p = start;
    while p < end
        invariant
            s@ == src@,
            neg == char_at(s@, i as int, '-'),
            start == (if neg {
                i + 1
            } else {
                i as int
            }),
            n == run_len(s@, start as int, CharClass::Digit),
            start <= p <= end <= s@.len(),
            end == start + n,
            forall|q: int| start <= q < end ==> is_digit(#[trigger] s@[q]),
            acc == (if neg {
                -digits_value(s@, start as int, (p - start) as nat)
            } else {
                digits_value(s@, start as int, (p - start) as nat)
            }),
        decreases end - p,
    {
        assert(is_digit(s@[p as int]));
        let d = (s[p] as u32 - '0' as u32) as i64;
        let ghost next = digits_value(s@, start as int, (p + 1 - start) as nat);
        assert(next == digits_value(s@, start as int, (p - start) as nat) * 10 + d);
        proof {
            lemma_digits_grow(s@, start as int, (p + 1 - start) as nat, n);
        }
        let stepped = match acc.checked_mul(10) {
            None => None,
            Some(m) => if neg {
                m.checked_sub(d)
            } else {
                m.checked_add(d)
            },
        };
        match stepped {
            None => {
                assert(!fits(
                    if neg {
                        -digits_value(s@, start as int, n)
                    } else {
                        digits_value(s@, start as int, n)
                    },
                ));
                return Err(syntax_error(src));
            },
            Some(x) => {
                acc = x;
            },
        }
        p = p + 1;
    }
    Ok((Node::Int(acc), end))
}

/// Expressions separated by `;` from `i` on, appended to `acc`.
fn items_at(src: &str, s: &Vec<char>, i: usize, acc: Vec<Node>) -> (r: Result<
    (Vec<Node>, usize),
    Error,
>)
    requires
        s@ == src@,
        i <= s@.len(),
    ensures
        same_list(r, items(s@, i as int, models(acc@)), s@, i as int),
    decreases left(s@, i as int), 5nat,
{
    let k = scan(s, i, CharClass::Space);
    if k >= s.len() || s[k] == '}' {
        return Ok((acc, k));
    }
    match expr_at(src, s, k) {
        Err(e) => Err(e),
        Ok((e, j)) => {
            let ghost before = models(acc@);
            let ghost em = e.model();
            let mut acc = acc;
            acc.push(e);
            assert(models(acc@) =~= before.push(em));
            let k2 = scan(s, j, CharClass::Space);
            if k2 < s.len() && s[k2] == ';' {
                items_at(src, s, k2 + 1, acc)
            } else {
                Ok((acc, j))
            }
        },
    }
}

/// An expression at `i`.
fn expr_at(src: &str, s: &Vec<char>, i: usize) -> (r: Result<(Node, usize), Error>)
    requires
        s@ == src@,
        i <= s@.len(),
    ensures
        same_node(r, expr(s@, i as int), s@, i as int),
    decreases left(s@, i as int), 4nat,
{
    let k = scan(s, i, CharClass::Space);
    let starts = k < s.len() && starts_name(s[k]);
    let we = scan(s, k, CharClass::NameChar);
    if starts && spells(s, k, we, &vec!['l', 'e', 't']) {
        let_at(src, s, i, k, we)
    } else if starts && spells(s, k, we, &vec!['i', 'f']) {
        if_at(src, s, i, k, we)
    } else {
        binary_at(src, s, k)
    }
}

/// The rest of `let name = expr`, whose `let` stands at `k..we`.
fn let_at(src: &str, s: &Vec<char>, i: usize, k: usize, we: usize) -> (r: Result<
    (Node, usize),
    Error,
>)
    requires
        s@ == src@,
        i <= s@.len(),
        k == i + ws_len(s@, i as int),
        name_starts(s@, k as int),
        we == k + run_len(s@, k as int, CharClass::NameChar),
        we <= s@.len(),
        word_at(s@, k as int) == seq!['l', 'e', 't'],
    ensures
        same_node(r, expr(s@, i as int), s@, i as int),
    decreases left(s@, i as int), 3nat,
{
    assert(seq!['l', 'e', 't'].len() == 3);
    assert(we == k + 3);
    let k2 = scan(s, we, CharClass::Space);
    let ne = scan(s, k2, CharClass::NameChar);
    let k3 = scan(s, ne, CharClass::Space);
    if k2 < s.len() && starts_name(s[k2]) && !reserved(s, k2, ne) && k3 < s.len() && s[k3]
        == '=' {
        match expr_at(src, s, k3 + 1) {
            Err(e) => Err(e),
            Ok((v, j)) => Ok((Node::Let(text_of(s, k2, ne), Box::new(v)), j)),
        }
    } else {
        Err(syntax_error(src))
    }
}

/// The rest of `if cond { .. } else { .. }`, whose `if` stands at `k..we`.
fn if_at(src: &str, s: &Vec<char>, i: usize, k: usize, we: usize) -> (r: Result<
    (Node, usize),
    Error,
>)
    requires
        s@ == src@,
        i <= s@.len(),
        k == i + ws_len(s@, i as int),
        name_starts(s@, k as int),
        we == k + run_len(s@, k as int, CharClass::NameChar),
        we <= s@.len(),
        word_at(s@, k as int) == seq!['i', 'f'],
    ensures
        same_node(r, expr(s@, i as int), s@, i as int),
    decreases left(s@, i as int), 3nat,
{
    assert(seq!['i', 'f'].len() == 2);
    assert(we == k + 2);
    assert(word_at(s@, k as int) != seq!['l', 'e', 't']);
    let (c, j) = match expr_at(src, s, we) {
        Err(e) => return Err(e),
        Ok(r) => r,
    };
    let (t, j2) = match block_at(src, s, j) {
        Err(e) => return Err(e),
        Ok(r) => r,
    };
    let k4 = scan(s, j2, CharClass::Space);
    let we4 = scan(s, k4, CharClass::NameChar);
    assert(seq!['e', 'l', 's', 'e'].len() == 4);
    if k4 < s.len() && starts_name(s[k4]) && spells(s, k4, we4, &vec!['e', 'l', 's', 'e']) {
        match block_at(src, s, we4) {
            Err(e) => Err(e),
            Ok((f, j3)) => {
                let ghost (tm, fm) = (models(t@), models(f@));
                let then_term = Node::NodeSeq(t);
                let else_term = Node::NodeSeq(f);
                assert(then_term.model() == NodeModel::NodeSeq(tm)) by {
                    assert(then_term.model()->NodeSeq_0 =~= tm);
                }
                assert(else_term.model() == NodeModel::NodeSeq(fm)) by {
                    assert(else_term.model()->NodeSeq_0 =~= fm);
                }
                Ok(
                    (
                        Node::If {
                            cond: Box::new(c),
                            then_term: Box::new(then_term),
                            else_term: Box::new(else_term),
                        },
                        j3,
                    ),
                )
            },
        }
    } else {
        Err(syntax_error(src))
    }
}

/// A term at `i`, with an operator and a second term if one follows.
fn binary_at(src: &str, s: &Vec<char>, i: usize) -> (r: Result<(Node, usize), Error>)
    requires
        s@ == src@,
        i <= s@.len(),
    ensures
        same_node(r, binary(s@, i as int), s@, i as int),
    decreases left(s@, i as int), 3nat,
{
    let (l, j) = match term_at(src, s, i) {
        Err(e) => return Err(e),
        Ok(r) => r,
    };
    let k = scan(s, j, CharClass::Space);
    if k < s.len() && is_in_class(CharClass::OpChar, s[k]) {
        let we = scan(s, k, CharClass::OpChar);
        let w = text_of(s, k, we);
        match parse_operator(w.as_str()) {
            None => Err(Error::Operator(w)),
            Some(op) => match term_at(src, s, we) {
                Err(e) => Err(e),
                Ok((r, j2)) => Ok((Node::BinaryExpr { op, lterm: Box::new(l), rterm: Box::new(r) }, j2)),
            },
        }
    } else {
        Ok((l, j))
    }
}

/// A term at `i`.
fn term_at(src: &str, s: &Vec<char>, i: usize) -> (r: Result<(Node, usize), Error>)
    requires
        s@ == src@,
        i <= s@.len(),
    ensures
        same_node(r, term(s@, i as int), s@, i as int),
    decreases left(s@, i as int), 2nat,
{
    let k = scan(s, i, CharClass::Space);
    if k < s.len() && s[k] == '(' {
        let (e, j) = match expr_at(src, s, k + 1) {
            Err(e) => return Err(e),
            Ok(r) => r,
        };
        let k2 = scan(s, j, CharClass::Space);
        if k2 < s.len() && s[k2] == ')' {
            Ok((e, k2 + 1))
        } else {
            Err(syntax_error(src))
        }
    } else if k < s.len() && s[k] == '{' {
        match block_at(src, s, k) {
            Err(e) => Err(e),
            Ok((list, j)) => {
                let ghost lm = models(list@);
                let node = Node::NodeSeq(list);
                assert(node.model() == NodeModel::NodeSeq(lm)) by {
                    assert(node.model()->NodeSeq_0 =~= lm);
                }
                Ok((node, j))
            },
        }
    } else if k < s.len() && (is_in_class(CharClass::Digit, s[k]) || (s[k] == '-' && k + 1
        < s.len() && is_in_class(CharClass::Digit, s[k + 1]))) {
        int_at(src, s, k)
    } else if k < s.len() && starts_name(s[k]) {
        let we = scan(s, k, CharClass::NameChar);
        assert(seq!['T', 'r', 'u', 'e'].len() == 4 && seq!['F', 'a', 'l', 's', 'e'].len() == 5);
        if spells(s, k, we, &vec!['T', 'r', 'u', 'e']) {
            Ok((Node::Bool(true), we))
        } else if spells(s, k, we, &vec!['F', 'a', 'l', 's', 'e']) {
            Ok((Node::Bool(false), we))
        } else if reserved(s, k, we) {
            Err(syntax_error(src))
        } else {
            Ok((Node::Var(text_of(s, k, we)), we))
        }
    } else {
        Err(syntax_error(src))
    }
}

/// A block `{ .. }` at `i`.
fn block_at(src: &str, s: &Vec<char>, i: usize) -> (r: Result<(Vec<Node>, usize), Error>)
    requires
        s@ == src@,
        i <= s@.len(),
    ensures
        same_list(r, block(s@, i as int), s@, i as int),
    decreases left(s@, i as int), 1nat,
{
    let k = scan(s, i, CharClass::Space);
    if k < s.len() && s[k] == '{' {
        let empty: Vec<Node> = Vec::new();
        assert(models(empty@) =~= Seq::<NodeModel>::empty());
        let (list, j) = match items_at(src, s, k + 1, empty) {
            Err(e) => return Err(e),
            Ok(r) => r,
        };
        let k2 = scan(s, j, CharClass::Space);
        if k2 < s.len() && s[k2] == '}' {
            Ok((list, k2 + 1))
        } else {
            Err(syntax_error(src))
        }
    } else {
        Err(syntax_error(src))
    }
}

/// The model of a parse result.
pub open spec fn parsed(r: Result<Vec<Node>, Error>) -> Result<Seq<NodeModel>, ErrorModel> {
    match r {
        Ok(v) => Ok(models(v@)),
        Err(e) => Err(e@),
    }
}

/// Parses a source text into the top-level nodes of a program.
pub fn parse(source: &str) -> (r: Result<Vec<Node>, Error>)
    ensures
        parsed(r) == parse_spec(source@),
{
    let s = chars_of(source);
    let empty: Vec<Node> = Vec::new();
    assert(models(empty@) =~= Seq::<NodeModel>::empty());
    let (list, n) = match items_at(source, &s, 0, empty) {
        Err(e) => return Err(e),
        Ok(r) => r,
    };
    if n == s.len() {
        Ok(list)
    } else {
        Err(syntax_error(source))
    }
}

/// Parses a source text and runs the program it holds: the value of its last
/// node, or the first error of parsing or of evaluation.
pub fn run_source(source: &str) -> (r: Result<Value, Error>)
    ensures
        value_result(r) == match parse_spec(source@) {
            Ok(nodes) => run_spec(nodes),
            Err(e) => Err(e),
        },
{
    match parse(source) {
        Ok(nodes) => run(nodes),
        Err(e) => Err(e),
    }
}

} // verus!
