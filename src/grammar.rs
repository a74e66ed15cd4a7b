//! The concrete syntax of the language, as spec functions over the characters
//! of a source text.
//!
//! ```text
//! program := items
//! items   := [ expr { ";" expr } [ ";" ] ]
//! expr    := "let" name "=" expr
//!          | "if" expr block "else" block
//!          | term [ operator term ]
//! term    := integer | "True" | "False" | name | "(" expr ")" | block
//! block   := "{" items "}"
//! ```
//!
//! White space may stand between any two tokens. An integer is an optional
//! `-` followed by decimal digits, and must fit in 64 bits. A name is a letter
//! or `_` followed by letters, digits and `_`, and is none of `let`, `if`,
//! `else`, `True`, `False`. An operator is a run of the characters
//! `+ - * / < > = ! & |`, and must be one the language knows.
//!
//! Each parsing function takes the whole text `s` and a position `i`, and
//! gives what it read and how many characters it consumed from `i`.
use vstd::prelude::*;

use crate::ast::{BinaryOperator, NodeModel};
use crate::errors::ErrorModel;
use crate::interpret::fits;
use crate::text::is_white_space;

verus! {

/// A decimal digit.
pub open spec fn is_digit(c: char) -> bool {
    '0' <= c && c <= '9'
}

/// A character that may start a name.
pub open spec fn is_name_start(c: char) -> bool {
    ('a' <= c && c <= 'z') || ('A' <= c && c <= 'Z') || c == '_'
}

/// A character that may continue a name.
pub open spec fn is_name_char(c: char) -> bool {
    is_name_start(c) || is_digit(c)
}

/// A character of an operator.
pub open spec fn is_op_char(c: char) -> bool {
    c == '+' || c == '-' || c == '*' || c == '/' || c == '<' || c == '>' || c == '=' || c == '!'
        || c == '&' || c == '|'
}

/// How many characters of `s` are left from position `i`.
pub open spec fn left(s: Seq<char>, i: int) -> nat {
    if i < s.len() {
        (s.len() - i) as nat
    } else {
        0
    }
}

/// The classes of characters that make up tokens.
#[derive(Debug, Clone, Copy, PartialEq, Eq, Structural)]
pub enum CharClass {
    Space,
    Digit,
    NameChar,
    OpChar,
}

/// Whether `c` belongs to the class `k`.
pub open spec fn in_class(k: CharClass, c: char) -> bool {
    match k {
        CharClass::Space => is_white_space(c),
        CharClass::Digit => is_digit(c),
        CharClass::NameChar => is_name_char(c),
        CharClass::OpChar => is_op_char(c),
    }
}

/// The number of characters of class `k` from `i` on, up to the first that
/// is not of that class.
pub open spec fn run_len(s: Seq<char>, i: int, k: CharClass) -> nat
    decreases left(s, i),
{
    if 0 <= i < s.len() && in_class(k, s[i]) {
        1 + run_len(s, i + 1, k)
    } else {
        0
    }
}

/// The number of white space characters from `i` on.
pub open spec fn ws_len(s: Seq<char>, i: int) -> nat {
    run_len(s, i, CharClass::Space)
}

/// The value of the `n` decimal digits that start at `i`.
pub open spec fn digits_value(s: Seq<char>, i: int, n: nat) -> int
    decreases n,
{
    if n == 0 {
        0
    } else {
        digits_value(s, i, (n - 1) as nat) * 10 + (s[i + n - 1] as int - '0' as int)
    }
}

/// The operator spelled `w`, if the language has one.
pub open spec fn op_of(w: Seq<char>) -> Option<BinaryOperator> {
    if w.len() == 1 {
        let c = w[0];
        if c == '+' {
            Some(BinaryOperator::Plus)
        } else if c == '-' {
            Some(BinaryOperator::Minus)
        } else if c == '*' {
            Some(BinaryOperator::Times)
        } else if c == '/' {
            Some(BinaryOperator::Divides)
        } else if c == '<' {
            Some(BinaryOperator::Less)
        } else if c == '>' {
            Some(BinaryOperator::More)
        } else {
            None
        }
    } else if w.len() == 2 {
        let (c, d) = (w[0], w[1]);
        if c == '<' && d == '=' {
            Some(BinaryOperator::LessOrEqual)
        } else if c == '>' && d == '=' {
            Some(BinaryOperator::MoreOrEqual)
        } else if c == '|' && d == '|' {
            Some(BinaryOperator::Or)
        } else if c == '&' && d == '&' {
            Some(BinaryOperator::And)
        } else if c == '=' && d == '=' {
            Some(BinaryOperator::Equal)
        } else if c == '!' && d == '=' {
            Some(BinaryOperator::Different)
        } else {
            None
        }
    } else {
        None
    }
}

/// The words that cannot name a variable.
pub open spec fn is_reserved(w: Seq<char>) -> bool {
    w == seq!['l', 'e', 't'] || w == seq!['i', 'f'] || w == seq!['e', 'l', 's', 'e'] || w
        == seq!['T', 'r', 'u', 'e'] || w == seq!['F', 'a', 'l', 's', 'e']
}

/// The word that starts at `i`: the longest run of name characters there.
pub open spec fn word_at(s: Seq<char>, i: int) -> Seq<char> {
    s.subrange(i, i + run_len(s, i, CharClass::NameChar))
}

/// Whether a name starts at `i`.
pub open spec fn name_starts(s: Seq<char>, i: int) -> bool {
    0 <= i < s.len() && is_name_start(s[i])
}

/// Whether the character at `i` is `c`.
pub open spec fn char_at(s: Seq<char>, i: int, c: char) -> bool {
    0 <= i < s.len() && s[i] == c
}

/// A result that consumed `k` more characters before it.
pub open spec fn shifted<T>(r: Result<(T, nat), ErrorModel>, k: nat) -> Result<(T, nat), ErrorModel> {
    match r {
        Ok((t, n)) => Ok((t, k + n)),
        Err(e) => Err(e),
    }
}

/// An integer literal at `i`: an optional `-`, then digits.
pub open spec fn int_literal(s: Seq<char>, i: int) -> Result<(NodeModel, nat), ErrorModel> {
    let neg = char_at(s, i, '-');
    let start = if neg {
        i + 1
    } else {
        i
    };
    let n = run_len(s, start, CharClass::Digit);
    let v = if neg {
        -digits_value(s, start, n)
    } else {
        digits_value(s, start, n)
    };
    if fits(v) {
        Ok((NodeModel::Int(v as i64), (start - i + n) as nat))
    } else {
        Err(ErrorModel::Parsing(s))
    }
}

/// Zero or more expressions separated by `;`, with an optional `;` last,
/// appended to `acc`; stops before a `}` or the end of the text.
pub open spec fn items(s: Seq<char>, i: int, acc: Seq<NodeModel>) -> Result<
    (Seq<NodeModel>, nat),
    ErrorModel,
>
    decreases left(s, i), 5nat,
{
    let k = i + ws_len(s, i);
    if k >= s.len() || s[k] == '}' {
        Ok((acc, ws_len(s, i)))
    } else {
        match expr(s, k) {
            Err(e) => Err(e),
            Ok((e, n)) => {
                let j = k + n;
                let k2 = j + ws_len(s, j);
                if char_at(s, k2, ';') {
                    shifted(items(s, k2 + 1, acc.push(e)), (k2 + 1 - i) as nat)
                } else {
                    Ok((acc.push(e), (j - i) as nat))
                }
            },
        }
    }
}

/// An expression at `i`, after white space.
pub open spec fn expr(s: Seq<char>, i: int) -> Result<(NodeModel, nat), ErrorModel>
    decreases left(s, i), 4nat,
{
    let k = i + ws_len(s, i);
    let w = word_at(s, k);
    if name_starts(s, k) && w == seq!['l', 'e', 't'] {
        let k2 = k + 3 + ws_len(s, k + 3);
        let name = word_at(s, k2);
        let k3 = k2 + name.len() + ws_len(s, k2 + name.len());
        if name_starts(s, k2) && !is_reserved(name) && char_at(s, k3, '=') {
            match expr(s, k3 + 1) {
                Err(e) => Err(e),
                Ok((v, n)) => Ok((NodeModel::Let(name, Box::new(v)), (k3 + 1 - i + n) as nat)),
            }
        } else {
            Err(ErrorModel::Parsing(s))
        }
    } else if name_starts(s, k) && w == seq!['i', 'f'] {
        match expr(s, k + 2) {
            Err(e) => Err(e),
            Ok((c, n)) => match block(s, k + 2 + n) {
                Err(e) => Err(e),
                Ok((t, m)) => {
                    let j = k + 2 + n + m;
                    let k4 = j + ws_len(s, j);
                    if name_starts(s, k4) && word_at(s, k4) == seq!['e', 'l', 's', 'e'] {
                        match block(s, k4 + 4) {
                            Err(e) => Err(e),
                            Ok((f, p)) => Ok(
                                (
                                    NodeModel::If {
                                        cond: Box::new(c),
                                        then_term: Box::new(NodeModel::NodeSeq(t)),
                                        else_term: Box::new(NodeModel::NodeSeq(f)),
                                    },
                                    (k4 + 4 - i + p) as nat,
                                ),
                            ),
                        }
                    } else {
                        Err(ErrorModel::Parsing(s))
                    }
                },
            },
        }
    } else {
        shifted(binary(s, k), ws_len(s, i))
    }
}

/// A term, optionally followed by an operator and a second term.
pub open spec fn binary(s: Seq<char>, i: int) -> Result<(NodeModel, nat), ErrorModel>
    decreases left(s, i), 3nat,
{
    match term(s, i) {
        Err(e) => Err(e),
        Ok((l, n)) => {
            let j = i + n;
            let k = j + ws_len(s, j);
            if 0 <= k < s.len() && is_op_char(s[k]) {
                let w = s.subrange(k, k + run_len(s, k, CharClass::OpChar));
                match op_of(w) {
                    None => Err(ErrorModel::Operator(w)),
                    Some(op) => match term(s, k + w.len()) {
                        Err(e) => Err(e),
                        Ok((r, m)) => Ok(
                            (
                                NodeModel::BinaryExpr { op, lterm: Box::new(l), rterm: Box::new(r) },
                                (k + w.len() - i + m) as nat,
                            ),
                        ),
                    },
                }
            } else {
                Ok((l, n))
            }
        },
    }
}

/// A term at `i`, after white space.
pub open spec fn term(s: Seq<char>, i: int) -> Result<(NodeModel, nat), ErrorModel>
    decreases left(s, i), 2nat,
{
    let k = i + ws_len(s, i);
    let skipped = ws_len(s, i);
    if char_at(s, k, '(') {
        match expr(s, k + 1) {
            Err(e) => Err(e),
            Ok((e, n)) => {
                let j = k + 1 + n;
                let k2 = j + ws_len(s, j);
                if char_at(s, k2, ')') {
                    Ok((e, (k2 + 1 - i) as nat))
                } else {
                    Err(ErrorModel::Parsing(s))
                }
            },
        }
    } else if char_at(s, k, '{') {
        match block(s, k) {
            Err(e) => Err(e),
            Ok((list, n)) => Ok((NodeModel::NodeSeq(list), skipped + n)),
        }
    } else if 0 <= k < s.len() && (is_digit(s[k]) || (s[k] == '-' && 0 <= k + 1 < s.len()
        && is_digit(s[k + 1]))) {
        shifted(int_literal(s, k), skipped)
    } else if name_starts(s, k) {
        let w = word_at(s, k);
        if w == seq!['T', 'r', 'u', 'e'] {
            Ok((NodeModel::Bool(true), skipped + 4))
        } else if w == seq!['F', 'a', 'l', 's', 'e'] {
            Ok((NodeModel::Bool(false), skipped + 5))
        } else if is_reserved(w) {
            Err(ErrorModel::Parsing(s))
        } else {
            Ok((NodeModel::Var(w), skipped + w.len()))
        }
    } else {
        Err(ErrorModel::Parsing(s))
    }
}

/// A block `{ items }` at `i`, after white space.
pub open spec fn block(s: Seq<char>, i: int) -> Result<(Seq<NodeModel>, nat), ErrorModel>
    decreases left(s, i), 1nat,
{
    let k = i + ws_len(s, i);
    if char_at(s, k, '{') {
        match items(s, k + 1, Seq::empty()) {
            Err(e) => Err(e),
            Ok((list, n)) => {
                let j = k + 1 + n;
                let k2 = j + ws_len(s, j);
                if char_at(s, k2, '}') {
                    Ok((list, (k2 + 1 - i) as nat))
                } else {
                    Err(ErrorModel::Parsing(s))
                }
            },
        }
    } else {
        Err(ErrorModel::Parsing(s))
    }
}

/// What parsing the text `s` gives: the program's top-level nodes, or the
/// first error met. The whole text must be read.
pub open spec fn parse_spec(s: Seq<char>) -> Result<Seq<NodeModel>, ErrorModel> {
    match items(s, 0, Seq::empty()) {
        Err(e) => Err(e),
        Ok((list, n)) => if n == s.len() {
            Ok(list)
        } else {
            Err(ErrorModel::Parsing(s))
        },
    }
}

} // verus!
