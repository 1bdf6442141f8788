//! Mathematical definition of the filter query language: `name=value` and
//! `name!=value` terms, `c2s`/`s2c`, `&&`, `||` and brackets. Spaces are
//! ignored. `&&` binds tighter than `||`; a chain of one operator yields one
//! flat rule.
//!
//! A bracketed group ends where the bracket depth, counted character by
//! character, comes back to zero; that count is then taken as a byte offset
//! into the UTF-8 text, which is cut there. With non-ASCII characters before
//! the closing bracket the cut falls earlier than the bracket, or inside a
//! character.
//!
//! The definition yields `Aborted` on the queries on which the parser stops
//! without an answer: an operator with nothing on one side, an empty bracket
//! pair, an `&` or `|` that is the last character or is followed by a
//! non-ASCII character, and a bracketed group whose cut falls inside a
//! character.
use vstd::prelude::*;

use crate::debug::tracer::filter::{RuleCommandDirection, SpecRule};

verus! {

/// Errors of the query parser, generic over the text type.
#[derive(Debug)]
pub enum ParseErrorOf<S> {
    UnknownField(S),
    InternalError,
    ValueFormatError(S),
    UnknownOperation(S),
    RightBracketNotFound(S),
}

pub type ParseError = ParseErrorOf<String>;
pub type SpecParseError = ParseErrorOf<Seq<char>>;

/// Result of the parser on a query: a value, an error, or no answer at all.
pub enum Outcome<T> {
    Parsed(T),
    Failed(SpecParseError),
    Aborted,
}

/// Tokens of the query: operators and rules.
pub enum SpecToken {
    And,
    Or,
    Rule(SpecRule),
}

/// Comparison of a term.
#[derive(Clone, Copy, Debug, PartialEq, Eq, Structural)]
pub enum Op {
    Equal,
    NotEqual,
}

pub open spec fn is_ascii_char(c: char) -> bool {
    (c as u32) < 128
}

/// Number of bytes of a character in UTF-8.
pub open spec fn utf8_len(c: char) -> int {
    if (c as u32) < 0x80 {
        1
    } else if (c as u32) < 0x800 {
        2
    } else if (c as u32) < 0x10000 {
        3
    } else {
        4
    }
}

/// Scanning from the character at index `j`, which starts at byte `at` of the
/// UTF-8 form of `s`: the index of the character that starts at byte `b` (the
/// length of `s` where `b` is the end), or `None` where `b` falls inside a
/// character or past the end.
pub open spec fn char_at_byte_from(s: Seq<char>, b: int, j: int, at: int) -> Option<int>
    decreases s.len() - j,
{
    if at == b {
        Some(j)
    } else if at > b || j < 0 || j >= s.len() {
        None
    } else {
        char_at_byte_from(s, b, j + 1, at + utf8_len(s[j]))
    }
}

/// The index of the character that starts at byte `b` of the UTF-8 form of `s`.
pub open spec fn char_at_byte(s: Seq<char>, b: int) -> Option<int> {
    char_at_byte_from(s, b, 0, 0)
}

pub proof fn lemma_char_at_byte_from_bounds(s: Seq<char>, b: int, j: int, at: int)
    requires
        0 <= j <= s.len(),
    ensures
        char_at_byte_from(s, b, j, at) matches Some(k) ==> j <= k <= s.len() && (k == j ==> at == b),
    decreases s.len() - j,
{
    if at == b {
    } else if at > b || j < 0 || j >= s.len() {
    } else {
        lemma_char_at_byte_from_bounds(s, b, j + 1, at + utf8_len(s[j]));
    }
}

/// The query without its spaces.
pub open spec fn without_spaces(s: Seq<char>) -> Seq<char>
    decreases s.len(),
{
    if s.len() == 0 {
        s
    } else if s.last() == ' ' {
        without_spaces(s.drop_last())
    } else {
        without_spaces(s.drop_last()).push(s.last())
    }
}

pub open spec fn ascii_lower(c: char) -> char {
    if 'A' <= c <= 'Z' {
        ((c as u32) + 32) as char
    } else {
        c
    }
}

/// ASCII letters turned to lower case, other characters kept.
pub open spec fn ascii_lowercase(s: Seq<char>) -> Seq<char> {
    Seq::new(s.len(), |i: int| ascii_lower(s[i]))
}

/// Change of bracket depth by one character.
pub open spec fn depth_step(c: char) -> int {
    if c == '(' {
        1
    } else if c == ')' {
        -1
    } else {
        0
    }
}

/// First index at or after `i` where the bracket depth, `depth` before `i`,
/// comes back to zero.
pub open spec fn right_bracket_from(s: Seq<char>, i: int, depth: int) -> Option<int>
    decreases s.len() - i,
{
    if i < 0 || i >= s.len() {
        None
    } else if depth + depth_step(s[i]) == 0 {
        Some(i)
    } else {
        right_bracket_from(s, i + 1, depth + depth_step(s[i]))
    }
}

/// Index of the bracket that closes the one at index 0.
pub open spec fn right_bracket(s: Seq<char>) -> Option<int> {
    right_bracket_from(s, 0, 0)
}

/// First index at which `pat` occurs in `s`.
pub open spec fn find_from(s: Seq<char>, pat: Seq<char>, i: int) -> Option<int>
    decreases s.len() - i,
{
    if i < 0 || i >= s.len() || i + pat.len() > s.len() {
        None
    } else if s.subrange(i, i + pat.len()) == pat {
        Some(i)
    } else {
        find_from(s, pat, i + 1)
    }
}

pub open spec fn find(s: Seq<char>, pat: Seq<char>) -> Option<int> {
    find_from(s, pat, 0)
}

pub open spec fn is_digit(c: char) -> bool {
    '0' <= c <= '9'
}

pub open spec fn digit_value(c: char) -> int {
    (c as u32) - ('0' as u32)
}

/// Value of a sequence of decimal digits.
pub open spec fn digits_value(ds: Seq<char>) -> int
    decreases ds.len(),
{
    if ds.len() == 0 {
        0
    } else {
        digits_value(ds.drop_last()) * 10 + digit_value(ds.last())
    }
}

pub open spec fn all_digits(ds: Seq<char>) -> bool {
    forall|i: int| 0 <= i < ds.len() ==> is_digit(#[trigger] ds[i])
}

/// The digits of a `u64` literal: an optional leading `+` removed.
pub open spec fn unsigned_digits(s: Seq<char>) -> Seq<char> {
    if s.len() > 0 && s[0] == '+' {
        s.drop_first()
    } else {
        s
    }
}

/// `u64` written in decimal, as the standard library reads it: an optional
/// `+`, then at least one ASCII digit, with a value that fits in 64 bits.
pub open spec fn parse_u64(s: Seq<char>) -> Option<u64> {
    let ds = unsigned_digits(s);
    if ds.len() > 0 && all_digits(ds) && digits_value(ds) <= u64::MAX {
        Some(digits_value(ds) as u64)
    } else {
        None
    }
}

/// Name, comparison and remaining text of a term `name=...` or `name!=...`.
pub open spec fn split_field(s: Seq<char>) -> Option<(Seq<char>, Op, Seq<char>)> {
    let eq = find(s, seq!['=']);
    let ne = find(s, seq!['!', '=']);
    let equal = match (eq, ne) {
        (Some(e), Some(n)) => e < n,
        (Some(_), None) => true,
        _ => false,
    };
    if eq is None && ne is None {
        None
    } else if equal {
        Some((s.take(eq->0), Op::Equal, s.skip(eq->0 + 1)))
    } else {
        Some((s.take(ne->0), Op::NotEqual, s.skip(ne->0 + 2)))
    }
}

/// Value of a term and the remaining text, which starts at the first `&&` or `||`.
pub open spec fn split_value(s: Seq<char>) -> (Seq<char>, Seq<char>) {
    let and_i = match find(s, seq!['&', '&']) { Some(i) => i, None => s.len() as int };
    let or_i = match find(s, seq!['|', '|']) { Some(i) => i, None => s.len() as int };
    let p = if and_i < or_i { and_i } else { or_i };
    (s.take(p), s.skip(p))
}

/// The rule of a term with a given name and value.
pub open spec fn field_rule(field: Seq<char>, value: Seq<char>) -> Result<SpecRule, SpecParseError> {
    if field == seq!['u', 's', 'e', 'r'] {
        match parse_u64(value) {
            Some(n) => Ok(SpecRule::User(n as u16)),
            None => Err(ParseErrorOf::ValueFormatError(value)),
        }
    } else if field == seq!['t', 'e', 'm', 'p', 'l', 'a', 't', 'e'] {
        match parse_u64(value) {
            Some(n) => Ok(SpecRule::Template(n as u16)),
            None => Err(ParseErrorOf::ValueFormatError(value)),
        }
    } else if field == seq!['f', 'i', 'e', 'l', 'd'] {
        match parse_u64(value) {
            Some(n) => Ok(SpecRule::Field(n as u16)),
            None => Err(ParseErrorOf::ValueFormatError(value)),
        }
    } else if field == seq!['i', 'd'] {
        match parse_u64(value) {
            Some(n) => Ok(SpecRule::ObjectId(n as u32)),
            None => Err(ParseErrorOf::ValueFormatError(value)),
        }
    } else if field == seq!['o', 'w', 'n', 'e', 'r'] {
        if value == seq!['r', 'o', 'o', 'm'] {
            Ok(SpecRule::RoomOwner)
        } else {
            match parse_u64(value) {
                Some(n) => Ok(SpecRule::UserOwner(n as u16)),
                None => Err(ParseErrorOf::ValueFormatError(value)),
            }
        }
    } else {
        Err(ParseErrorOf::UnknownField(field))
    }
}

pub open spec fn starts_with(s: Seq<char>, p: Seq<char>) -> bool {
    p.len() <= s.len() && s.take(p.len() as int) == p
}

/// One term at the start of the text: the token and the remaining text.
pub open spec fn parse_term(s: Seq<char>) -> Result<(SpecToken, Seq<char>), SpecParseError> {
    if starts_with(s, seq!['c', '2', 's']) {
        Ok((SpecToken::Rule(SpecRule::Direction(RuleCommandDirection::C2S)), ascii_lowercase(s.skip(3))))
    } else if starts_with(s, seq!['s', '2', 'c']) {
        Ok((SpecToken::Rule(SpecRule::Direction(RuleCommandDirection::S2C)), ascii_lowercase(s.skip(3))))
    } else {
        match split_field(s) {
            None => Err(ParseErrorOf::UnknownOperation(s)),
            Some((field, op, rest)) => {
                let (value, remaining) = split_value(rest);
                match field_rule(field, value) {
                    Ok(rule) => Ok((
                        SpecToken::Rule(
                            match op {
                                Op::Equal => rule,
                                Op::NotEqual => SpecRule::Not(Box::new(rule)),
                            },
                        ),
                        remaining,
                    )),
                    Err(e) => Err(e),
                }
            },
        }
    }
}

/// Rules joined by an operator, with nested rules of the same operator flattened.
pub open spec fn expand(op: SpecToken, rule: SpecRule) -> Seq<SpecRule> {
    match (op, rule) {
        (SpecToken::And, SpecRule::AndRule(rules)) => rules,
        (SpecToken::Or, SpecRule::OrRule(rules)) => rules,
        _ => seq![rule],
    }
}

pub open spec fn create_rule(op: SpecToken, rules: Seq<SpecRule>) -> SpecRule {
    match op {
        SpecToken::Or => SpecRule::OrRule(rules),
        _ => SpecRule::AndRule(rules),
    }
}

pub open spec fn same_operator(a: SpecToken, b: SpecToken) -> bool {
    (a is And && b is And) || (a is Or && b is Or)
}

/// One pass of operator reduction: every `prior` operator, with the token left
/// of it and the token right of it, becomes one rule.
pub open spec fn reduce_pass(prior: SpecToken, source: Seq<SpecToken>, dest: Seq<SpecToken>) -> Outcome<Seq<SpecToken>>
    decreases source.len(),
{
    if source.len() == 0 {
        Outcome::Parsed(dest)
    } else {
        let token = source[0];
        let rest = source.drop_first();
        if same_operator(token, prior) {
            if dest.len() == 0 {
                Outcome::Aborted
            } else {
                match dest.last() {
                    SpecToken::Rule(left) => {
                        if rest.len() == 0 {
                            Outcome::Aborted
                        } else {
                            match rest[0] {
                                SpecToken::Rule(right) => {
                                    let joined = create_rule(prior, expand(prior, left) + expand(prior, right));
                                    reduce_pass(prior, rest.drop_first(), dest.drop_last().push(SpecToken::Rule(joined)))
                                },
                                _ => Outcome::Failed(ParseErrorOf::InternalError),
                            }
                        }
                    },
                    _ => Outcome::Failed(ParseErrorOf::InternalError),
                }
            }
        } else {
            reduce_pass(prior, rest, dest.push(token))
        }
    }
}

/// Reduce `&&` first, then `||`; the first remaining token is the result.
pub open spec fn reduce(tokens: Seq<SpecToken>) -> Outcome<SpecToken> {
    match reduce_pass(SpecToken::And, tokens, Seq::empty()) {
        Outcome::Parsed(t1) => match reduce_pass(SpecToken::Or, t1, Seq::empty()) {
            Outcome::Parsed(t2) => if t2.len() == 0 {
                Outcome::Aborted
            } else {
                Outcome::Parsed(t2[0])
            },
            Outcome::Failed(e) => Outcome::Failed(e),
            Outcome::Aborted => Outcome::Aborted,
        },
        Outcome::Failed(e) => Outcome::Failed(e),
        Outcome::Aborted => Outcome::Aborted,
    }
}

pub proof fn lemma_find_from_bounds(s: Seq<char>, pat: Seq<char>, i: int)
    ensures
        find_from(s, pat, i) matches Some(k) ==> i <= k && 0 <= k && k + pat.len() <= s.len(),
    decreases s.len() - i,
{
    if i < 0 || i >= s.len() || i + pat.len() > s.len() {
    } else if s.subrange(i, i + pat.len()) == pat {
    } else {
        lemma_find_from_bounds(s, pat, i + 1);
    }
}

/// The text after a term is shorter than the text with it.
pub proof fn lemma_parse_term_shrinks(s: Seq<char>)
    ensures
        parse_term(s) matches Ok((_, rest)) ==> rest.len() < s.len(),
{
    lemma_find_from_bounds(s, seq!['='], 0);
    lemma_find_from_bounds(s, seq!['!', '='], 0);
    if let Some((field, op, rest)) = split_field(s) {
        lemma_find_from_bounds(rest, seq!['&', '&'], 0);
        lemma_find_from_bounds(rest, seq!['|', '|'], 0);
    }
}

pub proof fn lemma_right_bracket_positive(s: Seq<char>)
    requires
        s.len() > 0,
        s[0] == '(',
    ensures
        right_bracket(s) matches Some(rb) ==> 1 <= rb < s.len(),
{
    lemma_right_bracket_from_bounds(s, 1, 1);
}

pub proof fn lemma_right_bracket_from_bounds(s: Seq<char>, i: int, depth: int)
    ensures
        right_bracket_from(s, i, depth) matches Some(k) ==> i <= k < s.len(),
    decreases s.len() - i,
{
    if i < 0 || i >= s.len() {
    } else if depth + depth_step(s[i]) == 0 {
    } else {
        lemma_right_bracket_from_bounds(s, i + 1, depth + depth_step(s[i]));
    }
}

/// Tokens of a text without spaces.
pub open spec fn tokenize(s: Seq<char>) -> Outcome<Seq<SpecToken>>
    decreases s.len(), 0int,
{
    if s.len() == 0 {
        Outcome::Parsed(Seq::empty())
    } else if s[0] == '(' {
        match right_bracket(s) {
            None => Outcome::Failed(ParseErrorOf::RightBracketNotFound(s)),
            Some(rb) => match char_at_byte(s, rb) {
                None => Outcome::Aborted,
                Some(cut) => {
                    proof {
                        lemma_right_bracket_positive(s);
                        lemma_char_at_byte_from_bounds(s, rb, 0, 0);
                    }
                    match parse_group(s.subrange(1, cut)) {
                        Outcome::Parsed(token) => match tokenize(s.skip(cut)) {
                            Outcome::Parsed(tokens) => Outcome::Parsed(seq![token] + tokens),
                            Outcome::Failed(e) => Outcome::Failed(e),
                            Outcome::Aborted => Outcome::Aborted,
                        },
                        Outcome::Failed(e) => Outcome::Failed(e),
                        Outcome::Aborted => Outcome::Aborted,
                    }
                },
            },
        }
    } else if s[0] == ')' {
        tokenize(s.drop_first())
    } else if s[0] == '&' || s[0] == '|' {
        if s.len() < 2 || !is_ascii_char(s[1]) {
            Outcome::Aborted
        } else {
            let op = if s[0] == '&' { SpecToken::And } else { SpecToken::Or };
            match tokenize(s.skip(2)) {
                Outcome::Parsed(tokens) => Outcome::Parsed(seq![op] + tokens),
                Outcome::Failed(e) => Outcome::Failed(e),
                Outcome::Aborted => Outcome::Aborted,
            }
        }
    } else {
        match parse_term(s) {
            Ok((token, rest)) => {
                proof {
                    lemma_parse_term_shrinks(s);
                }
                match tokenize(rest) {
                    Outcome::Parsed(tokens) => Outcome::Parsed(seq![token] + tokens),
                    Outcome::Failed(e) => Outcome::Failed(e),
                    Outcome::Aborted => Outcome::Aborted,
                }
            },
            Err(e) => Outcome::Failed(e),
        }
    }
}

/// A text without spaces read as one rule.
pub open spec fn parse_group(s: Seq<char>) -> Outcome<SpecToken>
    decreases s.len(), 1int,
{
    match tokenize(s) {
        Outcome::Parsed(tokens) => match reduce(tokens) {
            Outcome::Parsed(SpecToken::Rule(rule)) => Outcome::Parsed(SpecToken::Rule(rule)),
            Outcome::Parsed(_) => Outcome::Failed(ParseErrorOf::InternalError),
            Outcome::Failed(e) => Outcome::Failed(e),
            Outcome::Aborted => Outcome::Aborted,
        },
        Outcome::Failed(e) => Outcome::Failed(e),
        Outcome::Aborted => Outcome::Aborted,
    }
}

/// The rule of a query. An empty query (after removing spaces) accepts everything.
pub open spec fn parse_query(query: Seq<char>) -> Outcome<SpecRule> {
    let s = without_spaces(query);
    if s.len() == 0 {
        Outcome::Parsed(SpecRule::True)
    } else {
        match parse_group(s) {
            Outcome::Parsed(SpecToken::Rule(rule)) => Outcome::Parsed(rule),
            Outcome::Parsed(_) => Outcome::Failed(ParseErrorOf::InternalError),
            Outcome::Failed(e) => Outcome::Failed(e),
            Outcome::Aborted => Outcome::Aborted,
        }
    }
}

/// A rule that stands for one term: no chain of `&&` or `||`.
pub open spec fn single_rule(r: SpecRule) -> bool {
    !(r is AndRule) && !(r is OrRule)
}

/// `&&` binds tighter than `||`: terms `a || b && c` read as `a || (b && c)`,
/// and `a && b || c` as `(a && b) || c`, whatever the terms are.
pub proof fn law_and_binds_tighter_than_or(a: SpecRule, b: SpecRule, c: SpecRule)
    requires
        single_rule(a),
        single_rule(b),
        single_rule(c),
    ensures
        reduce(seq![SpecToken::Rule(a), SpecToken::Or, SpecToken::Rule(b), SpecToken::And, SpecToken::Rule(c)])
            == Outcome::Parsed(SpecToken::Rule(SpecRule::OrRule(seq![a, SpecRule::AndRule(seq![b, c])]))),
        reduce(seq![SpecToken::Rule(a), SpecToken::And, SpecToken::Rule(b), SpecToken::Or, SpecToken::Rule(c)])
            == Outcome::Parsed(SpecToken::Rule(SpecRule::OrRule(seq![SpecRule::AndRule(seq![a, b]), c]))),
{
    let e = Seq::<SpecToken>::empty();
    let ta = SpecToken::Rule(a);
    let tb = SpecToken::Rule(b);
    let tc = SpecToken::Rule(c);
    let and = SpecToken::And;
    let or = SpecToken::Or;
    assert(expand(and, a) == seq![a]);
    assert(expand(and, b) == seq![b]);
    assert(expand(and, c) == seq![c]);
    assert(expand(or, a) == seq![a]);
    assert(expand(or, c) == seq![c]);
    assert(seq![b] + seq![c] == seq![b, c]);
    assert(seq![a] + seq![b] == seq![a, b]);

    // a || b && c
    let bc = SpecRule::AndRule(seq![b, c]);
    let tbc = SpecToken::Rule(bc);
    let d1 = seq![ta, or, tbc];
    assert(reduce_pass(and, e, d1) == Outcome::Parsed(d1));
    assert(seq![and, tc].drop_first() == seq![tc]);
    assert(seq![tc].drop_first() == e);
    assert(seq![ta, or, tb].drop_last().push(tbc) == d1);
    assert(reduce_pass(and, seq![and, tc], seq![ta, or, tb]) == Outcome::Parsed(d1));
    assert(seq![tb, and, tc].drop_first() == seq![and, tc]);
    assert(seq![ta, or].push(tb) == seq![ta, or, tb]);
    assert(reduce_pass(and, seq![tb, and, tc], seq![ta, or]) == Outcome::Parsed(d1));
    assert(seq![or, tb, and, tc].drop_first() == seq![tb, and, tc]);
    assert(seq![ta].push(or) == seq![ta, or]);
    assert(reduce_pass(and, seq![or, tb, and, tc], seq![ta]) == Outcome::Parsed(d1));
    assert(seq![ta, or, tb, and, tc].drop_first() == seq![or, tb, and, tc]);
    assert(e.push(ta) == seq![ta]);
    assert(reduce_pass(and, seq![ta, or, tb, and, tc], e) == Outcome::Parsed(d1));
    assert(expand(or, bc) == seq![bc]);
    assert(seq![a] + seq![bc] == seq![a, bc]);
    let r1 = SpecToken::Rule(SpecRule::OrRule(seq![a, bc]));
    assert(reduce_pass(or, e, seq![r1]) == Outcome::Parsed(seq![r1]));
    assert(seq![or, tbc].drop_first() == seq![tbc]);
    assert(seq![tbc].drop_first() == e);
    assert(seq![ta].drop_last().push(r1) == seq![r1]);
    assert(reduce_pass(or, seq![or, tbc], seq![ta]) == Outcome::Parsed(seq![r1]));
    assert(d1.drop_first() == seq![or, tbc]);
    assert(reduce_pass(or, d1, e) == Outcome::Parsed(seq![r1]));

    // a && b || c
    let ab = SpecRule::AndRule(seq![a, b]);
    let tab = SpecToken::Rule(ab);
    let d2 = seq![tab, or, tc];
    assert(reduce_pass(and, e, d2) == Outcome::Parsed(d2));
    assert(seq![tab, or].push(tc) == d2);
    assert(reduce_pass(and, seq![tc], seq![tab, or]) == Outcome::Parsed(d2));
    assert(seq![tab].push(or) == seq![tab, or]);
    assert(seq![or, tc].drop_first() == seq![tc]);
    assert(reduce_pass(and, seq![or, tc], seq![tab]) == Outcome::Parsed(d2));
    assert(seq![and, tb, or, tc].drop_first() == seq![tb, or, tc]);
    assert(seq![tb, or, tc].drop_first() == seq![or, tc]);
    assert(seq![ta].drop_last().push(tab) == seq![tab]);
    assert(reduce_pass(and, seq![and, tb, or, tc], seq![ta]) == Outcome::Parsed(d2));
    assert(seq![ta, and, tb, or, tc].drop_first() == seq![and, tb, or, tc]);
    assert(reduce_pass(and, seq![ta, and, tb, or, tc], e) == Outcome::Parsed(d2));
    assert(expand(or, ab) == seq![ab]);
    assert(seq![ab] + seq![c] == seq![ab, c]);
    let r2 = SpecToken::Rule(SpecRule::OrRule(seq![ab, c]));
    assert(reduce_pass(or, e, seq![r2]) == Outcome::Parsed(seq![r2]));
    assert(seq![tab].drop_last().push(r2) == seq![r2]);
    assert(reduce_pass(or, seq![or, tc], seq![tab]) == Outcome::Parsed(seq![r2]));
    assert(d2.drop_first() == seq![or, tc]);
    assert(reduce_pass(or, d2, e) == Outcome::Parsed(seq![r2]));
}

/// A query whose terms read as `a || b && c` is the rule `a || (b && c)`.
pub proof fn law_query_and_binds_tighter(query: Seq<char>, a: SpecRule, b: SpecRule, c: SpecRule)
    requires
        single_rule(a),
        single_rule(b),
        single_rule(c),
        tokenize(without_spaces(query)) == Outcome::Parsed(
            seq![SpecToken::Rule(a), SpecToken::Or, SpecToken::Rule(b), SpecToken::And, SpecToken::Rule(c)],
        ),
    ensures
        parse_query(query) == Outcome::Parsed(SpecRule::OrRule(seq![a, SpecRule::AndRule(seq![b, c])])),
{
    law_and_binds_tighter_than_or(a, b, c);
    if without_spaces(query).len() == 0 {
        assert(tokenize(without_spaces(query)) == Outcome::<Seq<SpecToken>>::Parsed(Seq::empty()));
        assert(seq![SpecToken::Rule(a), SpecToken::Or, SpecToken::Rule(b), SpecToken::And, SpecToken::Rule(c)].len() == 5);
    }
}

} // verus!
