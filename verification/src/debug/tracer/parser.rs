//! Parser of filter queries of the form `name=value`, with `&&`, `||` and brackets.
use vstd::prelude::*;

use crate::debug::tracer::filter::{lemma_rules_view_map, rule_view, rules_view, Rule, RuleCommandDirection, SpecRule};
use crate::debug::tracer::query::{
    all_digits, ascii_lower, ascii_lowercase, char_at_byte, char_at_byte_from, create_rule, depth_step,
    digit_value, digits_value, expand, field_rule, find, find_from, is_digit,
    lemma_char_at_byte_from_bounds, lemma_find_from_bounds, lemma_right_bracket_positive, parse_group,
    parse_query, parse_term, parse_u64, reduce, reduce_pass, right_bracket, right_bracket_from,
    same_operator, split_field, split_value, starts_with, tokenize, unsigned_digits, utf8_len, without_spaces, Op,
    Outcome, ParseError, ParseErrorOf, SpecParseError, SpecToken,
};

verus! {

broadcast use vstd::std_specs::vec::group_vec_axioms;

/// A token of the query: an operator or a rule.
#[derive(Debug, PartialEq, Eq)]
pub enum Token {
    And,
    Or,
    Rule(Rule),
}

pub open spec fn token_view(t: Token) -> SpecToken {
    match t {
        Token::And => SpecToken::And,
        Token::Or => SpecToken::Or,
        Token::Rule(r) => SpecToken::Rule(rule_view(r)),
    }
}

pub open spec fn tokens_view(s: Seq<Token>) -> Seq<SpecToken> {
    s.map_values(|t: Token| token_view(t))
}

pub open spec fn error_view(e: ParseError) -> SpecParseError {
    match e {
        ParseErrorOf::UnknownField(s) => ParseErrorOf::UnknownField(s@),
        ParseErrorOf::InternalError => ParseErrorOf::InternalError,
        ParseErrorOf::ValueFormatError(s) => ParseErrorOf::ValueFormatError(s@),
        ParseErrorOf::UnknownOperation(s) => ParseErrorOf::UnknownOperation(s@),
        ParseErrorOf::RightBracketNotFound(s) => ParseErrorOf::RightBracketNotFound(s@),
    }
}

/// Outcome of a step of the parser.
pub enum ParseStep<T> {
    Done(T),
    Failed(ParseError),
    Aborted,
}

/// The characters of a text.
#[verifier::external_body]
pub(crate) fn chars_of(s: &str) -> (r: Vec<char>)
    ensures
        r@ == s@,
{
    s.chars().collect()
}

/// A text made of the given characters.
#[verifier::external_body]
pub(crate) fn string_of(cs: &Vec<char>) -> (r: String)
    ensures
        r@ == cs@,
{
    cs.iter().collect()
}

fn slice(v: &Vec<char>, from: usize, to: usize) -> (r: Vec<char>)
    requires
        from <= to <= v.len(),
    ensures
        r@ == v@.subrange(from as int, to as int),
{
    let mut r: Vec<char> = Vec::new();
    let mut i = from;
    while i < to
        invariant
            from <= i <= to <= v.len(),
            r@ == v@.subrange(from as int, i as int),
        decreases to - i,
    {
        r.push(v[i]);
        i = i + 1;
    }
    r
}

fn remove_spaces(v: &Vec<char>) -> (r: Vec<char>)
    ensures
        r@ == without_spaces(v@),
{
    let mut r: Vec<char> = Vec::new();
    let mut i: usize = 0;
    while i < v.len()
        invariant
            i <= v.len(),
            r@ == without_spaces(v@.take(i as int)),
        decreases v.len() - i,
    {
        proof {
            assert(v@.take(i + 1).drop_last() == v@.take(i as int));
        }
        if v[i] != ' ' {
            r.push(v[i]);
        }
        i = i + 1;
    }
    proof {
        assert(v@.take(v.len() as int) == v@);
    }
    r
}

fn lowercase(v: &Vec<char>) -> (r: Vec<char>)
    ensures
        r@ == ascii_lowercase(v@),
{
    let mut r: Vec<char> = Vec::new();
    let mut i: usize = 0;
    while i < v.len()
        invariant
            i <= v.len(),
            r@ == ascii_lowercase(v@.take(i as int)),
        decreases v.len() - i,
    {
        let c = v[i];
        let l = if 'A' <= c && c <= 'Z' {
            let code: u32 = (c as u32) + 32;
            proof {
                assert(code < 0x80);
            }
            char_from_ascii(code)
        } else {
            c
        };
        r.push(l);
        proof {
            assert(ascii_lowercase(v@.take(i + 1)) == ascii_lowercase(v@.take(i as int)).push(ascii_lower(c)));
        }
        i = i + 1;
    }
    proof {
        assert(v@.take(v.len() as int) == v@);
    }
    r
}

/// The character with an ASCII code.
fn char_from_ascii(code: u32) -> (c: char)
    requires
        code < 0x80,
    ensures
        c as u32 == code,
{
    (code as u8) as char
}

/// First index of a character at or after `from`.
fn find_char(v: &Vec<char>, c: char) -> (r: Option<usize>)
    ensures
        match r {
            Some(i) => find(v@, seq![c]) == Some(i as int),
            None => find(v@, seq![c]) is None,
        },
{
    let mut i: usize = 0;
    while i < v.len()
        invariant
            i <= v.len(),
            find(v@, seq![c]) == find_from(v@, seq![c], i as int),
        decreases v.len() - i,
    {
        if v[i] == c {
            proof {
                assert(v@.subrange(i as int, i + 1) == seq![c]);
            }
            return Some(i);
        }
        proof {
            assert(v@.subrange(i as int, i + 1) != seq![c]) by {
                assert(v@.subrange(i as int, i + 1)[0] == v@[i as int]);
            }
        }
        i = i + 1;
    }
    None
}

/// First index of a pair of characters.
fn find_pair(v: &Vec<char>, a: char, b: char) -> (r: Option<usize>)
    ensures
        match r {
            Some(i) => find(v@, seq![a, b]) == Some(i as int),
            None => find(v@, seq![a, b]) is None,
        },
{
    let mut i: usize = 0;
    while i < v.len()
        invariant
            i <= v.len(),
            find(v@, seq![a, b]) == find_from(v@, seq![a, b], i as int),
        decreases v.len() - i,
    {
        if i + 1 >= v.len() {
            return None;
        }
        if v[i] == a && v[i + 1] == b {
            proof {
                assert(v@.subrange(i as int, i + 2) == seq![a, b]);
            }
            return Some(i);
        }
        proof {
            assert(v@.subrange(i as int, i + 2) != seq![a, b]) by {
                assert(v@.subrange(i as int, i + 2)[0] == v@[i as int]);
                assert(v@.subrange(i as int, i + 2)[1] == v@[i + 1]);
            }
        }
        i = i + 1;
    }
    None
}

/// Index of the bracket that closes the one at the start of the query, or
/// `RightBracketNotFound` with the query.
pub fn find_right_bracket(query: &Vec<char>) -> (r: Result<usize, ParseError>)
    requires
        query.len() > 0,
        query[0] == '(',
    ensures
        match r {
            Ok(i) => right_bracket(query@) == Some(i as int),
            Err(e) => right_bracket(query@) is None && error_view(e) == ParseErrorOf::RightBracketNotFound(query@),
        },
{
    let mut depth: usize = 1;
    let mut i: usize = 1;
    proof {
        assert(depth_step(query@[0]) == 1);
    }
    while i < query.len()
        invariant
            1 <= i <= query.len(),
            1 <= depth <= i,
            query[0] == '(',
            right_bracket(query@) == right_bracket_from(query@, i as int, depth as int),
        decreases query.len() - i,
    {
        let c = query[i];
        if c == '(' {
            depth = depth + 1;
        } else if c == ')' {
            depth = depth - 1;
            if depth == 0 {
                return Ok(i);
            }
        }
        i = i + 1;
    }
    Err(ParseErrorOf::RightBracketNotFound(string_of(query)))
}

/// The number written in `value`, or `ValueFormatError` with the value.
pub fn to_id(value: &Vec<char>) -> (r: Result<u64, ParseError>)
    ensures
        match r {
            Ok(n) => parse_u64(value@) == Some(n),
            Err(e) => parse_u64(value@) is None && error_view(e) == ParseErrorOf::ValueFormatError(value@),
        },
{
    match parse_decimal(value) {
        Some(n) => Ok(n),
        None => Err(ParseErrorOf::ValueFormatError(string_of(value))),
    }
}

proof fn lemma_digits_value_monotone(ds: Seq<char>, k: int)
    requires
        0 <= k <= ds.len(),
        all_digits(ds),
    ensures
        digits_value(ds.take(k)) <= digits_value(ds),
        0 <= digits_value(ds.take(k)),
    decreases ds.len(),
{
    if k == ds.len() {
        assert(ds.take(k) == ds);
        lemma_digits_value_nonneg(ds);
    } else {
        assert(all_digits(ds.drop_last()));
        assert(ds.drop_last().take(k) == ds.take(k));
        lemma_digits_value_monotone(ds.drop_last(), k);
        lemma_digits_value_nonneg(ds.drop_last());
    }
}

proof fn lemma_digits_value_nonneg(ds: Seq<char>)
    requires
        all_digits(ds),
    ensures
        0 <= digits_value(ds),
    decreases ds.len(),
{
    if ds.len() > 0 {
        assert(all_digits(ds.drop_last()));
        lemma_digits_value_nonneg(ds.drop_last());
    }
}

fn parse_decimal(s: &Vec<char>) -> (r: Option<u64>)
    ensures
        r == parse_u64(s@),
{
    let start: usize = if s.len() > 0 && s[0] == '+' { 1 } else { 0 };
    let ghost ds = unsigned_digits(s@);
    proof {
        assert(ds == s@.skip(start as int));
    }
    if start >= s.len() {
        return None;
    }
    let mut acc: u64 = 0;
    let mut i: usize = start;
    while i < s.len()
        invariant
            start <= i <= s.len(),
            ds == s@.skip(start as int),
            ds == unsigned_digits(s@),
            all_digits(ds.take(i - start)),
            acc as int == digits_value(ds.take(i - start)),
        decreases s.len() - i,
    {
        let c = s[i];
        if !('0' <= c && c <= '9') {
            proof {
                assert(ds[i - start] == c);
                assert(!is_digit(ds[(i - start) as int]));
            }
            return None;
        }
        let d: u64 = ((c as u32) - ('0' as u32)) as u64;
        proof {
            assert(ds.take(i - start + 1).drop_last() == ds.take(i - start));
            assert(ds.take(i - start + 1).last() == c);
            assert(all_digits(ds.take(i - start + 1)));
        }
        match acc.checked_mul(10) {
            None => {
                proof {
                    let k = i - start + 1;
                    assert(digits_value(ds.take(k)) == digits_value(ds.take(k - 1)) * 10 + digit_value(c));
                    if all_digits(ds) {
                        lemma_digits_value_monotone(ds, k);
                    }
                }
                return None;
            },
            Some(m) => match m.checked_add(d) {
                None => {
                    proof {
                        let k = i - start + 1;
                        assert(digits_value(ds.take(k)) == digits_value(ds.take(k - 1)) * 10 + digit_value(c));
                        if all_digits(ds) {
                            lemma_digits_value_monotone(ds, k);
                        }
                    }
                    return None;
                },
                Some(v) => {
                    acc = v;
                },
            },
        }
        i = i + 1;
    }
    proof {
        assert(ds.take(ds.len() as int) == ds);
    }
    Some(acc)
}

fn eq_chars(v: &Vec<char>, w: &Vec<char>) -> (r: bool)
    ensures
        r == (v@ == w@),
{
    if v.len() != w.len() {
        return false;
    }
    let mut i: usize = 0;
    while i < v.len()
        invariant
            i <= v.len(),
            v.len() == w.len(),
            v@.take(i as int) == w@.take(i as int),
        decreases v.len() - i,
    {
        if v[i] != w[i] {
            proof {
                assert(v@[i as int] != w@[i as int]);
            }
            return false;
        }
        proof {
            assert(v@.take(i + 1) == v@.take(i as int).push(v@[i as int]));
            assert(w@.take(i + 1) == w@.take(i as int).push(w@[i as int]));
        }
        i = i + 1;
    }
    proof {
        assert(v@.take(v.len() as int) == v@);
        assert(w@.take(w.len() as int) == w@);
    }
    true
}

/// Name, comparison and the text after the comparison of a term; or
/// `UnknownOperation` with the query when it has neither `=` nor `!=`.
pub fn get_field(query: &Vec<char>) -> (r: Result<(Vec<char>, Op, Vec<char>), ParseError>)
    ensures
        match r {
            Ok((field, op, rest)) => split_field(query@) == Some((field@, op, rest@)),
            Err(e) => split_field(query@) is None && error_view(e) == ParseErrorOf::UnknownOperation(query@),
        },
{
    let eq = find_char(query, '=');
    let ne = find_pair(query, '!', '=');
    proof {
        lemma_find_from_bounds(query@, seq!['='], 0);
        lemma_find_from_bounds(query@, seq!['!', '='], 0);
    }
    let equal = match (eq, ne) {
        (Some(e), Some(n)) => e < n,
        (Some(_), None) => true,
        _ => false,
    };
    if eq.is_none() && ne.is_none() {
        Err(ParseErrorOf::UnknownOperation(string_of(query)))
    } else if equal {
        let e = eq.unwrap();
        proof {
            assert(seq!['='].len() == 1);
            assert(find_from(query@, seq!['='], 0) == Some(e as int));
            assert(e + 1 <= query@.len());
        }
        Ok((slice(query, 0, e), Op::Equal, slice(query, e + 1, query.len())))
    } else {
        let n = ne.unwrap();
        proof {
            assert(seq!['!', '='].len() == 2);
            assert(find_from(query@, seq!['!', '='], 0) == Some(n as int));
            assert(n + 2 <= query@.len());
            assert(query@.len() == query.len());
        }
        let after = n + 2;
        Ok((slice(query, 0, n), Op::NotEqual, slice(query, after, query.len())))
    }
}

/// Value of a term and the text from the first `&&` or `||` on.
pub fn get_value(query: &Vec<char>) -> (r: (Vec<char>, Vec<char>))
    ensures
        (r.0@, r.1@) == split_value(query@),
{
    let and_op = match find_pair(query, '&', '&') {
        Some(i) => i,
        None => query.len(),
    };
    let or_op = match find_pair(query, '|', '|') {
        Some(i) => i,
        None => query.len(),
    };
    proof {
        lemma_find_from_bounds(query@, seq!['&', '&'], 0);
        lemma_find_from_bounds(query@, seq!['|', '|'], 0);
    }
    let position = if and_op < or_op { and_op } else { or_op };
    (slice(query, 0, position), slice(query, position, query.len()))
}

fn prefix_is(v: &Vec<char>, a: char, b: char, c: char) -> (r: bool)
    ensures
        r == starts_with(v@, seq![a, b, c]),
{
    if v.len() >= 3 && v[0] == a && v[1] == b && v[2] == c {
        proof {
            assert(v@.take(3) == seq![a, b, c]);
        }
        true
    } else {
        proof {
            if v.len() >= 3 {
                assert(v@.take(3)[0] == v@[0]);
                assert(v@.take(3)[1] == v@[1]);
                assert(v@.take(3)[2] == v@[2]);
            }
        }
        false
    }
}

fn field_to_rule(field: &Vec<char>, value: &Vec<char>) -> (r: Result<Rule, ParseError>)
    ensures
        match r {
            Ok(rule) => field_rule(field@, value@) == Ok::<SpecRule, SpecParseError>(rule_view(rule)),
            Err(e) => field_rule(field@, value@) == Err::<SpecRule, SpecParseError>(error_view(e)),
        },
{
    if eq_chars(field, &vec!['u', 's', 'e', 'r']) {
        let id = to_id(value)?;
        Ok(Rule::User(id as u16))
    } else if eq_chars(field, &vec!['t', 'e', 'm', 'p', 'l', 'a', 't', 'e']) {
        let id = to_id(value)?;
        Ok(Rule::Template(id as u16))
    } else if eq_chars(field, &vec!['f', 'i', 'e', 'l', 'd']) {
        let id = to_id(value)?;
        Ok(Rule::Field(id as u16))
    } else if eq_chars(field, &vec!['i', 'd']) {
        let id = to_id(value)?;
        Ok(Rule::ObjectId(id as u32))
    } else if eq_chars(field, &vec!['o', 'w', 'n', 'e', 'r']) {
        if eq_chars(value, &vec!['r', 'o', 'o', 'm']) {
            Ok(Rule::RoomOwner)
        } else {
            let id = to_id(value)?;
            Ok(Rule::UserOwner(id as u16))
        }
    } else {
        Err(ParseErrorOf::UnknownField(string_of(field)))
    }
}

/// One term at the start of the query: its token and the text after it.
pub fn parse_field(query: &Vec<char>) -> (r: Result<(Token, Vec<char>), ParseError>)
    ensures
        match r {
            Ok((token, rest)) => parse_term(query@) == Ok::<(SpecToken, Seq<char>), SpecParseError>(
                (token_view(token), rest@),
            ),
            Err(e) => parse_term(query@) == Err::<(SpecToken, Seq<char>), SpecParseError>(error_view(e)),
        },
{
    if prefix_is(query, 'c', '2', 's') {
        let rest = slice(query, 3, query.len());
        Ok((Token::Rule(Rule::Direction(RuleCommandDirection::C2S)), lowercase(&rest)))
    } else if prefix_is(query, 's', '2', 'c') {
        let rest = slice(query, 3, query.len());
        Ok((Token::Rule(Rule::Direction(RuleCommandDirection::S2C)), lowercase(&rest)))
    } else {
        let (field, op, rest) = get_field(query)?;
        let (value, remaining) = get_value(&rest);
        let rule = field_to_rule(&field, &value)?;
        let rule = match op {
            Op::Equal => rule,
            Op::NotEqual => Rule::Not(Box::new(rule)),
        };
        Ok((Token::Rule(rule), remaining))
    }
}

pub open spec fn prior_token(and_pass: bool) -> SpecToken {
    if and_pass {
        SpecToken::And
    } else {
        SpecToken::Or
    }
}

pub open spec fn tokens_step_matches(r: ParseStep<Vec<Token>>, o: Outcome<Seq<SpecToken>>) -> bool {
    match (r, o) {
        (ParseStep::Done(v), Outcome::Parsed(s)) => tokens_view(v@) == s,
        (ParseStep::Failed(e), Outcome::Failed(se)) => error_view(e) == se,
        (ParseStep::Aborted, Outcome::Aborted) => true,
        _ => false,
    }
}

pub open spec fn token_step_matches(r: ParseStep<Token>, o: Outcome<SpecToken>) -> bool {
    match (r, o) {
        (ParseStep::Done(t), Outcome::Parsed(s)) => token_view(t) == s,
        (ParseStep::Failed(e), Outcome::Failed(se)) => error_view(e) == se,
        (ParseStep::Aborted, Outcome::Aborted) => true,
        _ => false,
    }
}

proof fn lemma_rules_view_concat(a: Seq<Rule>, b: Seq<Rule>)
    ensures
        rules_view(a + b) == rules_view(a) + rules_view(b),
{
    lemma_rules_view_map(a);
    lemma_rules_view_map(b);
    lemma_rules_view_map(a + b);
    assert((a + b).map_values(|r: Rule| rule_view(r)) == a.map_values(|r: Rule| rule_view(r)) + b.map_values(
        |r: Rule| rule_view(r),
    ));
}

impl Token {
    /// The rule that joins rules by this operator.
    pub fn create_rule(&self, rules: Vec<Rule>) -> (r: Rule)
        requires
            !(*self is Rule),
        ensures
            rule_view(r) == create_rule(token_view(*self), rules_view(rules@)),
    {
        match self {
            Token::Or => Rule::OrRule(rules),
            _ => Rule::AndRule(rules),
        }
    }

    /// The rules that a rule contributes to a chain of this operator: the
    /// rules inside it where it joins by the same operator, else itself.
    pub fn expand(&self, rule: Rule) -> (r: Vec<Rule>)
        requires
            !(*self is Rule),
        ensures
            rules_view(r@) == expand(token_view(*self), rule_view(rule)),
    {
        let and_pass = match self {
            Token::And => true,
            _ => false,
        };
        match rule {
            Rule::AndRule(rules) if and_pass => rules,
            Rule::OrRule(rules) if !and_pass => rules,
            other => {
                let v = vec![other];
                proof {
                    lemma_rules_view_map(v@);
                    assert(v@.map_values(|r: Rule| rule_view(r)) == seq![rule_view(other)]);
                }
                v
            },
        }
    }
}

/// One reduction pass over the tokens for `&&` (`and_pass`) or `||`.
fn reduce_operator(and_pass: bool, source: Vec<Token>) -> (r: ParseStep<Vec<Token>>)
    ensures
        tokens_step_matches(r, reduce_pass(prior_token(and_pass), tokens_view(source@), Seq::empty())),
{
    let ghost prior = prior_token(and_pass);
    let ghost initial = tokens_view(source@);
    let mut pending = source;
    let mut dest: Vec<Token> = Vec::new();
    proof {
        assert(tokens_view(dest@) == Seq::<SpecToken>::empty());
    }
    while pending.len() > 0
        invariant
            prior == prior_token(and_pass),
            initial == tokens_view(source@),
            reduce_pass(prior, initial, Seq::empty()) == reduce_pass(prior, tokens_view(pending@), tokens_view(dest@)),
        decreases pending.len(),
    {
        let ghost src = pending@;
        let ghost dst = dest@;
        let token = pending.remove(0);
        proof {
            assert(tokens_view(pending@) == tokens_view(src).drop_first());
            assert(tokens_view(src)[0] == token_view(token));
        }
        let is_prior = match &token {
            Token::And => and_pass,
            Token::Or => !and_pass,
            Token::Rule(_) => false,
        };
        if is_prior {
            proof {
                assert(same_operator(token_view(token), prior));
                assert(tokens_view(src).len() > 0);
            }
            if dest.len() == 0 {
                proof {
                    assert(tokens_view(dst).len() == 0);
                    assert(reduce_pass(prior, tokens_view(src), tokens_view(dst)) == Outcome::<Seq<SpecToken>>::Aborted);
                }
                return ParseStep::Aborted;
            }
            let left = dest.pop().unwrap();
            proof {
                assert(tokens_view(dest@) == tokens_view(dst).drop_last());
                assert(tokens_view(dst).last() == token_view(left));
            }
            let left_rule = match left {
                Token::Rule(r) => r,
                _ => {
                    return ParseStep::Failed(ParseErrorOf::InternalError);
                },
            };
            if pending.len() == 0 {
                return ParseStep::Aborted;
            }
            let ghost src2 = pending@;
            let right = pending.remove(0);
            proof {
                assert(tokens_view(pending@) == tokens_view(src2).drop_first());
                assert(tokens_view(src2)[0] == token_view(right));
            }
            let right_rule = match right {
                Token::Rule(r) => r,
                _ => {
                    return ParseStep::Failed(ParseErrorOf::InternalError);
                },
            };
            let operator = if and_pass {
                Token::And
            } else {
                Token::Or
            };
            let mut rules = operator.expand(left_rule);
            let mut right_rules = operator.expand(right_rule);
            let ghost l = rules@;
            let ghost rr = right_rules@;
            rules.append(&mut right_rules);
            proof {
                lemma_rules_view_concat(l, rr);
            }
            let joined = operator.create_rule(rules);
            let ghost d2 = dest@;
            dest.push(Token::Rule(joined));
            proof {
                assert(tokens_view(dest@) == tokens_view(d2).push(token_view(Token::Rule(joined))));
            }
        } else {
            dest.push(token);
            proof {
                assert(tokens_view(dest@) == tokens_view(dst).push(token_view(token)));
                assert(!same_operator(token_view(token), prior));
            }
        }
    }
    ParseStep::Done(dest)
}

/// Reduce `&&`, then `||`; the first remaining token is the result.
fn reduce_tokens(tokens: Vec<Token>) -> (r: ParseStep<Token>)
    ensures
        token_step_matches(r, reduce(tokens_view(tokens@))),
{
    match reduce_operator(true, tokens) {
        ParseStep::Done(t1) => match reduce_operator(false, t1) {
            ParseStep::Done(t2) => {
                let mut t2 = t2;
                if t2.len() == 0 {
                    ParseStep::Aborted
                } else {
                    let first = t2.remove(0);
                    ParseStep::Done(first)
                }
            },
            ParseStep::Failed(e) => ParseStep::Failed(e),
            ParseStep::Aborted => ParseStep::Aborted,
        },
        ParseStep::Failed(e) => ParseStep::Failed(e),
        ParseStep::Aborted => ParseStep::Aborted,
    }
}

/// Tokens already read, followed by the outcome of reading the rest.
pub open spec fn prepend(prefix: Seq<SpecToken>, o: Outcome<Seq<SpecToken>>) -> Outcome<Seq<SpecToken>> {
    match o {
        Outcome::Parsed(ts) => Outcome::Parsed(prefix + ts),
        Outcome::Failed(e) => Outcome::Failed(e),
        Outcome::Aborted => Outcome::Aborted,
    }
}

proof fn lemma_prepend_push(prefix: Seq<SpecToken>, t: SpecToken, o: Outcome<Seq<SpecToken>>)
    ensures
        prepend(prefix, prepend(seq![t], o)) == prepend(prefix.push(t), o),
{
    if let Outcome::Parsed(ts) = o {
        assert(prefix + (seq![t] + ts) == prefix.push(t) + ts);
    }
}

/// Number of bytes of a character in UTF-8.
fn utf8_width(c: char) -> (r: usize)
    ensures
        r == utf8_len(c),
{
    let n = c as u32;
    if n < 0x80 {
        1
    } else if n < 0x800 {
        2
    } else if n < 0x10000 {
        3
    } else {
        4
    }
}

/// The index of the character that starts at byte `b` of the UTF-8 form of the text.
fn char_at_byte_index(v: &Vec<char>, b: usize) -> (r: Option<usize>)
    ensures
        match r {
            Some(k) => char_at_byte(v@, b as int) == Some(k as int),
            None => char_at_byte(v@, b as int) is None,
        },
{
    let mut j: usize = 0;
    let mut at: usize = 0;
    loop
        invariant
            j <= v.len(),
            at <= b,
            char_at_byte(v@, b as int) == char_at_byte_from(v@, b as int, j as int, at as int),
        decreases v.len() - j,
    {
        if at == b {
            return Some(j);
        }
        if j >= v.len() {
            return None;
        }
        let step = utf8_width(v[j]);
        if step > b - at {
            proof {
                assert(char_at_byte_from(v@, b as int, j + 1, at + step) is None);
            }
            return None;
        }
        at = at + step;
        j = j + 1;
    }
}

/// A query without spaces read as one rule token: the terms and bracketed
/// groups are read into tokens, then the operators are reduced.
fn parse_with_bracket(query: &Vec<char>) -> (r: ParseStep<Token>)
    ensures
        token_step_matches(r, parse_group(query@)),
    decreases query@.len(),
{
    let mut tokens: Vec<Token> = Vec::new();
    let mut rest: Vec<char> = slice(query, 0, query.len());
    proof {
        assert(rest@ == query@);
        assert(tokens_view(tokens@) == Seq::<SpecToken>::empty());
        assert(prepend(Seq::empty(), tokenize(query@)) == tokenize(query@));
    }
    while rest.len() > 0
        invariant
            rest@.len() <= query@.len(),
            tokenize(query@) == prepend(tokens_view(tokens@), tokenize(rest@)),
        decreases rest@.len(),
    {
        let ghost before = tokens@;
        let c = rest[0];
        if c == '(' {
            match find_right_bracket(&rest) {
                Err(e) => {
                    return ParseStep::Failed(e);
                },
                Ok(rb) => {
                    proof {
                        lemma_right_bracket_positive(rest@);
                    }
                    let cut = match char_at_byte_index(&rest, rb) {
                        None => return ParseStep::Aborted,
                        Some(cut) => cut,
                    };
                    proof {
                        lemma_char_at_byte_from_bounds(rest@, rb as int, 0, 0);
                    }
                    let expression = slice(&rest, 1, cut);
                    match parse_with_bracket(&expression) {
                        ParseStep::Done(token) => {
                            let ghost old_rest = rest@;
                            tokens.push(token);
                            rest = slice(&rest, cut, rest.len());
                            proof {
                                lemma_prepend_push(tokens_view(before), token_view(token), tokenize(rest@));
                                assert(tokens_view(tokens@) == tokens_view(before).push(token_view(token)));
                            }
                        },
                        ParseStep::Failed(e) => {
                            return ParseStep::Failed(e);
                        },
                        ParseStep::Aborted => {
                            return ParseStep::Aborted;
                        },
                    }
                },
            }
        } else if c == ')' {
            rest = slice(&rest, 1, rest.len());
        } else if c == '&' || c == '|' {
            if rest.len() < 2 || (rest[1] as u32) >= 128 {
                return ParseStep::Aborted;
            }
            let token = if c == '&' {
                Token::And
            } else {
                Token::Or
            };
            tokens.push(token);
            rest = slice(&rest, 2, rest.len());
            proof {
                lemma_prepend_push(tokens_view(before), token_view(token), tokenize(rest@));
                assert(tokens_view(tokens@) == tokens_view(before).push(token_view(token)));
            }
        } else {
            let ghost old_rest = rest@;
            match parse_field(&rest) {
                Ok((token, remaining)) => {
                    proof {
                        crate::debug::tracer::query::lemma_parse_term_shrinks(old_rest);
                    }
                    tokens.push(token);
                    rest = remaining;
                    proof {
                        lemma_prepend_push(tokens_view(before), token_view(token), tokenize(rest@));
                        assert(tokens_view(tokens@) == tokens_view(before).push(token_view(token)));
                    }
                },
                Err(e) => {
                    return ParseStep::Failed(e);
                },
            }
        }
    }
    proof {
        assert(tokens_view(tokens@) + Seq::<SpecToken>::empty() == tokens_view(tokens@));
    }
    match reduce_tokens(tokens) {
        ParseStep::Done(Token::Rule(rule)) => ParseStep::Done(Token::Rule(rule)),
        ParseStep::Done(_) => ParseStep::Failed(ParseErrorOf::InternalError),
        ParseStep::Failed(e) => ParseStep::Failed(e),
        ParseStep::Aborted => ParseStep::Aborted,
    }
}

/// Read a filter query into a rule; an empty query accepts every command.
///
/// The query must not be one on which the reading stops without an answer
/// (see [`try_parse`] for a version that reports those).
pub fn parse(query: &str) -> (r: Result<Rule, ParseError>)
    requires
        !(parse_query(query@) is Aborted),
    ensures
        match r {
            Ok(rule) => parse_query(query@) == Outcome::Parsed(rule_view(rule)),
            Err(e) => parse_query(query@) == Outcome::<SpecRule>::Failed(error_view(e)),
        },
{
    match try_parse(query) {
        Some(result) => result,
        None => Err(ParseErrorOf::InternalError),
    }
}

/// Read a filter query into a rule; `None` for the queries on which the
/// reading stops without an answer.
pub fn try_parse(query: &str) -> (r: Option<Result<Rule, ParseError>>)
    ensures
        match r {
            None => parse_query(query@) is Aborted,
            Some(Ok(rule)) => parse_query(query@) == Outcome::Parsed(rule_view(rule)),
            Some(Err(e)) => parse_query(query@) == Outcome::<SpecRule>::Failed(error_view(e)),
        },
{
    let chars = chars_of(query);
    let stripped = remove_spaces(&chars);
    if stripped.len() == 0 {
        return Some(Ok(Rule::True));
    }
    match parse_with_bracket(&stripped) {
        ParseStep::Done(Token::Rule(rule)) => Some(Ok(rule)),
        ParseStep::Done(_) => Some(Err(ParseErrorOf::InternalError)),
        ParseStep::Failed(e) => Some(Err(e)),
        ParseStep::Aborted => None,
    }
}

} // verus!

verus! {

/// The text that `{:?}` gives for a string: the string in double quotes, with
/// the characters that need it escaped.
pub uninterp spec fn quoted(s: Seq<char>) -> Seq<char>;

/// `format!("{:?}", s)` on a string.
#[verifier::external_body]
fn debug_quoted(s: &String) -> (r: Vec<char>)
    ensures
        r@ == quoted(s@),
{
    format!("{:?}", s).chars().collect()
}

/// The text of a parse error: its variant and, where it has one, its quoted text.
pub open spec fn error_text(e: SpecParseError) -> Seq<char> {
    match e {
        ParseErrorOf::UnknownField(s) => "UnknownField("@ + quoted(s) + ")"@,
        ParseErrorOf::InternalError => "InternalError"@,
        ParseErrorOf::ValueFormatError(s) => "ValueFormatError("@ + quoted(s) + ")"@,
        ParseErrorOf::UnknownOperation(s) => "UnknownOperation("@ + quoted(s) + ")"@,
        ParseErrorOf::RightBracketNotFound(s) => "RightBracketNotFound("@ + quoted(s) + ")"@,
    }
}

fn variant_with_text(name: &str, s: &String) -> (r: Vec<char>)
    ensures
        r@ == name@ + "("@ + quoted(s@) + ")"@,
{
    let mut r = chars_of(name);
    let mut open = chars_of("(");
    let mut text = debug_quoted(s);
    let mut close = chars_of(")");
    r.append(&mut open);
    r.append(&mut text);
    r.append(&mut close);
    r
}

impl ParseErrorOf<String> {
    /// The text of the error, as `{:?}` shows it.
    pub fn to_debug_string(&self) -> (r: String)
        ensures
            r@ == error_text(error_view(*self)),
    {
        let cs = match self {
            ParseErrorOf::UnknownField(s) => variant_with_text("UnknownField", s),
            ParseErrorOf::InternalError => chars_of("InternalError"),
            ParseErrorOf::ValueFormatError(s) => variant_with_text("ValueFormatError", s),
            ParseErrorOf::UnknownOperation(s) => variant_with_text("UnknownOperation", s),
            ParseErrorOf::RightBracketNotFound(s) => variant_with_text("RightBracketNotFound", s),
        };
        proof {
            reveal_strlit("UnknownField");
            reveal_strlit("UnknownField(");
            reveal_strlit("ValueFormatError");
            reveal_strlit("ValueFormatError(");
            reveal_strlit("UnknownOperation");
            reveal_strlit("UnknownOperation(");
            reveal_strlit("RightBracketNotFound");
            reveal_strlit("RightBracketNotFound(");
            reveal_strlit("(");
        }
        string_of(&cs)
    }
}

} // verus!
