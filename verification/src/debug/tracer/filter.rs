//! Filtering of traced network commands by rules.
use vstd::prelude::*;

use crate::debug::tracer::traced::{command_direction, command_field_id, command_object_id, lemma_command_view_keys};
use crate::debug::tracer::traced::{TracedCommand, TracedCommandOf};
use crate::types::{FieldId, GameObjectOwner, GameObjectTemplateId, RoomMemberId};

verus! {

/// Direction of a command.
#[derive(Clone, Copy, Debug, PartialEq, Eq, Structural)]
pub enum RuleCommandDirection {
    S2C,
    C2S,
}

/// Filtering rules for network commands.
#[derive(Debug, PartialEq, Eq)]
pub enum Rule {
    OrRule(Vec<Rule>),
    AndRule(Vec<Rule>),
    Direction(RuleCommandDirection),
    Not(Box<Rule>),
    User(RoomMemberId),
    Template(GameObjectTemplateId),
    Field(FieldId),
    RoomOwner,
    UserOwner(RoomMemberId),
    ObjectId(u32),
    True,
}

/// Mathematical model of a [`Rule`].
pub enum SpecRule {
    OrRule(Seq<SpecRule>),
    AndRule(Seq<SpecRule>),
    Direction(RuleCommandDirection),
    Not(Box<SpecRule>),
    User(RoomMemberId),
    Template(GameObjectTemplateId),
    Field(FieldId),
    RoomOwner,
    UserOwner(RoomMemberId),
    ObjectId(u32),
    True,
}

pub open spec fn rules_view(rules: Seq<Rule>) -> Seq<SpecRule>
    decreases rules,
{
    if rules.len() == 0 {
        Seq::empty()
    } else {
        rules_view(rules.drop_last()).push(rule_view(rules.last()))
    }
}

pub open spec fn rule_view(rule: Rule) -> SpecRule
    decreases rule,
{
    match rule {
        Rule::OrRule(rules) => SpecRule::OrRule(rules_view(rules@)),
        Rule::AndRule(rules) => SpecRule::AndRule(rules_view(rules@)),
        Rule::Direction(d) => SpecRule::Direction(d),
        Rule::Not(r) => SpecRule::Not(Box::new(rule_view(*r))),
        Rule::User(u) => SpecRule::User(u),
        Rule::Template(t) => SpecRule::Template(t),
        Rule::Field(f) => SpecRule::Field(f),
        Rule::RoomOwner => SpecRule::RoomOwner,
        Rule::UserOwner(u) => SpecRule::UserOwner(u),
        Rule::ObjectId(id) => SpecRule::ObjectId(id),
        Rule::True => SpecRule::True,
    }
}

} // verus!

verus! {

broadcast use vstd::std_specs::vec::group_vec_axioms;

/// Whether a traced command passes a rule.
pub open spec fn rule_matches<B>(rule: SpecRule, command: TracedCommandOf<B>) -> bool
    decreases rule,
{
    match rule {
        SpecRule::Direction(d) => d == command_direction(command.network_command),
        SpecRule::Not(r) => !rule_matches(*r, command),
        SpecRule::User(u) => u == command.user,
        SpecRule::Template(t) => command.template == Some(t),
        SpecRule::Field(f) => command_field_id(command.network_command) == Some(f),
        SpecRule::OrRule(rules) => any_rule_matches(rules, command),
        SpecRule::AndRule(rules) => all_rules_match(rules, command),
        SpecRule::RoomOwner => match command_object_id(command.network_command) {
            Some(id) => id.owner == GameObjectOwner::Room,
            None => false,
        },
        SpecRule::UserOwner(u) => match command_object_id(command.network_command) {
            Some(id) => id.owner == GameObjectOwner::User(u),
            None => false,
        },
        SpecRule::ObjectId(oid) => match command_object_id(command.network_command) {
            Some(id) => id.id == oid,
            None => false,
        },
        SpecRule::True => true,
    }
}

/// At least one of the rules passes.
pub open spec fn any_rule_matches<B>(rules: Seq<SpecRule>, command: TracedCommandOf<B>) -> bool
    decreases rules,
{
    if rules.len() == 0 {
        false
    } else {
        any_rule_matches(rules.drop_last(), command) || rule_matches(rules.last(), command)
    }
}

/// Every rule passes.
pub open spec fn all_rules_match<B>(rules: Seq<SpecRule>, command: TracedCommandOf<B>) -> bool
    decreases rules,
{
    if rules.len() == 0 {
        true
    } else {
        all_rules_match(rules.drop_last(), command) && rule_matches(rules.last(), command)
    }
}

/// Filter of network commands.
#[derive(Debug)]
pub struct Filter {
    pub rule: Rule,
}

impl Filter {
    pub fn new(rule: Rule) -> (r: Filter)
        ensures
            r.rule == rule,
    {
        Filter { rule }
    }

    pub fn filter(&self, command: &TracedCommand) -> (r: bool)
        ensures
            r == rule_matches(rule_view(self.rule), *command),
    {
        self.rule.filter(command)
    }
}

impl Rule {
    pub fn filter(&self, command: &TracedCommand) -> (r: bool)
        ensures
            r == rule_matches(rule_view(*self), *command),
        decreases *self,
    {
        match self {
            Rule::Direction(direction) => *direction == command.network_command.get_direction(),
            Rule::Not(rule) => !rule.filter(command),
            Rule::User(rule_user) => *rule_user == command.user,
            Rule::Template(rule_template) => match &command.template {
                None => false,
                Some(template) => *rule_template == *template,
            },
            Rule::Field(rule_field) => match command.network_command.get_field_id() {
                None => false,
                Some(field_id) => field_id == *rule_field,
            },
            Rule::OrRule(rules) => {
                let mut i: usize = 0;
                let mut found = false;
                while i < rules.len()
                    invariant
                        i <= rules.len(),
                        found == any_rule_matches(rules_view(rules@.take(i as int)), *command),
                        *self == Rule::OrRule(*rules),
                    decreases rules.len() - i,
                {
                    proof {
                        assert(rules@.take(i + 1).drop_last() == rules@.take(i as int));
                        assert(rules@.take(i + 1).last() == rules@[i as int]);
                        assert(decreases_to!(*rules => rules[i as int]));
                        assert(decreases_to!(*self => (*self)->OrRule_0));
                        assert(decreases_to!(*self => rules[i as int]));
                        let v = rules_view(rules@.take(i as int));
                        let x = rule_view(rules@[i as int]);
                        assert(rules_view(rules@.take(i + 1)) == v.push(x));
                        assert(v.push(x).drop_last() == v);
                    }
                    let r = rules[i].filter(command);
                    found = found || r;
                    i = i + 1;
                }
                proof {
                    assert(rules@.take(rules.len() as int) == rules@);
                }
                found
            },
            Rule::AndRule(rules) => {
                let mut i: usize = 0;
                let mut all = true;
                while i < rules.len()
                    invariant
                        i <= rules.len(),
                        all == all_rules_match(rules_view(rules@.take(i as int)), *command),
                        *self == Rule::AndRule(*rules),
                    decreases rules.len() - i,
                {
                    proof {
                        assert(rules@.take(i + 1).drop_last() == rules@.take(i as int));
                        assert(rules@.take(i + 1).last() == rules@[i as int]);
                        assert(decreases_to!(*rules => rules[i as int]));
                        assert(decreases_to!(*self => (*self)->AndRule_0));
                        assert(decreases_to!(*self => rules[i as int]));
                        let v = rules_view(rules@.take(i as int));
                        let x = rule_view(rules@[i as int]);
                        assert(rules_view(rules@.take(i + 1)) == v.push(x));
                        assert(v.push(x).drop_last() == v);
                    }
                    let r = rules[i].filter(command);
                    all = all && r;
                    i = i + 1;
                }
                proof {
                    assert(rules@.take(rules.len() as int) == rules@);
                }
                all
            },
            Rule::RoomOwner => match command.network_command.get_object_id() {
                None => false,
                Some(object_id) => match object_id.owner {
                    GameObjectOwner::Room => true,
                    GameObjectOwner::User(_) => false,
                },
            },
            Rule::UserOwner(user) => match command.network_command.get_object_id() {
                None => false,
                Some(object_id) => match object_id.owner {
                    GameObjectOwner::Room => false,
                    GameObjectOwner::User(object_user) => object_user == *user,
                },
            },
            Rule::ObjectId(object_id) => match command.network_command.get_object_id() {
                None => false,
                Some(game_object_id) => game_object_id.id == *object_id,
            },
            Rule::True => true,
        }
    }
}

} // verus!

verus! {

/// The model of a sequence of rules is the model of each rule.
pub proof fn lemma_rules_view_map(s: Seq<Rule>)
    ensures
        rules_view(s) == s.map_values(|r: Rule| rule_view(r)),
    decreases s.len(),
{
    if s.len() > 0 {
        lemma_rules_view_map(s.drop_last());
        assert(s.map_values(|r: Rule| rule_view(r)) == s.drop_last().map_values(|r: Rule| rule_view(r)).push(
            rule_view(s.last()),
        ));
    } else {
        assert(s.map_values(|r: Rule| rule_view(r)) == Seq::<SpecRule>::empty());
    }
}

} // verus!

verus! {

/// A rule passes a command exactly when it passes the command's model.
pub proof fn lemma_rule_matches_view(rule: SpecRule, c: TracedCommand)
    ensures
        rule_matches(rule, c) == rule_matches(rule, c@),
    decreases rule,
{
    lemma_command_view_keys(c.network_command);
    match rule {
        SpecRule::Not(r) => lemma_rule_matches_view(*r, c),
        SpecRule::OrRule(rules) => lemma_rules_match_view(rules, c),
        SpecRule::AndRule(rules) => lemma_rules_match_view(rules, c),
        _ => {},
    }
}

proof fn lemma_rules_match_view(rules: Seq<SpecRule>, c: TracedCommand)
    ensures
        any_rule_matches(rules, c) == any_rule_matches(rules, c@),
        all_rules_match(rules, c) == all_rules_match(rules, c@),
    decreases rules,
{
    if rules.len() > 0 {
        assert(decreases_to!(rules => rules[rules.len() - 1]));
        lemma_rules_match_view(rules.drop_last(), c);
        lemma_rule_matches_view(rules.last(), c);
    }
}

/// Each rule on a property of a command tests that property: an owner rule
/// passes a command exactly when the command names an object of that owner (a
/// member's object fails the rule for any other member, and the room's object
/// fails every member's rule); the object rule, the user rule, the template rule
/// and the field rule likewise compare the command's object number, member,
/// template and field with theirs. A command that names no object passes no
/// owner or object rule.
pub proof fn law_property_rules_test_their_property<B>(c: TracedCommandOf<B>, u: RoomMemberId, oid: u32, t: GameObjectTemplateId, f: FieldId)
    ensures
        rule_matches(SpecRule::UserOwner(u), c) <==> (command_object_id(c.network_command) matches Some(id) && id.owner
            == GameObjectOwner::User(u)),
        rule_matches(SpecRule::RoomOwner, c) <==> (command_object_id(c.network_command) matches Some(id) && id.owner
            == GameObjectOwner::Room),
        rule_matches(SpecRule::ObjectId(oid), c) <==> (command_object_id(c.network_command) matches Some(id) && id.id
            == oid),
        command_object_id(c.network_command) matches Some(id) && id.owner != GameObjectOwner::User(u) ==> !rule_matches(
            SpecRule::UserOwner(u),
            c,
        ),
        rule_matches(SpecRule::User(u), c) <==> c.user == u,
        rule_matches(SpecRule::Template(t), c) <==> c.template == Some(t),
        rule_matches(SpecRule::Field(f), c) <==> command_field_id(c.network_command) == Some(f),
        rule_matches(SpecRule::Not(Box::new(SpecRule::UserOwner(u))), c) <==> !rule_matches(SpecRule::UserOwner(u), c),
{
}

} // verus!
