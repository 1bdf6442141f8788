//! Collected commands as the admin service shows them: texts for the
//! direction, the command, the object and the values.
use vstd::prelude::*;

use crate::commands::{C2SCommandOf, S2CCommandOf};
use crate::debug::tracer::parser::chars_of;
use crate::debug::tracer::parser::string_of;
use crate::debug::tracer::traced::{command_field_id, command_field_type, command_object_id, TracedCommand, UniDirectionCommandOf};
use crate::types::{FieldType, GameObjectId, GameObjectOwner};

verus! {

broadcast use vstd::std_specs::vec::group_vec_axioms;

/// The character of a decimal digit.
pub open spec fn digit_char(d: nat) -> char {
    if d == 0 {
        '0'
    } else if d == 1 {
        '1'
    } else if d == 2 {
        '2'
    } else if d == 3 {
        '3'
    } else if d == 4 {
        '4'
    } else if d == 5 {
        '5'
    } else if d == 6 {
        '6'
    } else if d == 7 {
        '7'
    } else if d == 8 {
        '8'
    } else {
        '9'
    }
}

/// The decimal digits of a number, without leading zeros.
pub open spec fn decimal(n: nat) -> Seq<char>
    decreases n,
{
    if n < 10 {
        seq![digit_char(n)]
    } else {
        decimal(n / 10).push(digit_char(n % 10))
    }
}

/// A signed number in decimal, with a minus sign when negative.
pub open spec fn signed_decimal(v: int) -> Seq<char> {
    if v < 0 {
        seq!['-'] + decimal((-v) as nat)
    } else {
        decimal(v as nat)
    }
}

/// The bytes in decimal, separated by a comma and a space.
pub open spec fn bytes_items(b: Seq<u8>) -> Seq<char>
    decreases b.len(),
{
    if b.len() == 0 {
        Seq::empty()
    } else if b.len() == 1 {
        decimal(b[0] as nat)
    } else {
        bytes_items(b.drop_last()) + seq![',', ' '] + decimal(b.last() as nat)
    }
}

/// Bytes as a list in square brackets, as `{:?}` writes them.
pub open spec fn bytes_text(b: Seq<u8>) -> Seq<char> {
    seq!['['] + bytes_items(b) + seq![']']
}

/// An optional number as `{:?}` writes it.
pub open spec fn option_text(o: Option<i64>) -> Seq<char> {
    match o {
        Some(v) => "Some("@ + signed_decimal(v as int) + ")"@,
        None => "None"@,
    }
}

/// A field type as `{:?}` writes it.
pub open spec fn field_type_text(t: FieldType) -> Seq<char> {
    match t {
        FieldType::Long => "Long"@,
        FieldType::Double => "Double"@,
        FieldType::Structure => "Structure"@,
        FieldType::Event => "Event"@,
    }
}

/// The object of a command: `none`, `root(id)` or `user(member,id)`.
pub open spec fn object_id_text(id: Option<GameObjectId>) -> Seq<char> {
    match id {
        None => "none"@,
        Some(id) => match id.owner {
            GameObjectOwner::Room => "root("@ + decimal(id.id as nat) + ")"@,
            GameObjectOwner::User(u) => "user("@ + decimal(u as nat) + ","@ + decimal(id.id as nat) + ")"@,
        },
    }
}

/// The name of a command: the name of its variant.
pub open spec fn command_name<B>(c: UniDirectionCommandOf<B>) -> Seq<char> {
    match c {
        UniDirectionCommandOf::C2S(c) => match c {
            C2SCommandOf::Create(_) => "Create"@,
            C2SCommandOf::Created(_) => "Created"@,
            C2SCommandOf::SetLong(_) => "SetLong"@,
            C2SCommandOf::IncrementLongValue(_) => "IncrementLongValue"@,
            C2SCommandOf::CompareAndSetLong(_) => "CompareAndSetLong"@,
            C2SCommandOf::SetDouble(_) => "SetDouble"@,
            C2SCommandOf::IncrementDouble(_) => "IncrementDouble"@,
            C2SCommandOf::SetStructure(_) => "SetStructure"@,
            C2SCommandOf::CompareAndSetStructure(_) => "CompareAndSetStructure"@,
            C2SCommandOf::Event(_) => "Event"@,
            C2SCommandOf::TargetEvent(_) => "TargetEvent"@,
            C2SCommandOf::Delete(_) => "Delete"@,
            C2SCommandOf::AttachToRoom => "AttachToRoom"@,
            C2SCommandOf::DetachFromRoom => "DetachFromRoom"@,
            C2SCommandOf::DeleteField(_) => "DeleteField"@,
        },
        UniDirectionCommandOf::S2C(c) => match c {
            S2CCommandOf::Create(_) => "Create"@,
            S2CCommandOf::Created(_) => "Created"@,
            S2CCommandOf::SetLong(_) => "SetLong"@,
            S2CCommandOf::SetDouble(_) => "SetDouble"@,
            S2CCommandOf::SetStructure(_) => "SetStructure"@,
            S2CCommandOf::Event(_) => "Event"@,
            S2CCommandOf::Delete(_) => "Delete"@,
            S2CCommandOf::DeleteField(_) => "DeleteField"@,
        },
    }
}

/// The value of a command as the admin service shows it: a text, or a double
/// (by its bit pattern) that is shown as `{:?}` writes the number.
#[derive(Clone, Debug, PartialEq, Eq)]
pub enum ValueTextOf<S> {
    Text(S),
    Double(u64),
}

pub type ValueText = ValueTextOf<String>;

pub type SpecValueText = ValueTextOf<Seq<char>>;

impl View for ValueTextOf<String> {
    type V = SpecValueText;

    open spec fn view(&self) -> SpecValueText {
        match self {
            ValueTextOf::Text(s) => ValueTextOf::Text(s@),
            ValueTextOf::Double(b) => ValueTextOf::Double(*b),
        }
    }
}

/// The text of the creation of an object: its groups and its template.
pub open spec fn create_text(groups: u64, template: u16) -> Seq<char> {
    "access("@ + decimal(groups as nat) + "), template("@ + decimal(template as nat) + ") "@
}

/// The value of a command as the admin service shows it.
pub open spec fn value_text(c: UniDirectionCommandOf<Seq<u8>>) -> SpecValueText {
    match c {
        UniDirectionCommandOf::C2S(c) => match c {
            C2SCommandOf::Create(x) => ValueTextOf::Text(create_text(x.access_groups.0, x.template)),
            C2SCommandOf::SetLong(x) => ValueTextOf::Text(signed_decimal(x.value as int)),
            C2SCommandOf::IncrementLongValue(x) => ValueTextOf::Text(signed_decimal(x.increment as int)),
            C2SCommandOf::CompareAndSetLong(x) => ValueTextOf::Text(
                "new = "@ + signed_decimal(x.new as int) + ", current = "@ + signed_decimal(x.current as int) + ", reset = "@
                    + option_text(x.reset),
            ),
            C2SCommandOf::SetDouble(x) => ValueTextOf::Double(x.value),
            C2SCommandOf::IncrementDouble(x) => ValueTextOf::Double(x.increment),
            C2SCommandOf::SetStructure(x) => ValueTextOf::Text(bytes_text(x.structure)),
            C2SCommandOf::CompareAndSetStructure(x) => ValueTextOf::Text(
                "new = "@ + bytes_text(x.new) + ", current = "@ + bytes_text(x.current) + ", reset = "@ + match x.reset {
                    Some(b) => "Some("@ + bytes_text(b) + ")"@,
                    None => "None"@,
                },
            ),
            C2SCommandOf::Event(x) => ValueTextOf::Text(bytes_text(x.event)),
            C2SCommandOf::TargetEvent(x) => ValueTextOf::Text(
                "target_user = "@ + decimal(x.target as nat) + ", value = "@ + bytes_text(x.event.event),
            ),
            C2SCommandOf::DeleteField(x) => ValueTextOf::Text("field_type = "@ + field_type_text(x.field_type)),
            _ => ValueTextOf::Text(Seq::empty()),
        },
        UniDirectionCommandOf::S2C(c) => match c {
            S2CCommandOf::Create(x) => ValueTextOf::Text(create_text(x.access_groups.0, x.template)),
            S2CCommandOf::SetLong(x) => ValueTextOf::Text(signed_decimal(x.value as int)),
            S2CCommandOf::SetDouble(x) => ValueTextOf::Double(x.value),
            S2CCommandOf::SetStructure(x) => ValueTextOf::Text(bytes_text(x.structure)),
            S2CCommandOf::Event(x) => ValueTextOf::Text(bytes_text(x.event)),
            _ => ValueTextOf::Text(Seq::empty()),
        },
    }
}

/// The direction of a command: `c2s` or `s2c`.
pub open spec fn direction_text<B>(c: UniDirectionCommandOf<B>) -> Seq<char> {
    match c {
        UniDirectionCommandOf::C2S(_) => "c2s"@,
        UniDirectionCommandOf::S2C(_) => "s2c"@,
    }
}

fn digit(d: u64) -> (c: char)
    requires
        d < 10,
    ensures
        c == digit_char(d as nat),
{
    match d {
        0 => '0',
        1 => '1',
        2 => '2',
        3 => '3',
        4 => '4',
        5 => '5',
        6 => '6',
        7 => '7',
        8 => '8',
        _ => '9',
    }
}

fn push_text(v: &mut Vec<char>, s: &str)
    ensures
        final(v)@ == old(v)@ + s@,
{
    let mut cs = chars_of(s);
    v.append(&mut cs);
}

fn push_decimal(v: &mut Vec<char>, n: u64)
    ensures
        final(v)@ == old(v)@ + decimal(n as nat),
    decreases n,
{
    let ghost start = v@;
    if n >= 10 {
        push_decimal(v, n / 10);
        v.push(digit(n % 10));
        assert(v@ == start + decimal((n / 10) as nat).push(digit_char((n % 10) as nat)));
    } else {
        v.push(digit(n));
        assert(v@ == start + seq![digit_char(n as nat)]);
    }
}

fn push_signed(v: &mut Vec<char>, x: i64)
    ensures
        final(v)@ == old(v)@ + signed_decimal(x as int),
{
    let ghost start = v@;
    if x < 0 {
        v.push('-');
        let m: u64 = (0i128 - x as i128) as u64;
        push_decimal(v, m);
        assert(v@ == start + (seq!['-'] + decimal((-(x as int)) as nat)));
    } else {
        push_decimal(v, x as u64);
    }
}

fn push_bytes(v: &mut Vec<char>, b: &Vec<u8>)
    ensures
        final(v)@ == old(v)@ + bytes_text(b@),
{
    let ghost start = v@;
    v.push('[');
    let mut i: usize = 0;
    assert(b@.take(0) == Seq::<u8>::empty());
    while i < b.len()
        invariant
            i <= b@.len(),
            v@ == start + seq!['['] + bytes_items(b@.take(i as int)),
        decreases b@.len() - i,
    {
        let ghost before = v@;
        assert(b@.take(i + 1).drop_last() == b@.take(i as int));
        assert(b@.take(i + 1).last() == b@[i as int]);
        if i > 0 {
            v.push(',');
            v.push(' ');
        }
        push_decimal(v, b[i] as u64);
        assert(v@ == start + seq!['['] + bytes_items(b@.take(i + 1)));
        i = i + 1;
    }
    assert(b@.take(b@.len() as int) == b@);
    v.push(']');
    assert(v@ == start + bytes_text(b@));
}

fn push_option(v: &mut Vec<char>, o: Option<i64>)
    ensures
        final(v)@ == old(v)@ + option_text(o),
{
    let ghost start = v@;
    match o {
        Some(x) => {
            push_text(v, "Some(");
            push_signed(v, x);
            push_text(v, ")");
            assert(v@ == start + option_text(o));
        },
        None => push_text(v, "None"),
    }
}

fn push_field_type(v: &mut Vec<char>, t: FieldType)
    ensures
        final(v)@ == old(v)@ + field_type_text(t),
{
    match t {
        FieldType::Long => push_text(v, "Long"),
        FieldType::Double => push_text(v, "Double"),
        FieldType::Structure => push_text(v, "Structure"),
        FieldType::Event => push_text(v, "Event"),
    }
}

fn push_create(v: &mut Vec<char>, groups: u64, template: u16)
    ensures
        final(v)@ == old(v)@ + create_text(groups, template),
{
    let ghost start = v@;
    push_text(v, "access(");
    push_decimal(v, groups);
    push_text(v, "), template(");
    push_decimal(v, template as u64);
    push_text(v, ") ");
    assert(v@ == start + create_text(groups, template));
}

fn text(v: Vec<char>) -> (r: ValueText)
    ensures
        r@ == ValueTextOf::<Seq<char>>::Text(v@),
{
    ValueTextOf::Text(string_of(&v))
}

/// The value of a command as the admin service shows it.
pub fn get_string_value(command: &TracedCommand) -> (r: ValueText)
    ensures
        r@ == value_text(command.network_command@),
{
    let mut v: Vec<char> = Vec::new();
    assert(forall|t: Seq<char>| #[trigger] (Seq::<char>::empty() + t) =~= t);
    match &command.network_command {
        UniDirectionCommandOf::C2S(c) => match c {
            C2SCommandOf::Create(x) => {
                push_create(&mut v, x.access_groups.0, x.template);
                text(v)
            },
            C2SCommandOf::SetLong(x) => {
                push_signed(&mut v, x.value);
                text(v)
            },
            C2SCommandOf::IncrementLongValue(x) => {
                push_signed(&mut v, x.increment);
                text(v)
            },
            C2SCommandOf::CompareAndSetLong(x) => {
                push_text(&mut v, "new = ");
                push_signed(&mut v, x.new);
                push_text(&mut v, ", current = ");
                push_signed(&mut v, x.current);
                push_text(&mut v, ", reset = ");
                push_option(&mut v, x.reset);
                assert(v@ =~= "new = "@ + signed_decimal(x.new as int) + ", current = "@ + signed_decimal(x.current as int)
                    + ", reset = "@ + option_text(x.reset));
                text(v)
            },
            C2SCommandOf::SetDouble(x) => ValueTextOf::Double(x.value),
            C2SCommandOf::IncrementDouble(x) => ValueTextOf::Double(x.increment),
            C2SCommandOf::SetStructure(x) => {
                push_bytes(&mut v, &x.structure);
                text(v)
            },
            C2SCommandOf::CompareAndSetStructure(x) => {
                push_text(&mut v, "new = ");
                push_bytes(&mut v, &x.new);
                push_text(&mut v, ", current = ");
                push_bytes(&mut v, &x.current);
                push_text(&mut v, ", reset = ");
                match &x.reset {
                    Some(b) => {
                        push_text(&mut v, "Some(");
                        push_bytes(&mut v, b);
                        push_text(&mut v, ")");
                    },
                    None => push_text(&mut v, "None"),
                }
                assert(v@ =~= "new = "@ + bytes_text(x.new@) + ", current = "@ + bytes_text(x.current@) + ", reset = "@ + match x.reset {
                    Some(b) => "Some("@ + bytes_text(b@) + ")"@,
                    None => "None"@,
                });
                text(v)
            },
            C2SCommandOf::Event(x) => {
                push_bytes(&mut v, &x.event);
                text(v)
            },
            C2SCommandOf::TargetEvent(x) => {
                push_text(&mut v, "target_user = ");
                push_decimal(&mut v, x.target as u64);
                push_text(&mut v, ", value = ");
                push_bytes(&mut v, &x.event.event);
                assert(v@ =~= "target_user = "@ + decimal(x.target as nat) + ", value = "@ + bytes_text(x.event.event@));
                text(v)
            },
            C2SCommandOf::DeleteField(x) => {
                push_text(&mut v, "field_type = ");
                push_field_type(&mut v, x.field_type);
                assert(v@ =~= "field_type = "@ + field_type_text(x.field_type));
                text(v)
            },
            _ => text(v),
        },
        UniDirectionCommandOf::S2C(c) => match c {
            S2CCommandOf::Create(x) => {
                push_create(&mut v, x.access_groups.0, x.template);
                text(v)
            },
            S2CCommandOf::SetLong(x) => {
                push_signed(&mut v, x.value);
                text(v)
            },
            S2CCommandOf::SetDouble(x) => ValueTextOf::Double(x.value),
            S2CCommandOf::SetStructure(x) => {
                push_bytes(&mut v, &x.structure);
                text(v)
            },
            S2CCommandOf::Event(x) => {
                push_bytes(&mut v, &x.event);
                text(v)
            },
            _ => text(v),
        },
    }
}

/// A collected command as the admin service shows it.
#[derive(Debug)]
pub struct AdminCommand {
    /// Nanoseconds since the Unix epoch.
    pub time: u64,
    pub direction: String,
    pub command: String,
    pub object_id: String,
    pub user_id: u32,
    pub template: Option<u32>,
    pub value: ValueText,
    pub field_id: Option<u32>,
    pub field_type: Option<FieldType>,
}

impl AdminCommand {
    /// The collected command as the admin service shows it.
    pub fn from(command: &TracedCommand) -> (r: AdminCommand)
        ensures
            r.time == command.time,
            r.direction@ == direction_text(command.network_command),
            r.command@ == command_name(command.network_command),
            r.object_id@ == object_id_text(command_object_id(command.network_command)),
            r.user_id == command.user as u32,
            r.template == match command.template {
                Some(t) => Some(t as u32),
                None => None::<u32>,
            },
            r.value@ == value_text(command.network_command@),
            r.field_id == match command_field_id(command.network_command) {
                Some(f) => Some(f as u32),
                None => None::<u32>,
            },
            r.field_type == command_field_type(command.network_command),
    {
        let direction = match &command.network_command {
            UniDirectionCommandOf::C2S(_) => "c2s".to_owned(),
            UniDirectionCommandOf::S2C(_) => "s2c".to_owned(),
        };
        let mut object_id: Vec<char> = Vec::new();
        match command.network_command.get_object_id() {
            None => push_text(&mut object_id, "none"),
            Some(id) => match id.owner {
                GameObjectOwner::Room => {
                    push_text(&mut object_id, "root(");
                    push_decimal(&mut object_id, id.id as u64);
                    push_text(&mut object_id, ")");
                },
                GameObjectOwner::User(u) => {
                    push_text(&mut object_id, "user(");
                    push_decimal(&mut object_id, u as u64);
                    push_text(&mut object_id, ",");
                    push_decimal(&mut object_id, id.id as u64);
                    push_text(&mut object_id, ")");
                },
            },
        }
        let template = match command.template {
            Some(t) => Some(t as u32),
            None => None,
        };
        let field_id = match command.network_command.get_field_id() {
            Some(f) => Some(f as u32),
            None => None,
        };
        AdminCommand {
            time: command.time,
            direction,
            command: command_name_of(&command.network_command),
            object_id: string_of(&object_id),
            user_id: command.user as u32,
            template,
            value: get_string_value(command),
            field_id,
            field_type: command.network_command.get_field_type(),
        }
    }
}

fn command_name_of(c: &UniDirectionCommandOf<Vec<u8>>) -> (r: String)
    ensures
        r@ == command_name(*c),
{
    match c {
        UniDirectionCommandOf::C2S(c) => match c {
            C2SCommandOf::Create(_) => "Create".to_owned(),
            C2SCommandOf::Created(_) => "Created".to_owned(),
            C2SCommandOf::SetLong(_) => "SetLong".to_owned(),
            C2SCommandOf::IncrementLongValue(_) => "IncrementLongValue".to_owned(),
            C2SCommandOf::CompareAndSetLong(_) => "CompareAndSetLong".to_owned(),
            C2SCommandOf::SetDouble(_) => "SetDouble".to_owned(),
            C2SCommandOf::IncrementDouble(_) => "IncrementDouble".to_owned(),
            C2SCommandOf::SetStructure(_) => "SetStructure".to_owned(),
            C2SCommandOf::CompareAndSetStructure(_) => "CompareAndSetStructure".to_owned(),
            C2SCommandOf::Event(_) => "Event".to_owned(),
            C2SCommandOf::TargetEvent(_) => "TargetEvent".to_owned(),
            C2SCommandOf::Delete(_) => "Delete".to_owned(),
            C2SCommandOf::AttachToRoom => "AttachToRoom".to_owned(),
            C2SCommandOf::DetachFromRoom => "DetachFromRoom".to_owned(),
            C2SCommandOf::DeleteField(_) => "DeleteField".to_owned(),
        },
        UniDirectionCommandOf::S2C(c) => match c {
            S2CCommandOf::Create(_) => "Create".to_owned(),
            S2CCommandOf::Created(_) => "Created".to_owned(),
            S2CCommandOf::SetLong(_) => "SetLong".to_owned(),
            S2CCommandOf::SetDouble(_) => "SetDouble".to_owned(),
            S2CCommandOf::SetStructure(_) => "SetStructure".to_owned(),
            S2CCommandOf::Event(_) => "Event".to_owned(),
            S2CCommandOf::Delete(_) => "Delete".to_owned(),
            S2CCommandOf::DeleteField(_) => "DeleteField".to_owned(),
        },
    }
}

} // verus!
