//! The message on the wire: one flat document per record.
//!
//! A document is an opening brace, the members with commas between them,
//! and a closing brace. A member is a name in double quotes, a colon, and a
//! decimal number. Nothing else is written: no space, no line break.

use crate::decimal::{
    fixed_text, is_digit, lemma_fixed_text_chars, lemma_read_fixed_text,
    lemma_read_natural_text, natural_text, read_fixed, read_natural, write_fixed, write_natural,
};
use crate::record::{Record, RecordData};
use vstd::prelude::*;
use vstd::string::StringExecFns;

verus! {

/// The text of a record's document: the five fields under their names, in
/// this order, bearing and range written exactly and the three others as
/// whole numbers.
pub open spec fn document_text(record: RecordData) -> Seq<char> {
    "{\"bearing\":"@ + fixed_text(record.bearing) + ",\"range\":"@ + fixed_text(record.range)
        + ",\"stn\":"@ + natural_text(record.station_id) + ",\"category\":"@ + natural_text(
        record.category,
    ) + ",\"general_type\":"@ + natural_text(record.general_type) + "}"@
}

/// Writes a record as one document.
///
/// Every record has a document, so this cannot fail.
pub fn serialize(record: &Record) -> (text: String)
    ensures
        text@ == document_text(record@),
{
    let mut text = String::new();
    text.append("{\"bearing\":");
    write_fixed(&mut text, record.bearing());
    text.append(",\"range\":");
    write_fixed(&mut text, record.range());
    text.append(",\"stn\":");
    write_natural(&mut text, record.station_id() as u128);
    text.append(",\"category\":");
    write_natural(&mut text, record.category() as u128);
    text.append(",\"general_type\":");
    write_natural(&mut text, record.general_type() as u128);
    text.append("}");
    text
}

/// One member of a document as it stands in the text: its name, and its
/// value still unread.
pub struct Member {
    pub name: Seq<char>,
    pub value: Seq<char>,
}

/// Whether a character can stand in a number.
pub open spec fn is_number_char(c: char) -> bool {
    is_digit(c) || c == '.'
}

/// How many characters stand in front of the first double quote.
pub open spec fn name_run(text: Seq<char>) -> nat
    decreases text.len(),
{
    if text.len() > 0 && text[0] != '"' {
        1 + name_run(text.skip(1))
    } else {
        0
    }
}

/// How many characters of a number stand at the front of a text.
pub open spec fn number_run(text: Seq<char>) -> nat
    decreases text.len(),
{
    if text.len() > 0 && is_number_char(text[0]) {
        1 + number_run(text.skip(1))
    } else {
        0
    }
}

/// Reads the member at the front of a text: a quoted name, a colon, and the
/// longest run of number characters, which must not be empty. Gives the
/// member and how many characters it took.
pub open spec fn read_member(text: Seq<char>) -> Option<(Member, nat)> {
    let name_len = name_run(text.skip(1)) as int;
    let value_at = name_len + 3;
    let value_len = number_run(text.skip(value_at)) as int;
    if text.len() > value_at && text[0] == '"' && text[name_len + 1] == '"' && text[name_len + 2]
        == ':' && value_len > 0 {
        Some(
            (
                Member {
                    name: text.subrange(1, name_len + 1),
                    value: text.subrange(value_at, value_at + value_len),
                },
                (value_at + value_len) as nat,
            ),
        )
    } else {
        None
    }
}

/// Reads one or more members with a comma between each two, up to the end
/// of the text.
pub open spec fn read_members(text: Seq<char>) -> Option<Seq<Member>>
    decreases text.len(),
{
    match read_member(text) {
        None => None,
        Some((member, used)) => if used >= text.len() {
            Some(seq![member])
        } else if text[used as int] == ',' {
            match read_members(text.skip(used as int + 1)) {
                None => None,
                Some(others) => Some(seq![member] + others),
            }
        } else {
            None
        },
    }
}

/// Reads a document: the members between a pair of braces, in the order in
/// which they stand.
pub open spec fn read_object(text: Seq<char>) -> Option<Seq<Member>> {
    if text.len() >= 2 && text[0] == '{' && text.last() == '}' {
        let inside = text.subrange(1, text.len() - 1);
        if inside.len() == 0 {
            Some(Seq::empty())
        } else {
            read_members(inside)
        }
    } else {
        None
    }
}

/// The value of the first member of that name.
pub open spec fn lookup(members: Seq<Member>, name: Seq<char>) -> Option<Seq<char>>
    decreases members.len(),
{
    if members.len() == 0 {
        None
    } else if members[0].name == name {
        Some(members[0].value)
    } else {
        lookup(members.skip(1), name)
    }
}

/// Reads a document back into a record.
///
/// The document must hold five members and each of the five names among
/// them, in any order, so it holds these five fields and no other. Bearing
/// and range must be decimal numbers that a record can hold exactly, the
/// three others whole numbers.
pub open spec fn decode(text: Seq<char>) -> Option<RecordData> {
    match read_object(text) {
        None => None,
        Some(members) => match (
            lookup(members, "bearing"@),
            lookup(members, "range"@),
            lookup(members, "stn"@),
            lookup(members, "category"@),
            lookup(members, "general_type"@),
        ) {
            (Some(bearing), Some(range), Some(station_id), Some(category), Some(general_type)) => {
                match (
                    read_fixed(bearing),
                    read_fixed(range),
                    read_natural(station_id),
                    read_natural(category),
                    read_natural(general_type),
                ) {
                    (
                        Some(bearing),
                        Some(range),
                        Some(station_id),
                        Some(category),
                        Some(general_type),
                    ) => if members.len() == 5 {
                        Some(RecordData { bearing, range, station_id, category, general_type })
                    } else {
                        None
                    },
                    _ => None,
                }
            },
            _ => None,
        },
    }
}

/// The text of one member.
spec fn member_text(member: Member) -> Seq<char> {
    seq!['"'] + member.name + seq!['"', ':'] + member.value
}

/// The text of one or more members, a comma between each two.
spec fn members_text(members: Seq<Member>) -> Seq<char>
    decreases members.len(),
{
    if members.len() == 0 {
        Seq::empty()
    } else if members.len() == 1 {
        member_text(members[0])
    } else {
        member_text(members[0]) + seq![','] + members_text(members.skip(1))
    }
}

/// Whether a member can be told apart from what stands around it: no double
/// quote in its name, and a value that is a number's characters, at least
/// one.
spec fn well_formed(member: Member) -> bool {
    &&& forall|i: int| 0 <= i < member.name.len() ==> member.name[i] != '"'
    &&& member.value.len() > 0
    &&& forall|i: int| 0 <= i < member.value.len() ==> is_number_char(member.value[i])
}

/// The members of a record's document.
spec fn members_of(record: RecordData) -> Seq<Member> {
    seq![
        Member { name: "bearing"@, value: fixed_text(record.bearing) },
        Member { name: "range"@, value: fixed_text(record.range) },
        Member { name: "stn"@, value: natural_text(record.station_id) },
        Member { name: "category"@, value: natural_text(record.category) },
        Member { name: "general_type"@, value: natural_text(record.general_type) },
    ]
}

proof fn lemma_name_run(name: Seq<char>, rest: Seq<char>)
    requires
        forall|i: int| 0 <= i < name.len() ==> name[i] != '"',
        rest.len() == 0 || rest[0] == '"',
    ensures
        name_run(name + rest) == name.len(),
    decreases name.len(),
{
    let text = name + rest;
    if name.len() == 0 {
        assert(text =~= rest);
    } else {
        assert(text[0] == name[0]);
        assert(text.skip(1) =~= name.skip(1) + rest);
        assert forall|i: int| 0 <= i < name.skip(1).len() implies name.skip(1)[i] != '"' by {
            assert(name.skip(1)[i] == name[i + 1]);
        }
        lemma_name_run(name.skip(1), rest);
    }
}

proof fn lemma_number_run(value: Seq<char>, rest: Seq<char>)
    requires
        forall|i: int| 0 <= i < value.len() ==> is_number_char(value[i]),
        rest.len() == 0 || !is_number_char(rest[0]),
    ensures
        number_run(value + rest) == value.len(),
    decreases value.len(),
{
    let text = value + rest;
    if value.len() == 0 {
        assert(text =~= rest);
    } else {
        assert(text[0] == value[0]);
        assert(text.skip(1) =~= value.skip(1) + rest);
        assert forall|i: int| 0 <= i < value.skip(1).len() implies is_number_char(
            value.skip(1)[i],
        ) by {
            assert(value.skip(1)[i] == value[i + 1]);
        }
        lemma_number_run(value.skip(1), rest);
    }
}

/// A well-formed member reads back from the front of a text in which no
/// number character follows it.
proof fn lemma_read_member(member: Member, rest: Seq<char>)
    requires
        well_formed(member),
        rest.len() == 0 || !is_number_char(rest[0]),
    ensures
        read_member(member_text(member) + rest) == Some((member, member_text(member).len())),
{
    let text = member_text(member) + rest;
    let name_len = member.name.len() as int;
    let after_name = seq!['"', ':'] + member.value + rest;
    assert(text.skip(1) =~= member.name + after_name);
    lemma_name_run(member.name, after_name);
    assert(text.skip(name_len + 3) =~= member.value + rest);
    lemma_number_run(member.value, rest);
    assert(text.subrange(1, name_len + 1) =~= member.name);
    assert(text.subrange(name_len + 3, name_len + 3 + member.value.len()) =~= member.value);
    assert(text[0] == '"');
    assert(text[name_len + 1] == '"');
    assert(text[name_len + 2] == ':');
}

/// Well-formed members read back from their text, in their order.
proof fn lemma_read_members(members: Seq<Member>)
    requires
        members.len() > 0,
        forall|i: int| 0 <= i < members.len() ==> well_formed(#[trigger] members[i]),
    ensures
        read_members(members_text(members)) == Some(members),
    decreases members.len(),
{
    let first = members[0];
    let text = members_text(members);
    if members.len() == 1 {
        assert(text =~= member_text(first) + Seq::<char>::empty());
        lemma_read_member(first, Seq::empty());
        assert(seq![first] =~= members);
    } else {
        let others = members.skip(1);
        let rest = seq![','] + members_text(others);
        assert(text =~= member_text(first) + rest);
        lemma_read_member(first, rest);
        let used = member_text(first).len() as int;
        assert(text[used] == ',');
        assert(text.skip(used + 1) =~= members_text(others));
        assert forall|i: int| 0 <= i < others.len() implies well_formed(#[trigger] others[i]) by {
            assert(others[i] == members[i + 1]);
        }
        lemma_read_members(others);
        assert(seq![first] + others =~= members);
    }
}

/// What stands in front of a value: a separator, the quoted name, a colon.
spec fn key_text(separator: char, name: Seq<char>) -> Seq<char> {
    seq![separator, '"'] + name + seq!['"', ':']
}

proof fn lemma_key_texts()
    ensures
        "{\"bearing\":"@ == key_text('{', "bearing"@),
        ",\"range\":"@ == key_text(',', "range"@),
        ",\"stn\":"@ == key_text(',', "stn"@),
        ",\"category\":"@ == key_text(',', "category"@),
        ",\"general_type\":"@ == key_text(',', "general_type"@),
        "}"@ == seq!['}'],
{
    assert("{\"bearing\":"@ =~= key_text('{', "bearing"@)) by {
        reveal_strlit("{\"bearing\":");
        reveal_strlit("bearing");
    }
    assert(",\"range\":"@ =~= key_text(',', "range"@)) by {
        reveal_strlit(",\"range\":");
        reveal_strlit("range");
    }
    assert(",\"stn\":"@ =~= key_text(',', "stn"@)) by {
        reveal_strlit(",\"stn\":");
        reveal_strlit("stn");
    }
    assert(",\"category\":"@ =~= key_text(',', "category"@)) by {
        reveal_strlit(",\"category\":");
        reveal_strlit("category");
    }
    assert(",\"general_type\":"@ =~= key_text(',', "general_type"@)) by {
        reveal_strlit(",\"general_type\":");
        reveal_strlit("general_type");
    }
    assert("}"@ =~= seq!['}']) by {
        reveal_strlit("}");
    }
}

/// A key and a value are a separator and a member.
proof fn lemma_key_value(separator: char, member: Member)
    ensures
        key_text(separator, member.name) + member.value == seq![separator] + member_text(member),
{
    assert(key_text(separator, member.name) + member.value =~= seq![separator] + member_text(
        member,
    ));
}

/// A record's document is the text of its five members between braces.
proof fn lemma_document_members(record: RecordData)
    ensures
        document_text(record) == seq!['{'] + members_text(members_of(record)) + seq!['}'],
{
    lemma_key_texts();
    let members = members_of(record);
    let last_four = members.skip(1);
    let last_three = last_four.skip(1);
    let last_two = last_three.skip(1);
    let last_one = last_two.skip(1);
    lemma_key_value('{', members[0]);
    lemma_key_value(',', members[1]);
    lemma_key_value(',', members[2]);
    lemma_key_value(',', members[3]);
    lemma_key_value(',', members[4]);
    let one = member_text(members[4]);
    let two = member_text(members[3]) + seq![','] + one;
    let three = member_text(members[2]) + seq![','] + two;
    let four = member_text(members[1]) + seq![','] + three;
    let five = member_text(members[0]) + seq![','] + four;
    assert(members_text(last_one) == one);
    assert(members_text(last_two) == two);
    assert(members_text(last_three) == three);
    assert(members_text(last_four) == four);
    assert(members_text(members) == five);
    let a = seq!['{'] + member_text(members[0]);
    let b = seq![','] + member_text(members[1]);
    let c = seq![','] + member_text(members[2]);
    let d = seq![','] + member_text(members[3]);
    let e = seq![','] + member_text(members[4]);
    assert(document_text(record) == a + b + c + d + e + seq!['}']) by {
        assert("{\"bearing\":"@ + fixed_text(record.bearing) == a);
        assert(a + ",\"range\":"@ + fixed_text(record.range) =~= a + b);
        assert(a + b + ",\"stn\":"@ + natural_text(record.station_id) =~= a + b + c);
        assert(a + b + c + ",\"category\":"@ + natural_text(record.category) =~= a + b + c
            + d);
        assert(a + b + c + d + ",\"general_type\":"@ + natural_text(record.general_type)
            =~= a + b + c + d + e);
    }
    assert(a + b + c + d + e + seq!['}'] =~= seq!['{'] + five + seq!['}']);
}

/// The five names differ from each other, and none holds a double quote.
proof fn lemma_names()
    ensures
        "bearing"@.len() == 7,
        "range"@.len() == 5,
        "stn"@.len() == 3,
        "category"@.len() == 8,
        "general_type"@.len() == 12,
        forall|i: int| 0 <= i < 7 ==> "bearing"@[i] != '"',
        forall|i: int| 0 <= i < 5 ==> "range"@[i] != '"',
        forall|i: int| 0 <= i < 3 ==> "stn"@[i] != '"',
        forall|i: int| 0 <= i < 8 ==> "category"@[i] != '"',
        forall|i: int| 0 <= i < 12 ==> "general_type"@[i] != '"',
{
    reveal_strlit("bearing");
    reveal_strlit("range");
    reveal_strlit("stn");
    reveal_strlit("category");
    reveal_strlit("general_type");
}

/// The members of a record's document are well formed.
proof fn lemma_members_well_formed(record: RecordData)
    ensures
        members_of(record).len() == 5,
        forall|i: int| 0 <= i < 5 ==> well_formed(#[trigger] members_of(record)[i]),
{
    lemma_names();
    lemma_fixed_text_chars(record.bearing);
    lemma_fixed_text_chars(record.range);
    lemma_read_natural_text(record.station_id);
    lemma_read_natural_text(record.category);
    lemma_read_natural_text(record.general_type);
    let members = members_of(record);
    assert(well_formed(members[0]));
    assert(well_formed(members[1]));
    assert(well_formed(members[2]));
    assert(well_formed(members[3]));
    assert(well_formed(members[4]));
}

/// Each of the five names finds its own value among a record's members.
proof fn lemma_lookup_members(record: RecordData)
    ensures
        lookup(members_of(record), "bearing"@) == Some(fixed_text(record.bearing)),
        lookup(members_of(record), "range"@) == Some(fixed_text(record.range)),
        lookup(members_of(record), "stn"@) == Some(natural_text(record.station_id)),
        lookup(members_of(record), "category"@) == Some(natural_text(record.category)),
        lookup(members_of(record), "general_type"@) == Some(natural_text(record.general_type)),
{
    lemma_names();
    let members = members_of(record);
    let last_four = members.skip(1);
    let last_three = last_four.skip(1);
    let last_two = last_three.skip(1);
    let last_one = last_two.skip(1);
    assert(last_four[0] == members[1]);
    assert(last_three[0] == members[2]);
    assert(last_two[0] == members[3]);
    assert(last_one[0] == members[4]);
    reveal_with_fuel(lookup, 6);
}

/// Reading a record's document gives the record back: the document holds
/// the five named fields and no other, and each value is the record's own,
/// bearing and range to the last place.
pub proof fn lemma_decode_document(record: RecordData)
    ensures
        decode(document_text(record)) == Some(record),
{
    let text = document_text(record);
    let members = members_of(record);
    let inside = members_text(members);
    lemma_document_members(record);
    lemma_members_well_formed(record);
    lemma_read_members(members);
    assert(inside.len() > 0) by {
        assert(well_formed(members[0]));
        assert(inside.len() >= member_text(members[0]).len());
    }
    assert(text.subrange(1, text.len() - 1) =~= inside);
    assert(read_object(text) == Some(members));
    lemma_lookup_members(record);
    lemma_read_fixed_text(record.bearing);
    lemma_read_fixed_text(record.range);
    lemma_read_natural_text(record.station_id);
    lemma_read_natural_text(record.category);
    lemma_read_natural_text(record.general_type);
}

} // verus!
