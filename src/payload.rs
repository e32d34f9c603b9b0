use vstd::prelude::*;
use vstd::string::StringExecFns;

use crate::event::{
    CounterEvent, EventModel, CREATED_TAG, DECREMENTED_TAG, DELETED_TAG, INCREMENTED_TAG, UPDATED_TAG,
};
use crate::text::{
    chars_of, decimal, expect_text, lemma_decimal_unique, lemma_quoted_unique,
    lemma_starts_with_split, parse_decimal, parse_quoted, push_char, push_decimal, push_quoted, quoted,
    starts_with_at,
};

verus! {

pub const ID_KEY: &'static str = "\"aggregate_id\":";

pub const NAME_KEY: &'static str = ",\"name\":";

pub const VALUE_KEY: &'static str = ",\"value\":";

pub const AMOUNT_KEY: &'static str = ",\"amount\":";

/// `head` followed by the fields of an event as the payload writes them.
pub open spec fn with_fields(head: Seq<char>, e: EventModel) -> Seq<char> {
    match e {
        EventModel::Created { aggregate_id, name, value } => head + ID_KEY@ + quoted(aggregate_id)
            + NAME_KEY@ + quoted(name) + VALUE_KEY@ + decimal(value as int),
        EventModel::Incremented { aggregate_id, amount } => head + ID_KEY@ + quoted(aggregate_id)
            + AMOUNT_KEY@ + decimal(amount as int),
        EventModel::Decremented { aggregate_id, amount } => head + ID_KEY@ + quoted(aggregate_id)
            + AMOUNT_KEY@ + decimal(amount as int),
        EventModel::Updated { aggregate_id, name, value } => head + ID_KEY@ + quoted(aggregate_id)
            + NAME_KEY@ + quoted(name) + VALUE_KEY@ + decimal(value as int),
        EventModel::Deleted { aggregate_id } => head + ID_KEY@ + quoted(aggregate_id),
    }
}

/// The opening of a payload: the brace, the quoted type tag, a colon and a brace.
pub open spec fn opening(e: EventModel) -> Seq<char> {
    seq!['{'] + quoted(e.type_tag()) + seq![':', '{']
}

/// The storage payload of an event: a JSON object with one member, named by the
/// event's type tag, whose value is an object of the event's fields, written
/// without spaces, e.g. `{"CounterIncremented":{"aggregate_id":"a1","amount":3}}`.
pub open spec fn encoded(e: EventModel) -> Seq<char> {
    with_fields(opening(e), e) + seq!['}', '}']
}

/// Writes the storage payload of an event.
pub fn encode_event(event: &CounterEvent) -> (r: String)
    ensures
        r@ == encoded(event@),
{
    let tag = event.to_string();
    let mut out = String::new();
    push_char(&mut out, '{');
    push_quoted(&mut out, tag.as_str());
    push_char(&mut out, ':');
    push_char(&mut out, '{');
    let ghost head = out@;
    assert(head == opening(event@));
    match event {
        CounterEvent::CounterCreated { aggregate_id, name, value } => {
            out.append(ID_KEY);
            push_quoted(&mut out, aggregate_id.as_str());
            out.append(NAME_KEY);
            push_quoted(&mut out, name.as_str());
            out.append(VALUE_KEY);
            push_decimal(&mut out, *value);
        },
        CounterEvent::CounterIncremented { aggregate_id, amount } => {
            out.append(ID_KEY);
            push_quoted(&mut out, aggregate_id.as_str());
            out.append(AMOUNT_KEY);
            push_decimal(&mut out, *amount);
        },
        CounterEvent::CounterDecremented { aggregate_id, amount } => {
            out.append(ID_KEY);
            push_quoted(&mut out, aggregate_id.as_str());
            out.append(AMOUNT_KEY);
            push_decimal(&mut out, *amount);
        },
        CounterEvent::CounterUpdated { aggregate_id, name, value } => {
            out.append(ID_KEY);
            push_quoted(&mut out, aggregate_id.as_str());
            out.append(NAME_KEY);
            push_quoted(&mut out, name.as_str());
            out.append(VALUE_KEY);
            push_decimal(&mut out, *value);
        },
        CounterEvent::CounterDeleted { aggregate_id } => {
            out.append(ID_KEY);
            push_quoted(&mut out, aggregate_id.as_str());
        },
    }
    assert(out@ == with_fields(head, event@));
    push_char(&mut out, '}');
    push_char(&mut out, '}');
    assert(out@ =~= encoded(event@));
    out
}

/// What follows the quoted counter identity in a payload.
pub open spec fn after_id(e: EventModel) -> Seq<char> {
    match e {
        EventModel::Created { name, value, .. } => NAME_KEY@ + quoted(name) + VALUE_KEY@ + decimal(
            value as int,
        ) + seq!['}', '}'],
        EventModel::Incremented { amount, .. } => AMOUNT_KEY@ + decimal(amount as int) + seq!['}', '}'],
        EventModel::Decremented { amount, .. } => AMOUNT_KEY@ + decimal(amount as int) + seq!['}', '}'],
        EventModel::Updated { name, value, .. } => NAME_KEY@ + quoted(name) + VALUE_KEY@ + decimal(
            value as int,
        ) + seq!['}', '}'],
        EventModel::Deleted { .. } => seq!['}', '}'],
    }
}

/// The label an event carries, for the kinds that carry one.
pub open spec fn name_of(e: EventModel) -> Seq<char> {
    match e {
        EventModel::Created { name, .. } => name,
        EventModel::Updated { name, .. } => name,
        _ => Seq::empty(),
    }
}

/// The number an event carries: a value or an amount.
pub open spec fn number_of(e: EventModel) -> int {
    match e {
        EventModel::Created { value, .. } => value as int,
        EventModel::Incremented { amount, .. } => amount as int,
        EventModel::Decremented { amount, .. } => amount as int,
        EventModel::Updated { value, .. } => value as int,
        EventModel::Deleted { .. } => 0,
    }
}

proof fn lemma_encoded_parts(e: EventModel)
    ensures
        encoded(e) == opening(e) + ID_KEY@ + quoted(e.aggregate_id()) + after_id(e),
{
    assert(encoded(e) =~= opening(e) + ID_KEY@ + quoted(e.aggregate_id()) + after_id(e));
}

/// Where the pieces of a payload stand, up to and including the counter identity.
proof fn lemma_head_layout(s: Seq<char>, e: EventModel)
    requires
        s == encoded(e),
    ensures
        starts_with_at(s, 0, seq!['{']),
        starts_with_at(s, 1, quoted(e.type_tag())),
        starts_with_at(s, (1 + quoted(e.type_tag()).len()) as int, seq![':', '{']),
        starts_with_at(s, opening(e).len() as int, ID_KEY@),
        starts_with_at(s, (opening(e).len() + ID_KEY@.len()) as int, quoted(e.aggregate_id())),
        starts_with_at(
            s,
            (opening(e).len() + ID_KEY@.len() + quoted(e.aggregate_id()).len()) as int,
            after_id(e),
        ),
        opening(e).len() == 3 + quoted(e.type_tag()).len(),
{
    lemma_encoded_parts(e);
    let o = opening(e);
    let q = quoted(e.aggregate_id());
    assert(s.subrange(0, s.len() as int) =~= s);
    lemma_starts_with_split(s, 0, o + ID_KEY@ + q, after_id(e));
    lemma_starts_with_split(s, 0, o + ID_KEY@, q);
    lemma_starts_with_split(s, 0, o, ID_KEY@);
    lemma_starts_with_split(s, 0, seq!['{'] + quoted(e.type_tag()), seq![':', '{']);
    lemma_starts_with_split(s, 0, seq!['{'], quoted(e.type_tag()));
}

/// Where the pieces after the identity stand, for events that carry a label and a value.
proof fn lemma_named_layout(s: Seq<char>, pos: int, name: Seq<char>, value: int)
    requires
        starts_with_at(s, pos, NAME_KEY@ + quoted(name) + VALUE_KEY@ + decimal(value) + seq!['}', '}']),
    ensures
        starts_with_at(s, pos, NAME_KEY@),
        starts_with_at(s, pos + NAME_KEY@.len(), quoted(name)),
        starts_with_at(s, pos + NAME_KEY@.len() + quoted(name).len(), VALUE_KEY@),
        starts_with_at(s, pos + NAME_KEY@.len() + quoted(name).len() + VALUE_KEY@.len(), decimal(value)),
        ({
            let end = pos + NAME_KEY@.len() + quoted(name).len() + VALUE_KEY@.len() + decimal(value).len();
            end < s.len() && s[end] == '}'
        }),
{
    let a = NAME_KEY@ + quoted(name) + VALUE_KEY@;
    lemma_starts_with_split(s, pos, a + decimal(value), seq!['}', '}']);
    lemma_starts_with_split(s, pos, a, decimal(value));
    lemma_starts_with_split(s, pos, NAME_KEY@ + quoted(name), VALUE_KEY@);
    lemma_starts_with_split(s, pos, NAME_KEY@, quoted(name));
    let end = pos + a.len() + decimal(value).len();
    assert(s[end] == s.subrange(end, end + 2)[0]);
}

/// Where the pieces after the identity stand, for events that carry an amount.
proof fn lemma_amount_layout(s: Seq<char>, pos: int, amount: int)
    requires
        starts_with_at(s, pos, AMOUNT_KEY@ + decimal(amount) + seq!['}', '}']),
    ensures
        starts_with_at(s, pos, AMOUNT_KEY@),
        starts_with_at(s, pos + AMOUNT_KEY@.len(), decimal(amount)),
        ({
            let end = pos + AMOUNT_KEY@.len() + decimal(amount).len();
            end < s.len() && s[end] == '}'
        }),
{
    lemma_starts_with_split(s, pos, AMOUNT_KEY@ + decimal(amount), seq!['}', '}']);
    lemma_starts_with_split(s, pos, AMOUNT_KEY@, decimal(amount));
    let end = pos + AMOUNT_KEY@.len() + decimal(amount).len();
    assert(s[end] == s.subrange(end, end + 2)[0]);
}

/// The five type tags differ from one another.
pub proof fn lemma_tags_distinct()
    ensures
        CREATED_TAG@ != INCREMENTED_TAG@,
        CREATED_TAG@ != DECREMENTED_TAG@,
        CREATED_TAG@ != UPDATED_TAG@,
        CREATED_TAG@ != DELETED_TAG@,
        INCREMENTED_TAG@ != DECREMENTED_TAG@,
        INCREMENTED_TAG@ != UPDATED_TAG@,
        INCREMENTED_TAG@ != DELETED_TAG@,
        DECREMENTED_TAG@ != UPDATED_TAG@,
        DECREMENTED_TAG@ != DELETED_TAG@,
        UPDATED_TAG@ != DELETED_TAG@,
{
    reveal_strlit("CounterCreated");
    reveal_strlit("CounterIncremented");
    reveal_strlit("CounterDecremented");
    reveal_strlit("CounterUpdated");
    reveal_strlit("CounterDeleted");
    assert(CREATED_TAG@[7] != INCREMENTED_TAG@[7]);
    assert(CREATED_TAG@[7] != DECREMENTED_TAG@[7]);
    assert(CREATED_TAG@[7] != UPDATED_TAG@[7]);
    assert(CREATED_TAG@[7] != DELETED_TAG@[7]);
    assert(INCREMENTED_TAG@[7] != DECREMENTED_TAG@[7]);
    assert(INCREMENTED_TAG@[7] != UPDATED_TAG@[7]);
    assert(INCREMENTED_TAG@[7] != DELETED_TAG@[7]);
    assert(DECREMENTED_TAG@[7] != UPDATED_TAG@[7]);
    assert(DECREMENTED_TAG@[9] != DELETED_TAG@[9]);
    assert(UPDATED_TAG@[7] != DELETED_TAG@[7]);
}

/// Whether `text` reads exactly `lit`.
fn same_text(text: &String, lit: &str) -> (r: bool)
    ensures
        r == (text@ == lit@),
{
    let other = String::from_str(lit);
    *text == other
}

/// Reads an event back from the characters of a payload. Whatever `encoded`
/// writes for `ev` is read back as `ev`; other text may be read leniently.
fn parse_event(buf: &Vec<char>, Ghost(ev): Ghost<EventModel>) -> (r: Option<CounterEvent>)
    ensures
        buf@ == encoded(ev) ==> (r matches Some(e) && e@ == ev),
{
    let ghost ok = buf@ == encoded(ev);
    let ghost tag = ev.type_tag();
    proof {
        if ok {
            lemma_head_layout(buf@, ev);
            assert(buf@[0] == buf@.subrange(0, 1)[0]);
        }
    }
    if buf.len() == 0 || buf[0] != '{' {
        return None;
    }
    let (tag_text, p) = match parse_quoted(buf, 1, Ghost(tag)) {
        Some(found) => found,
        None => return None,
    };
    proof {
        reveal_strlit(":{");
        assert(":{"@ == seq![':', '{']);
    }
    let p = match expect_text(buf, p, ":{") {
        Some(q) => q,
        None => return None,
    };
    let p = match expect_text(buf, p, ID_KEY) {
        Some(q) => q,
        None => return None,
    };
    let (id, p) = match parse_quoted(buf, p, Ghost(ev.aggregate_id())) {
        Some(found) => found,
        None => return None,
    };
    proof {
        lemma_tags_distinct();
    }
    if same_text(&tag_text, DELETED_TAG) {
        return Some(CounterEvent::CounterDeleted { aggregate_id: id });
    }
    let incremented = same_text(&tag_text, INCREMENTED_TAG);
    if incremented || same_text(&tag_text, DECREMENTED_TAG) {
        proof {
            if ok {
                lemma_amount_layout(buf@, p as int, number_of(ev));
            }
        }
        let p = match expect_text(buf, p, AMOUNT_KEY) {
            Some(q) => q,
            None => return None,
        };
        let (amount, _) = match parse_decimal(buf, p, Ghost(number_of(ev))) {
            Some(found) => found,
            None => return None,
        };
        if incremented {
            return Some(CounterEvent::CounterIncremented { aggregate_id: id, amount });
        } else {
            return Some(CounterEvent::CounterDecremented { aggregate_id: id, amount });
        }
    }
    let created = same_text(&tag_text, CREATED_TAG);
    if created || same_text(&tag_text, UPDATED_TAG) {
        proof {
            if ok {
                lemma_named_layout(buf@, p as int, name_of(ev), number_of(ev));
            }
        }
        let p = match expect_text(buf, p, NAME_KEY) {
            Some(q) => q,
            None => return None,
        };
        let (name, p) = match parse_quoted(buf, p, Ghost(name_of(ev))) {
            Some(found) => found,
            None => return None,
        };
        let p = match expect_text(buf, p, VALUE_KEY) {
            Some(q) => q,
            None => return None,
        };
        let (value, _) = match parse_decimal(buf, p, Ghost(number_of(ev))) {
            Some(found) => found,
            None => return None,
        };
        if created {
            return Some(CounterEvent::CounterCreated { aggregate_id: id, name, value });
        } else {
            return Some(CounterEvent::CounterUpdated { aggregate_id: id, name, value });
        }
    }
    None
}

/// No two events are written as the same payload.
pub proof fn lemma_encoded_injective(a: EventModel, b: EventModel)
    requires
        encoded(a) == encoded(b),
    ensures
        a == b,
{
    let s = encoded(a);
    lemma_head_layout(s, a);
    lemma_head_layout(s, b);
    lemma_quoted_unique(s, 1, a.type_tag(), b.type_tag());
    lemma_tags_distinct();
    let o = opening(a).len() + ID_KEY@.len();
    lemma_quoted_unique(s, o as int, a.aggregate_id(), b.aggregate_id());
    let p = o + quoted(a.aggregate_id()).len();
    match a {
        EventModel::Created { .. } | EventModel::Updated { .. } => {
            lemma_named_layout(s, p as int, name_of(a), number_of(a));
            lemma_named_layout(s, p as int, name_of(b), number_of(b));
            lemma_quoted_unique(s, (p + NAME_KEY@.len()) as int, name_of(a), name_of(b));
            let q = p + NAME_KEY@.len() + quoted(name_of(a)).len() + VALUE_KEY@.len();
            lemma_decimal_unique(s, q as int, number_of(a), number_of(b));
        },
        EventModel::Incremented { .. } | EventModel::Decremented { .. } => {
            lemma_amount_layout(s, p as int, number_of(a));
            lemma_amount_layout(s, p as int, number_of(b));
            lemma_decimal_unique(s, (p + AMOUNT_KEY@.len()) as int, number_of(a), number_of(b));
        },
        EventModel::Deleted { .. } => {},
    }
}

/// The event a payload stands for, if it is the payload of some event.
pub open spec fn decoded(payload: Seq<char>) -> Option<EventModel> {
    if exists|e: EventModel| encoded(e) == payload {
        Some(choose|e: EventModel| encoded(e) == payload)
    } else {
        None
    }
}

/// Reads an event back from its storage payload. Only the exact text that
/// `encode_event` writes for some event is accepted.
pub fn decode_event(payload: &str) -> (r: Option<CounterEvent>)
    ensures
        match r {
            Some(e) => decoded(payload@) == Some(e@),
            None => decoded(payload@) is None,
        },
{
    let buf = chars_of(payload);
    let ghost target = choose|e: EventModel| encoded(e) == payload@;
    match parse_event(&buf, Ghost(target)) {
        Some(event) => {
            let again = encode_event(&event);
            let given = String::from_str(payload);
            if again == given {
                proof {
                    lemma_encoded_injective(event@, choose|e: EventModel| encoded(e) == payload@);
                }
                Some(event)
            } else {
                None
            }
        },
        None => None,
    }
}

} // verus!
