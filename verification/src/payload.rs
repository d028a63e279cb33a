//! Random record generation: one value per declared field type for the
//! dynamic variant, and the fixed record shape for the fixed variant.
//!
//! All randomness enters through the wrappers around `rand` at the top of
//! the module; everything after a draw is verified for every value the draw
//! could take.

use vstd::prelude::*;
use crate::json::JsonValue;
use crate::schema::{FieldType, Schema};
use rand::Rng;

verus! {

/// Relies on `rand::Rng::gen_range` over an inclusive range: returns a
/// uniformly distributed integer within the range; panics only on an empty
/// range, which the precondition rules out.
#[verifier::external_body]
fn rand_u64_in(lo: u64, hi: u64) -> (r: u64)
    requires
        lo <= hi,
    ensures
        lo <= r <= hi,
{
    rand::thread_rng().gen_range(lo..=hi)
}

/// Relies on `rand::distributions::Alphanumeric`: every sample is one of
/// the bytes `A`-`Z`, `a`-`z`, `0`-`9`.
#[verifier::external_body]
fn rand_alphanumeric_char() -> (c: char)
    ensures
        is_alphanumeric_char(c),
{
    rand::thread_rng().sample(rand::distributions::Alphanumeric) as char
}

/// Relies on `rand::Rng::gen::<bool>`: the standard distribution on `bool`
/// is a fair coin. Nothing can be promised of a single draw.
#[verifier::external_body]
fn rand_coin() -> bool {
    rand::thread_rng().gen::<bool>()
}

/// An ASCII digit or letter.
pub open spec fn is_alphanumeric_char(c: char) -> bool {
    (48 <= c as u32 && c as u32 <= 57) || (65 <= c as u32 && c as u32 <= 90) || (97 <= c as u32
        && c as u32 <= 122)
}

/// A string value of exactly `n` random alphanumeric characters.
fn random_alphanumeric_string(n: usize) -> (s: String)
    ensures
        s@.len() == n,
        forall|i: int| 0 <= i < n ==> is_alphanumeric_char(s@[i]),
{
    let mut s = String::new();
    let mut i: usize = 0;
    while i < n
        invariant
            i <= n,
            s@.len() == i,
            forall|j: int| 0 <= j < i ==> is_alphanumeric_char(s@[j]),
        decreases n - i,
    {
        s.push(rand_alphanumeric_char());
        i = i + 1;
    }
    s
}

/// What a generated value may be for each declared type: a ten-character
/// alphanumeric string, an integer in `[1, 1000]`, a boolean, one of the
/// three status words, the generation time in whole seconds, or null for a
/// type outside the recognized set.
pub open spec fn value_ok_for(t: FieldType, v: JsonValue, now_secs: u64) -> bool {
    match t {
        FieldType::Text => v matches JsonValue::Str(s) && s@.len() == 10 && (forall|i: int|
            0 <= i < 10 ==> is_alphanumeric_char(s@[i])),
        FieldType::Integer => v matches JsonValue::Int(n) && 1 <= n <= 1000,
        FieldType::Boolean => v is Bool,
        FieldType::Status => v matches JsonValue::Str(s) && (s@ == "SUCCESS"@ || s@ == "FAIL"@
            || s@ == "PENDING"@),
        FieldType::Timestamp => v == JsonValue::Int(now_secs),
        FieldType::Unknown => v == JsonValue::Null,
    }
}

/// Generates one random value for a declared field type. `now_secs` is the
/// generation time in whole seconds since the epoch; only a timestamp field
/// reads it. Never fails: an unrecognized type yields null.
pub fn generate_value(t: &FieldType, now_secs: u64) -> (v: JsonValue)
    ensures
        value_ok_for(*t, v, now_secs),
{
    match t {
        FieldType::Text => JsonValue::Str(random_alphanumeric_string(10)),
        FieldType::Integer => JsonValue::Int(rand_u64_in(1, 1000)),
        FieldType::Boolean => JsonValue::Bool(rand_coin()),
        FieldType::Status => {
            let pick = rand_u64_in(0, 2);
            if pick == 0 {
                JsonValue::Str("SUCCESS".to_owned())
            } else if pick == 1 {
                JsonValue::Str("FAIL".to_owned())
            } else {
                JsonValue::Str("PENDING".to_owned())
            }
        },
        FieldType::Timestamp => JsonValue::Int(now_secs),
        FieldType::Unknown => JsonValue::Null,
    }
}

/// A record drawn for a schema: the schema's field names in schema order,
/// each value admissible for the field's declared type.
pub open spec fn record_matches_schema(
    fields: Seq<(String, JsonValue)>,
    schema: Seq<(Seq<char>, FieldType)>,
    now_secs: u64,
) -> bool {
    &&& fields.len() == schema.len()
    &&& forall|i: int|
        0 <= i < schema.len() ==> #[trigger] fields[i].0@ == schema[i].0 && value_ok_for(
            schema[i].1,
            fields[i].1,
            now_secs,
        )
}

/// Generates one record for the schema, one field per declared field, in
/// schema order.
pub fn generate_record(schema: &Schema, now_secs: u64) -> (r: Vec<(String, JsonValue)>)
    ensures
        record_matches_schema(r@, schema@, now_secs),
{
    let mut r: Vec<(String, JsonValue)> = Vec::new();
    let n = schema.fields.len();
    let mut i: usize = 0;
    while i < n
        invariant
            n == schema.fields.len(),
            i <= n,
            r@.len() == i,
            forall|j: int|
                0 <= j < i ==> #[trigger] r@[j].0@ == schema@[j].0 && value_ok_for(
                    schema@[j].1,
                    r@[j].1,
                    now_secs,
                ),
        decreases n - i,
    {
        let key = schema.fields[i].0.clone();
        let v = generate_value(&schema.fields[i].1, now_secs);
        proof {
            assert(schema@[i as int] == (schema.fields@[i as int].0@, schema.fields@[i as int].1));
        }
        r.push((key, v));
        i = i + 1;
    }
    proof {
        assert(schema@.len() == schema.fields@.len());
        assert(record_matches_schema(r@, schema@, now_secs));
    }
    r
}

/// The fixed set of names the fixed-variant generator draws from.
pub open spec fn is_fixed_name(s: Seq<char>) -> bool {
    ||| s == "Alice"@
    ||| s == "Bob"@
    ||| s == "Carol"@
    ||| s == "Dave"@
    ||| s == "Erin"@
    ||| s == "Frank"@
    ||| s == "Grace"@
    ||| s == "Heidi"@
}

/// Draws one name uniformly from the fixed eight-name set.
fn random_name() -> (s: String)
    ensures
        is_fixed_name(s@),
{
    let pick = rand_u64_in(0, 7);
    if pick == 0 {
        "Alice".to_owned()
    } else if pick == 1 {
        "Bob".to_owned()
    } else if pick == 2 {
        "Carol".to_owned()
    } else if pick == 3 {
        "Dave".to_owned()
    } else if pick == 4 {
        "Erin".to_owned()
    } else if pick == 5 {
        "Frank".to_owned()
    } else if pick == 6 {
        "Grace".to_owned()
    } else {
        "Heidi".to_owned()
    }
}

/// The fixed-variant record shape: the generation time as identifier (whole
/// seconds, so two records within one second share it), a name from the
/// fixed eight-name set, a click count in `[1, 40]`, and the generation
/// time as date-time text.
pub open spec fn fixed_record_ok(fields: Seq<(String, JsonValue)>, now_secs: u64) -> bool {
    &&& fields.len() == 4
    &&& fields[0].0@ == "id"@ && fields[0].1 == JsonValue::Int(now_secs)
    &&& fields[1].0@ == "name"@ && (fields[1].1 matches JsonValue::Str(s) && is_fixed_name(s@))
    &&& fields[2].0@ == "clicks"@ && (fields[2].1 matches JsonValue::Int(c) && 1 <= c <= 40)
    &&& fields[3].0@ == "timestamp"@ && (fields[3].1 matches JsonValue::Str(t) && t@
        == crate::timefmt::iso_of_secs(now_secs as nat))
}

/// The identifier a fixed-variant record carries.
pub open spec fn fixed_record_id(fields: Seq<(String, JsonValue)>) -> u64 {
    fields[0].1->Int_0
}

/// Generates one fixed-variant record for the given generation time.
pub fn generate_fixed_record(now_secs: u64) -> (r: Vec<(String, JsonValue)>)
    ensures
        fixed_record_ok(r@, now_secs),
{
    let mut r: Vec<(String, JsonValue)> = Vec::new();
    r.push(("id".to_owned(), JsonValue::Int(now_secs)));
    r.push(("name".to_owned(), JsonValue::Str(random_name())));
    r.push(("clicks".to_owned(), JsonValue::Int(rand_u64_in(1, 40))));
    r.push(("timestamp".to_owned(), JsonValue::Str(crate::timefmt::format_timestamp(now_secs))));
    r
}

/// Generates one fixed-variant record and renders it as a single JSON
/// object.
pub fn generate_fixed_log(now_secs: u64) -> (s: String)
    ensures
        exists|fields: Seq<(String, JsonValue)>|
            #[trigger] fixed_record_ok(fields, now_secs) && s@ == crate::json::render_record(
                fields,
            ),
{
    let record = generate_fixed_record(now_secs);
    let s = crate::json::serialize_record(&record);
    proof {
        assert(fixed_record_ok(record@, now_secs) && s@ == crate::json::render_record(record@));
    }
    s
}

/// The fixed-variant identifier never decreases between two records whose
/// generation times are in order: it is the generation time itself, in
/// whole seconds, so a record generated at least one second after another
/// carries an identifier at least one greater.
pub proof fn lemma_fixed_id_monotonic(
    f1: Seq<(String, JsonValue)>,
    f2: Seq<(String, JsonValue)>,
    t1: u64,
    t2: u64,
)
    requires
        fixed_record_ok(f1, t1),
        fixed_record_ok(f2, t2),
        t1 <= t2,
    ensures
        fixed_record_id(f1) <= fixed_record_id(f2),
{
}

/// Generates one record for the schema and renders it as a single JSON
/// object, fields in schema order.
pub fn generate_log(schema: &Schema, now_secs: u64) -> (s: String)
    ensures
        exists|fields: Seq<(String, JsonValue)>|
            #[trigger] record_matches_schema(fields, schema@, now_secs) && s@
                == crate::json::render_record(fields),
{
    let record = generate_record(schema, now_secs);
    let s = crate::json::serialize_record(&record);
    proof {
        assert(record_matches_schema(record@, schema@, now_secs) && s@
            == crate::json::render_record(record@));
    }
    s
}

} // verus!
