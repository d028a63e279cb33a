//! The dynamic-variant schema: a mapping from field names to type tags,
//! loaded once at startup and read-only afterwards.

use vstd::prelude::*;

verus! {

/// The closed set of field types a schema may declare. A tag outside the
/// recognized set becomes `Unknown`, which generates a null value rather
/// than an error.
#[derive(Clone, Copy, PartialEq, Eq, Structural, Debug)]
pub enum FieldType {
    Text,
    Integer,
    Boolean,
    Status,
    Timestamp,
    Unknown,
}

/// Which field type a tag string declares.
pub open spec fn type_of_tag(tag: Seq<char>) -> FieldType {
    if tag == "string"@ {
        FieldType::Text
    } else if tag == "int"@ {
        FieldType::Integer
    } else if tag == "bool"@ {
        FieldType::Boolean
    } else if tag == "status"@ {
        FieldType::Status
    } else if tag == "date"@ {
        FieldType::Timestamp
    } else {
        FieldType::Unknown
    }
}

/// Character-for-character string comparison.
pub fn str_eq(a: &str, b: &str) -> (r: bool)
    ensures
        r == (a@ == b@),
{
    let alen = a.unicode_len();
    let blen = b.unicode_len();
    if alen != blen {
        return false;
    }
    let mut i: usize = 0;
    while i < alen
        invariant
            i <= alen,
            alen == a@.len(),
            alen == b@.len(),
            forall|j: int| 0 <= j < i ==> a@[j] == b@[j],
        decreases alen - i,
    {
        if a.get_char(i) != b.get_char(i) {
            return false;
        }
        i = i + 1;
    }
    proof {
        assert(a@ =~= b@);
    }
    true
}

/// Maps a tag string to the field type it declares.
pub fn field_type_of_tag(tag: &str) -> (t: FieldType)
    ensures
        t == type_of_tag(tag@),
{
    if str_eq(tag, "string") {
        FieldType::Text
    } else if str_eq(tag, "int") {
        FieldType::Integer
    } else if str_eq(tag, "bool") {
        FieldType::Boolean
    } else if str_eq(tag, "status") {
        FieldType::Status
    } else if str_eq(tag, "date") {
        FieldType::Timestamp
    } else {
        FieldType::Unknown
    }
}

/// The mathematical content of a field list: each name as a character
/// sequence, with its type.
pub open spec fn fields_model(fs: Seq<(String, FieldType)>) -> Seq<(Seq<char>, FieldType)> {
    fs.map_values(|p: (String, FieldType)| (p.0@, p.1))
}

/// A parsed schema: field names with their declared types, names unique,
/// in first-appearance order.
#[derive(Clone, Debug)]
pub struct Schema {
    pub fields: Vec<(String, FieldType)>,
}

impl View for Schema {
    type V = Seq<(Seq<char>, FieldType)>;

    open spec fn view(&self) -> Seq<(Seq<char>, FieldType)> {
        fields_model(self.fields@)
    }
}

impl Schema {
    /// Field names never repeat.
    pub open spec fn wf(&self) -> bool {
        forall|i: int, j: int| 0 <= i < j < self@.len() ==> self@[i].0 != self@[j].0
    }

    pub fn len(&self) -> (n: usize)
        ensures
            n == self@.len(),
    {
        self.fields.len()
    }
}

/// The position of the first field named `k`, or the length when no field
/// has that name.
pub open spec fn key_index(fs: Seq<(Seq<char>, FieldType)>, k: Seq<char>) -> int
    decreases fs.len(),
{
    if fs.len() == 0 {
        0
    } else if fs[0].0 == k {
        0
    } else {
        1 + key_index(fs.drop_first(), k)
    }
}

/// What `key_index` finds: the first position with the given name, with no
/// earlier occurrence, or the length when the name is absent.
pub proof fn lemma_key_index(fs: Seq<(Seq<char>, FieldType)>, k: Seq<char>)
    ensures
        0 <= key_index(fs, k) <= fs.len(),
        key_index(fs, k) < fs.len() ==> fs[key_index(fs, k)].0 == k,
        forall|i: int| 0 <= i < key_index(fs, k) ==> fs[i].0 != k,
    decreases fs.len(),
{
    if fs.len() > 0 && fs[0].0 != k {
        lemma_key_index(fs.drop_first(), k);
        assert forall|i: int| 0 <= i < key_index(fs, k) implies fs[i].0 != k by {
            if i > 0 {
                assert(fs.drop_first()[i - 1] == fs[i]);
            }
        }
    }
}

/// A schema after one `name: type` declaration is taken in: the type of an
/// existing field of that name is replaced, a new name is appended.
pub open spec fn upsert(
    fs: Seq<(Seq<char>, FieldType)>,
    k: Seq<char>,
    t: FieldType,
) -> Seq<(Seq<char>, FieldType)> {
    if key_index(fs, k) < fs.len() {
        fs.update(key_index(fs, k), (k, t))
    } else {
        fs.push((k, t))
    }
}

/// Taking in a declaration keeps field names unique.
pub proof fn lemma_upsert_keeps_unique(fs: Seq<(Seq<char>, FieldType)>, k: Seq<char>, t: FieldType)
    requires
        forall|i: int, j: int| 0 <= i < j < fs.len() ==> fs[i].0 != fs[j].0,
    ensures
        forall|i: int, j: int|
            0 <= i < j < upsert(fs, k, t).len() ==> upsert(fs, k, t)[i].0 != upsert(fs, k, t)[j].0,
{
    lemma_key_index(fs, k);
}

/// The schema that a list of raw `name`/`tag` pairs declares, taken in
/// order, a later declaration of a name replacing an earlier one.
pub open spec fn schema_of_pairs(ps: Seq<(Seq<char>, Seq<char>)>) -> Seq<(Seq<char>, FieldType)>
    decreases ps.len(),
{
    if ps.len() == 0 {
        Seq::empty()
    } else {
        upsert(schema_of_pairs(ps.drop_last()), ps.last().0, type_of_tag(ps.last().1))
    }
}

/// Takes one declaration into the field list.
fn upsert_field(fields: &mut Vec<(String, FieldType)>, key: String, t: FieldType)
    ensures
        fields_model(final(fields)@) == upsert(fields_model(old(fields)@), key@, t),
{
    let ghost m = fields_model(fields@);
    let ghost k = key@;
    proof {
        lemma_key_index(m, k);
    }
    let n = fields.len();
    let mut j: usize = 0;
    while j < n
        invariant
            n == fields.len(),
            fields@ == old(fields)@,
            m == fields_model(fields@),
            k == key@,
            j <= n,
            forall|i: int| 0 <= i < j ==> m[i].0 != k,
        decreases n - j,
    {
        if str_eq(fields[j].0.as_str(), key.as_str()) {
            proof {
                assert(m[j as int].0 == k);
                assert(key_index(m, k) == j) by {
                    lemma_key_index(m, k);
                    if key_index(m, k) < j {
                        assert(m[key_index(m, k)].0 != k);
                    }
                }
            }
            fields[j] = (key, t);
            proof {
                assert(fields_model(fields@) =~= m.update(j as int, (k, t)));
                assert(fields_model(fields@) == upsert(m, k, t));
            }
            return;
        }
        j = j + 1;
    }
    proof {
        assert(key_index(m, k) == m.len()) by {
            lemma_key_index(m, k);
            if key_index(m, k) < m.len() {
                assert(m[key_index(m, k)].0 != k);
            }
        }
    }
    fields.push((key, t));
    proof {
        assert(fields_model(fields@) =~= m.push((k, t)));
    }
}

/// Why a schema text was rejected. Any failure at load time is fatal to the
/// caller, so one diagnostic covers them all: the text was not a single
/// JSON object mapping names to tag strings.
#[derive(Clone, Copy, PartialEq, Eq, Structural, Debug)]
pub enum SchemaError {
    Malformed,
}

impl SchemaError {
    /// A diagnostic line for the fatal startup message.
    pub fn message(&self) -> (m: String)
        ensures
            m@ == "invalid schema: expected a JSON object of type-tag strings"@,
    {
        "invalid schema: expected a JSON object of type-tag strings".to_owned()
    }
}

/// The schema a text declares: its members taken in textual order, a later
/// declaration of a name replacing an earlier one.
pub open spec fn schema_of_text(s: Seq<char>) -> Option<Seq<(Seq<char>, FieldType)>> {
    match crate::parse::sp_schema(s) {
        None => None,
        Some(ps) => Some(schema_of_pairs(ps)),
    }
}

/// Parses a schema text: accepts exactly a single JSON object whose values
/// are strings, and returns the schema it declares; anything else is a
/// fatal load error.
pub fn parse_schema(input: &str) -> (r: Result<Schema, SchemaError>)
    ensures
        (r is Ok) == (schema_of_text(input@) is Some),
        r matches Ok(sch) ==> schema_of_text(input@) matches Some(m) && sch@ == m && sch.wf(),
        r matches Err(e) ==> e == SchemaError::Malformed,
{
    match crate::parse::parse_pairs(input) {
        None => Err(SchemaError::Malformed),
        Some(pairs) => Ok(build_schema(pairs)),
    }
}

/// The raw text of each name/tag pair.
pub open spec fn pairs_model(ps: Seq<(String, String)>) -> Seq<(Seq<char>, Seq<char>)> {
    ps.map_values(|p: (String, String)| (p.0@, p.1@))
}

/// Builds the schema that a list of raw name/tag pairs declares.
pub fn build_schema(pairs: Vec<(String, String)>) -> (s: Schema)
    ensures
        s@ == schema_of_pairs(pairs_model(pairs@)),
        s.wf(),
{
    let mut fields: Vec<(String, FieldType)> = Vec::new();
    let mut i: usize = 0;
    let n = pairs.len();
    proof {
        assert(fields_model(fields@) =~= Seq::<(Seq<char>, FieldType)>::empty());
        assert(pairs_model(pairs@.take(0)) =~= Seq::<(Seq<char>, Seq<char>)>::empty());
    }
    while i < n
        invariant
            n == pairs.len(),
            i <= n,
            fields_model(fields@) == schema_of_pairs(pairs_model(pairs@.take(i as int))),
            forall|a: int, b: int|
                0 <= a < b < fields_model(fields@).len()
                    ==> fields_model(fields@)[a].0 != fields_model(fields@)[b].0,
        decreases n - i,
    {
        let ghost before = fields_model(fields@);
        let key = pairs[i].0.clone();
        let t = field_type_of_tag(pairs[i].1.as_str());
        proof {
            lemma_upsert_keeps_unique(before, key@, t);
        }
        upsert_field(&mut fields, key, t);
        proof {
            let tk = pairs_model(pairs@.take(i + 1));
            assert(tk.drop_last() =~= pairs_model(pairs@.take(i as int)));
            assert(tk.last() == (pairs@[i as int].0@, pairs@[i as int].1@));
        }
        i = i + 1;
    }
    proof {
        assert(pairs@.take(n as int) =~= pairs@);
    }
    let s = Schema { fields };
    s
}

} // verus!
