use vstd::prelude::*;
use vstd::string::StrSliceExecFns;
use crate::DecodeError;
use crate::decimal::Decimal;
use crate::decimal::spec_decode;

verus! {

broadcast use
    vstd::seq::axiom_seq_index_decreases,
    vstd::std_specs::vec::axiom_vec_index_decreases,
    vstd::std_specs::vec::axiom_vec_decreases_to_view;

/// The mathematical model of a JSON document: the specification-level
/// counterpart of [`JsonValue`].
pub enum JsonData {
    Null,
    Bool(bool),
    Int(int),
    Str(Seq<char>),
    Arr(Seq<JsonData>),
    Obj(Seq<(Seq<char>, JsonData)>),
}

/// An executable JSON document tree.
///
/// The remote service's schema needs only these shapes: every numeric
/// monetary or quantity field travels as a JSON string, so the sole
/// numeric JSON payload the model ever carries is the integral error code.
#[derive(Debug)]
pub enum JsonValue {
    Null,
    Bool(bool),
    Int(i64),
    Str(String),
    Arr(Vec<JsonValue>),
    Obj(Vec<(String, JsonValue)>),
}

/// The model of one executable JSON tree.
pub open spec fn json_view(j: JsonValue) -> JsonData
    decreases j,
{
    match j {
        JsonValue::Null => JsonData::Null,
        JsonValue::Bool(b) => JsonData::Bool(b),
        JsonValue::Int(i) => JsonData::Int(i as int),
        JsonValue::Str(s) => JsonData::Str(s@),
        JsonValue::Arr(items) => JsonData::Arr(items_view(items@)),
        JsonValue::Obj(fields) => JsonData::Obj(fields_view(fields@)),
    }
}

/// The model of an executable element list.
pub open spec fn items_view(items: Seq<JsonValue>) -> Seq<JsonData>
    decreases items,
{
    if items.len() == 0 {
        Seq::empty()
    } else {
        seq![json_view(items[0])] + items_view(items.skip(1))
    }
}

/// The model of an executable field list.
pub open spec fn fields_view(fields: Seq<(String, JsonValue)>) -> Seq<(Seq<char>, JsonData)>
    decreases fields,
{
    if fields.len() == 0 {
        Seq::empty()
    } else {
        seq![(fields[0].0@, json_view(fields[0].1))] + fields_view(fields.skip(1))
    }
}

impl View for JsonValue {
    type V = JsonData;

    open spec fn view(&self) -> JsonData {
        json_view(*self)
    }
}

/// How the model of an element list reads element by element.
pub proof fn lemma_items_view(items: Seq<JsonValue>)
    ensures
        items_view(items).len() == items.len(),
        forall|i: int| 0 <= i < items.len() ==> items_view(items)[i] == json_view(#[trigger] items[i]),
    decreases items,
{
    if items.len() > 0 {
        lemma_items_view(items.skip(1));
        assert forall|i: int| 0 <= i < items.len() implies items_view(items)[i] == json_view(
            #[trigger] items[i],
        ) by {
            if i > 0 {
                assert(items_view(items)[i] == items_view(items.skip(1))[i - 1]);
                assert(items.skip(1)[i - 1] == items[i]);
            }
        }
    }
}

/// How the model of a field list reads field by field.
pub proof fn lemma_fields_view(fields: Seq<(String, JsonValue)>)
    ensures
        fields_view(fields).len() == fields.len(),
        forall|i: int| 0 <= i < fields.len() ==> fields_view(fields)[i] == ((#[trigger] fields[i]).0@,
            json_view(fields[i].1)),
    decreases fields,
{
    if fields.len() > 0 {
        lemma_fields_view(fields.skip(1));
        assert forall|i: int| 0 <= i < fields.len() implies fields_view(fields)[i] == ((
        #[trigger] fields[i]).0@, json_view(fields[i].1)) by {
            if i > 0 {
                assert(fields_view(fields)[i] == fields_view(fields.skip(1))[i - 1]);
                assert(fields.skip(1)[i - 1] == fields[i]);
            }
        }
    }
}

/// Character-for-character equality of two strings.
pub fn str_eq(a: &str, b: &str) -> (r: bool)
    ensures
        r == (a@ == b@),
{
    let na = a.unicode_len();
    let nb = b.unicode_len();
    if na != nb {
        return false;
    }
    let mut i: usize = 0;
    while i < na
        invariant
            0 <= i <= na,
            na == a@.len(),
            na == b@.len(),
            forall|k: int| 0 <= k < i ==> a@[k] == b@[k],
        decreases na - i,
    {
        if a.get_char(i) != b.get_char(i) {
            return false;
        }
        i = i + 1;
    }
    proof {
        assert(a@ =~= b@);
    }
    true
}

/// The value of the first field named `key` of the object's field list,
/// or `None` where no field carries that name.
pub open spec fn spec_lookup(fields: Seq<(Seq<char>, JsonData)>, key: Seq<char>) -> Option<JsonData>
    decreases fields.len(),
{
    if fields.len() == 0 {
        None
    } else if fields[0].0 == key {
        Some(fields[0].1)
    } else {
        spec_lookup(fields.skip(1), key)
    }
}

/// Finds the first field of the given name.
pub fn obj_lookup<'a>(fields: &'a Vec<(String, JsonValue)>, key: &str) -> (r: Option<
    &'a JsonValue,
>)
    ensures
        match r {
            Some(v) => spec_lookup(fields_view(fields@), key@) == Some(v@),
            None => spec_lookup(fields_view(fields@), key@) is None,
        },
{
    let ghost fv = fields_view(fields@);
    proof {
        lemma_fields_view(fields@);
        assert(fv.skip(0) =~= fv);
    }
    let mut i: usize = 0;
    while i < fields.len()
        invariant
            0 <= i <= fields.len(),
            fv == fields_view(fields@),
            spec_lookup(fv, key@) == spec_lookup(fv.skip(i as int), key@),
        decreases fields.len() - i,
    {
        proof {
            lemma_fields_view(fields@);
            assert(fv.skip(i as int)[0] == fv[i as int]);
        }
        if str_eq(fields[i].0.as_str(), key) {
            return Some(&fields[i].1);
        }
        proof {
            assert(fv.skip(i as int).skip(1) =~= fv.skip(i + 1));
        }
        i = i + 1;
    }
    proof {
        lemma_fields_view(fields@);
        assert(fv.skip(fields.len() as int) =~= Seq::<(Seq<char>, JsonData)>::empty());
    }
    None
}

/// Pushing a field extends the field list's model by that field's model.
pub proof fn lemma_fields_view_push(s: Seq<(String, JsonValue)>, x: (String, JsonValue))
    ensures
        fields_view(s.push(x)) == fields_view(s).push((x.0@, json_view(x.1))),
{
    lemma_fields_view(s.push(x));
    lemma_fields_view(s);
    let lhs = fields_view(s.push(x));
    let rhs = fields_view(s).push((x.0@, json_view(x.1)));
    assert forall|i: int| 0 <= i < s.len() + 1 implies lhs[i] == rhs[i] by {
        if i < s.len() {
            assert(s.push(x)[i] == s[i]);
        } else {
            assert(s.push(x)[i] == x);
        }
    }
    assert(lhs =~= rhs);
}

/// A lookup over a concatenation reads the left half first.
pub proof fn lemma_lookup_concat(
    a: Seq<(Seq<char>, JsonData)>,
    b: Seq<(Seq<char>, JsonData)>,
    k: Seq<char>,
)
    ensures
        spec_lookup(a + b, k) == (match spec_lookup(a, k) {
            Some(v) => Some(v),
            None => spec_lookup(b, k),
        }),
    decreases a.len(),
{
    if a.len() == 0 {
        assert(a + b =~= b);
    } else {
        assert((a + b)[0] == a[0]);
        if a[0].0 != k {
            assert((a + b).skip(1) =~= a.skip(1) + b);
            lemma_lookup_concat(a.skip(1), b, k);
        }
    }
}

/// A lookup in a one-field list compares that one name.
pub proof fn lemma_lookup_single(x: (Seq<char>, JsonData), k: Seq<char>)
    ensures
        spec_lookup(seq![x], k) == (if x.0 == k {
            Some(x.1)
        } else {
            Option::<JsonData>::None
        }),
{
    assert(seq![x].skip(1) =~= Seq::<(Seq<char>, JsonData)>::empty());
    assert(spec_lookup(Seq::<(Seq<char>, JsonData)>::empty(), k) is None);
    assert(seq![x][0] == x);
}

/// The string a field holds, where the schema asks for a string.
pub open spec fn spec_get_str(fs: Seq<(Seq<char>, JsonData)>, key: Seq<char>) -> Result<
    Seq<char>,
    DecodeError,
> {
    match spec_lookup(fs, key) {
        Some(JsonData::Str(s)) => Ok(s),
        _ => Err(DecodeError::MalformedBody),
    }
}

/// The boolean a field holds.
pub open spec fn spec_get_bool(fs: Seq<(Seq<char>, JsonData)>, key: Seq<char>) -> Result<
    bool,
    DecodeError,
> {
    match spec_lookup(fs, key) {
        Some(JsonData::Bool(b)) => Ok(b),
        _ => Err(DecodeError::MalformedBody),
    }
}

/// The integer a field holds.
pub open spec fn spec_get_int(fs: Seq<(Seq<char>, JsonData)>, key: Seq<char>) -> Result<
    int,
    DecodeError,
> {
    match spec_lookup(fs, key) {
        Some(JsonData::Int(v)) => Ok(v),
        _ => Err(DecodeError::MalformedBody),
    }
}

/// The string a nullable field holds, `None` for an explicit null.
pub open spec fn spec_get_opt_str(fs: Seq<(Seq<char>, JsonData)>, key: Seq<char>) -> Result<
    Option<Seq<char>>,
    DecodeError,
> {
    match spec_lookup(fs, key) {
        Some(JsonData::Null) => Ok(None),
        Some(JsonData::Str(s)) => Ok(Some(s)),
        _ => Err(DecodeError::MalformedBody),
    }
}

/// The decimal a field holds as a wire string.
pub open spec fn spec_get_decimal(fs: Seq<(Seq<char>, JsonData)>, key: Seq<char>) -> Result<
    Decimal,
    DecodeError,
> {
    match spec_lookup(fs, key) {
        Some(JsonData::Str(s)) => match spec_decode(s) {
            Some(d) => Ok(d),
            None => Err(DecodeError::MalformedNumber),
        },
        _ => Err(DecodeError::MalformedBody),
    }
}

/// The decimal a nullable field holds, `None` for an explicit null.
pub open spec fn spec_get_opt_decimal(fs: Seq<(Seq<char>, JsonData)>, key: Seq<char>) -> Result<
    Option<Decimal>,
    DecodeError,
> {
    match spec_lookup(fs, key) {
        Some(JsonData::Null) => Ok(None),
        Some(JsonData::Str(s)) => match spec_decode(s) {
            Some(d) => Ok(Some(d)),
            None => Err(DecodeError::MalformedNumber),
        },
        _ => Err(DecodeError::MalformedBody),
    }
}

/// Reads a decimal field sent as a wire string.
pub fn get_decimal(fields: &Vec<(String, JsonValue)>, key: &str) -> (r: Result<
    Decimal,
    DecodeError,
>)
    ensures
        r == spec_get_decimal(fields_view(fields@), key@),
        r matches Ok(d) ==> d.wf(),
{
    match obj_lookup(fields, key) {
        Some(v) => match v {
            JsonValue::Str(s) => Decimal::decode(s.as_str()),
            _ => Err(DecodeError::MalformedBody),
        },
        None => Err(DecodeError::MalformedBody),
    }
}

/// Reads a nullable decimal field, `None` for an explicit null.
pub fn get_opt_decimal(fields: &Vec<(String, JsonValue)>, key: &str) -> (r: Result<
    Option<Decimal>,
    DecodeError,
>)
    ensures
        r == spec_get_opt_decimal(fields_view(fields@), key@),
        r matches Ok(d) ==> (d matches Some(dd) ==> dd.wf()),
{
    match obj_lookup(fields, key) {
        Some(v) => match v {
            JsonValue::Null => Ok(None),
            JsonValue::Str(s) => match Decimal::decode(s.as_str()) {
                Ok(d) => Ok(Some(d)),
                Err(e) => Err(e),
            },
            _ => Err(DecodeError::MalformedBody),
        },
        None => Err(DecodeError::MalformedBody),
    }
}

/// Reads a string field.
pub fn get_str(fields: &Vec<(String, JsonValue)>, key: &str) -> (r: Result<String, DecodeError>)
    ensures
        match spec_get_str(fields_view(fields@), key@) {
            Ok(s) => r matches Ok(rs) && rs@ == s,
            Err(e) => r matches Err(re) && re == e,
        },
{
    match obj_lookup(fields, key) {
        Some(v) => match v {
            JsonValue::Str(s) => Ok(s.clone()),
            _ => Err(DecodeError::MalformedBody),
        },
        None => Err(DecodeError::MalformedBody),
    }
}

/// Reads a boolean field.
pub fn get_bool(fields: &Vec<(String, JsonValue)>, key: &str) -> (r: Result<bool, DecodeError>)
    ensures
        match spec_get_bool(fields_view(fields@), key@) {
            Ok(b) => r matches Ok(rb) && rb == b,
            Err(e) => r matches Err(re) && re == e,
        },
{
    match obj_lookup(fields, key) {
        Some(v) => match v {
            JsonValue::Bool(b) => Ok(*b),
            _ => Err(DecodeError::MalformedBody),
        },
        None => Err(DecodeError::MalformedBody),
    }
}

/// Reads an integer field.
pub fn get_int(fields: &Vec<(String, JsonValue)>, key: &str) -> (r: Result<i64, DecodeError>)
    ensures
        match spec_get_int(fields_view(fields@), key@) {
            Ok(v) => r matches Ok(rv) && rv == v,
            Err(e) => r matches Err(re) && re == e,
        },
{
    match obj_lookup(fields, key) {
        Some(v) => match v {
            JsonValue::Int(n) => Ok(*n),
            _ => Err(DecodeError::MalformedBody),
        },
        None => Err(DecodeError::MalformedBody),
    }
}

/// Reads a nullable string field.
pub fn get_opt_str(fields: &Vec<(String, JsonValue)>, key: &str) -> (r: Result<
    Option<String>,
    DecodeError,
>)
    ensures
        match spec_get_opt_str(fields_view(fields@), key@) {
            Ok(s) => r matches Ok(rs) && (match rs {
                Some(x) => s matches Some(sx) && x@ == sx,
                None => s is None,
            }),
            Err(e) => r matches Err(re) && re == e,
        },
{
    match obj_lookup(fields, key) {
        Some(v) => match v {
            JsonValue::Null => Ok(None),
            JsonValue::Str(s) => Ok(Some(s.clone())),
            _ => Err(DecodeError::MalformedBody),
        },
        None => Err(DecodeError::MalformedBody),
    }
}

} // verus!
