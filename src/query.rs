//! Query text: wrapper-call rewriting, and the conversion of tagged marker
//! strings into typed scalar values.
use vstd::prelude::*;

verus! {

/// A query value: the closed set of kinds that a filter document is built of.
/// A `Double` holds the IEEE-754 bit pattern of the number.
#[derive(Debug, PartialEq, Eq)]
pub enum QueryValue {
    Null,
    Bool(bool),
    Int32(i32),
    Int64(i64),
    Double(u64),
    String(String),
    Array(Vec<QueryValue>),
    Document(Vec<(String, QueryValue)>),
    DateTime(i64),
    ObjectId([u8; 12]),
    Decimal128([u8; 16]),
}

/// The mathematical model of a `QueryValue`.
pub enum ValueModel {
    Null,
    Bool(bool),
    Int32(i32),
    Int64(i64),
    Double(u64),
    Text(Seq<char>),
    Array(Seq<ValueModel>),
    Document(Seq<(Seq<char>, ValueModel)>),
    DateTime(i64),
    ObjectId(Seq<u8>),
    Decimal128(Seq<u8>),
}

pub open spec fn model_of(v: QueryValue) -> ValueModel
    decreases v,
{
    match v {
        QueryValue::Null => ValueModel::Null,
        QueryValue::Bool(b) => ValueModel::Bool(b),
        QueryValue::Int32(n) => ValueModel::Int32(n),
        QueryValue::Int64(n) => ValueModel::Int64(n),
        QueryValue::Double(bits) => ValueModel::Double(bits),
        QueryValue::String(s) => ValueModel::Text(s@),
        QueryValue::Array(items) => ValueModel::Array(items_model(items@)),
        QueryValue::Document(fields) => ValueModel::Document(fields_model(fields@)),
        QueryValue::DateTime(ms) => ValueModel::DateTime(ms),
        QueryValue::ObjectId(b) => ValueModel::ObjectId(b@),
        QueryValue::Decimal128(b) => ValueModel::Decimal128(b@),
    }
}

pub open spec fn items_model(s: Seq<QueryValue>) -> Seq<ValueModel>
    decreases s,
{
    if s.len() == 0 {
        Seq::empty()
    } else {
        items_model(s.subrange(0, s.len() - 1)).push(model_of(s[s.len() - 1]))
    }
}

pub open spec fn fields_model(s: Seq<(String, QueryValue)>) -> Seq<(Seq<char>, ValueModel)>
    decreases s,
{
    if s.len() == 0 {
        Seq::empty()
    } else {
        fields_model(s.subrange(0, s.len() - 1)).push(
            (s[s.len() - 1].0@, model_of(s[s.len() - 1].1)),
        )
    }
}

} // verus!

verus! {

/// A filter document: its fields in order.
pub type Document = Vec<(String, QueryValue)>;

pub open spec fn date_tag() -> Seq<char> {
    seq!['I', 'S', 'O', 'D', 'a', 't', 'e']
}

pub open spec fn object_id_tag() -> Seq<char> {
    seq!['O', 'b', 'j', 'e', 'c', 't', 'I', 'd']
}

pub open spec fn decimal_tag() -> Seq<char> {
    seq!['N', 'u', 'm', 'b', 'e', 'r', 'D', 'e', 'c', 'i', 'm', 'a', 'l']
}

/// The text between `name(` at the start of `s` and a `)` that ends it.
pub open spec fn wrapper_payload(s: Seq<char>, name: Seq<char>) -> Option<Seq<char>> {
    if name.len() + 2 <= s.len() && s.subrange(0, name.len() as int) == name && s[name.len() as int]
        == '(' && s[s.len() - 1] == ')' {
        Some(s.subrange(name.len() + 1int, s.len() - 1))
    } else {
        None
    }
}

pub open spec fn is_hex_digit(c: char) -> bool {
    ('0' as u32 <= c as u32 <= '9' as u32) || ('a' as u32 <= c as u32 <= 'f' as u32) || (
    'A' as u32 <= c as u32 <= 'F' as u32)
}

pub open spec fn hex_value(c: char) -> int {
    if '0' as u32 <= c as u32 <= '9' as u32 {
        c as u32 - '0' as u32
    } else if 'a' as u32 <= c as u32 <= 'f' as u32 {
        c as u32 - 'a' as u32 + 10
    } else {
        c as u32 - 'A' as u32 + 10
    }
}

/// The twelve bytes that a text of exactly 24 hexadecimal digits spells.
pub open spec fn object_id_of(s: Seq<char>) -> Option<Seq<u8>> {
    if s.len() == 24 && forall|i: int| 0 <= i < 24 ==> is_hex_digit(#[trigger] s[i]) {
        Some(Seq::new(12, |i: int| (hex_value(s[2 * i]) * 16 + hex_value(s[2 * i + 1])) as u8))
    } else {
        None
    }
}

/// The instant that an RFC 3339 timestamp denotes, in milliseconds since the epoch.
pub uninterp spec fn rfc3339_millis_of(s: Seq<char>) -> Option<i64>;

/// The 128-bit decimal encoding of a decimal number's text.
pub uninterp spec fn decimal128_of(s: Seq<char>) -> Option<Seq<u8>>;

/// What a string leaf becomes: a marker whose payload parses becomes the typed
/// value, anything else stays the same string.
pub open spec fn convert_text(s: Seq<char>) -> ValueModel {
    if let Some(p) = wrapper_payload(s, date_tag()) {
        match rfc3339_millis_of(p) {
            Some(ms) => ValueModel::DateTime(ms),
            None => ValueModel::Text(s),
        }
    } else if let Some(p) = wrapper_payload(s, object_id_tag()) {
        match object_id_of(p) {
            Some(b) => ValueModel::ObjectId(b),
            None => ValueModel::Text(s),
        }
    } else if let Some(p) = wrapper_payload(s, decimal_tag()) {
        match decimal128_of(p) {
            Some(b) => ValueModel::Decimal128(b),
            None => ValueModel::Text(s),
        }
    } else {
        ValueModel::Text(s)
    }
}

pub open spec fn convert_model(m: ValueModel) -> ValueModel
    decreases m,
{
    match m {
        ValueModel::Text(s) => convert_text(s),
        ValueModel::Array(items) => ValueModel::Array(convert_items(items)),
        ValueModel::Document(fields) => ValueModel::Document(convert_fields(fields)),
        _ => m,
    }
}

pub open spec fn convert_items(s: Seq<ValueModel>) -> Seq<ValueModel>
    decreases s,
{
    if s.len() == 0 {
        Seq::empty()
    } else {
        convert_items(s.subrange(0, s.len() - 1)).push(convert_model(s[s.len() - 1]))
    }
}

pub open spec fn convert_fields(s: Seq<(Seq<char>, ValueModel)>) -> Seq<(Seq<char>, ValueModel)>
    decreases s,
{
    if s.len() == 0 {
        Seq::empty()
    } else {
        convert_fields(s.subrange(0, s.len() - 1)).push(
            (s[s.len() - 1].0, convert_model(s[s.len() - 1].1)),
        )
    }
}

/// Relies on `bson::DateTime::parse_rfc3339_str` and `DateTime::timestamp_millis`:
/// the instant of an RFC 3339 timestamp, or `None` where the text is not one.
#[verifier::external_body]
fn parse_rfc3339_millis(s: &str) -> (r: Option<i64>)
    ensures
        r == rfc3339_millis_of(s@),
{
    match mongodb::bson::DateTime::parse_rfc3339_str(s) {
        Ok(dt) => Some(dt.timestamp_millis()),
        Err(_) => None,
    }
}

/// Relies on `bson::oid::ObjectId::parse_str` and `ObjectId::bytes`: it hex-decodes
/// the text and accepts exactly twelve bytes.
#[verifier::external_body]
fn parse_object_id(s: &str) -> (r: Option<[u8; 12]>)
    ensures
        match r {
            Some(b) => object_id_of(s@) == Some(b@),
            None => object_id_of(s@) is None,
        },
{
    match mongodb::bson::oid::ObjectId::parse_str(s) {
        Ok(oid) => Some(oid.bytes()),
        Err(_) => None,
    }
}

/// Relies on `bson::Decimal128`'s `FromStr` and `Decimal128::bytes`: the decimal
/// encoding of a number's text, or `None` where it is not one.
#[verifier::external_body]
fn parse_decimal128(s: &str) -> (r: Option<[u8; 16]>)
    ensures
        match r {
            Some(b) => decimal128_of(s@) == Some(b@),
            None => decimal128_of(s@) is None,
        },
{
    match s.parse::<mongodb::bson::Decimal128>() {
        Ok(d) => Some(d.bytes()),
        Err(_) => None,
    }
}

/// The content of `s` between `method_name(` at its start and the `)` that ends
/// it, or `None` where `s` is not written so.
pub fn parse_special_wrapper<'a>(s: &'a str, method_name: &str) -> (r: Option<&'a str>)
    ensures
        match wrapper_payload(s@, method_name@) {
            Some(p) => r is Some && r->0@ == p,
            None => r is None,
        },
{
    let n = s.unicode_len();
    let m = method_name.unicode_len();
    if n < 2 || m > n - 2 {
        return None;
    }
    let mut k: usize = 0;
    while k < m
        invariant
            m as nat == method_name@.len(),
            n as nat == s@.len(),
            m + 2 <= n,
            k <= m,
            forall|j: int| 0 <= j < k ==> s@[j] == method_name@[j],
        decreases m - k,
    {
        if s.get_char(k) != method_name.get_char(k) {
            assert(s@.subrange(0, m as int)[k as int] != method_name@[k as int]);
            return None;
        }
        k = k + 1;
    }
    assert(s@.subrange(0, m as int) =~= method_name@);
    if s.get_char(m) != '(' || s.get_char(n - 1) != ')' {
        return None;
    }
    Some(s.substring_char(m + 1, n - 1))
}

} // verus!

verus! {

proof fn lemma_items_push(s: Seq<QueryValue>, x: QueryValue)
    ensures
        items_model(s.push(x)) == items_model(s).push(model_of(x)),
{
    assert(s.push(x).subrange(0, s.len() as int) =~= s);
}

proof fn lemma_fields_push(s: Seq<(String, QueryValue)>, x: (String, QueryValue))
    ensures
        fields_model(s.push(x)) == fields_model(s).push((x.0@, model_of(x.1))),
{
    assert(s.push(x).subrange(0, s.len() as int) =~= s);
}

/// Converts a string leaf: a marker whose payload its type's parser accepts
/// becomes that typed value; anything else stays the same string.
fn convert_string(s: String) -> (r: QueryValue)
    ensures
        model_of(r) == convert_text(s@),
{
    proof {
        reveal_strlit("ISODate");
        reveal_strlit("ObjectId");
        reveal_strlit("NumberDecimal");
    }
    assert("ISODate"@ =~= date_tag());
    assert("ObjectId"@ =~= object_id_tag());
    assert("NumberDecimal"@ =~= decimal_tag());
    if let Some(date_str) = parse_special_wrapper(s.as_str(), "ISODate") {
        match parse_rfc3339_millis(date_str) {
            Some(ms) => QueryValue::DateTime(ms),
            None => QueryValue::String(s),
        }
    } else if let Some(oid_str) = parse_special_wrapper(s.as_str(), "ObjectId") {
        match parse_object_id(oid_str) {
            Some(b) => QueryValue::ObjectId(b),
            None => QueryValue::String(s),
        }
    } else if let Some(nd_str) = parse_special_wrapper(s.as_str(), "NumberDecimal") {
        match parse_decimal128(nd_str) {
            Some(b) => QueryValue::Decimal128(b),
            None => QueryValue::String(s),
        }
    } else {
        QueryValue::String(s)
    }
}

/// Converts every value of a document, keeping its keys and their order.
pub fn convert_document(doc: Document) -> (r: Document)
    ensures
        fields_model(r@) == convert_fields(fields_model(doc@)),
    decreases doc,
{
    let ghost orig = doc;
    let ghost len = doc@.len();
    assert(doc@.len() == doc.len());
    let mut rest = doc;
    let mut out: Document = Vec::new();
    let mut k: usize = 0;
    while rest.len() > 0
        invariant
            orig == doc,
            len == orig@.len(),
            len <= usize::MAX,
            k <= len,
            rest@ == orig@.subrange(k as int, len as int),
            fields_model(out@) == convert_fields(fields_model(orig@.subrange(0, k as int))),
        decreases rest.len(),
    {
        let (key, value) = rest.remove(0);
        proof {
            assert(orig@[k as int] == (key, value));
            assert(decreases_to!(orig => orig@[k as int].1));
        }
        let converted = convert_value(value);
        let ghost before = out@;
        out.push((key, converted));
        proof {
            lemma_fields_push(before, (key, converted));
            let pre = orig@.subrange(0, k as int);
            assert(orig@.subrange(0, k + 1) =~= pre.push((key, value)));
            lemma_fields_push(pre, (key, value));
            let fm = fields_model(pre.push((key, value)));
            assert(fm.subrange(0, fm.len() - 1) =~= fields_model(pre));
        }
        k = k + 1;
    }
    proof {
        assert(orig@.subrange(0, len as int) =~= orig@);
    }
    out
}

/// Converts a value: documents and arrays are walked, each string that is a
/// marker with a payload its type accepts becomes that typed value, and every
/// other value stays as it is.
pub fn convert_value(value: QueryValue) -> (r: QueryValue)
    ensures
        model_of(r) == convert_model(model_of(value)),
    decreases value,
{
    match value {
        QueryValue::Document(doc) => QueryValue::Document(convert_document(doc)),
        QueryValue::Array(arr) => {
            let ghost orig = arr;
            let ghost len = arr@.len();
            assert(arr@.len() == arr.len());
            let mut rest = arr;
            let mut out: Vec<QueryValue> = Vec::new();
            let mut k: usize = 0;
            while rest.len() > 0
                invariant
                    value == QueryValue::Array(orig),
                    len == orig@.len(),
                    len <= usize::MAX,
                    k <= len,
                    rest@ == orig@.subrange(k as int, len as int),
                    items_model(out@) == convert_items(items_model(orig@.subrange(0, k as int))),
                decreases rest.len(),
            {
                let item = rest.remove(0);
                proof {
                    assert(orig@[k as int] == item);
                    assert(decreases_to!(orig => orig@));
                    assert(decreases_to!(orig@ => orig@[k as int]));
                    assert(decreases_to!(value => value->Array_0));
                }
                let converted = convert_value(item);
                let ghost before = out@;
                out.push(converted);
                proof {
                    lemma_items_push(before, converted);
                    let pre = orig@.subrange(0, k as int);
                    assert(orig@.subrange(0, k + 1) =~= pre.push(item));
                    lemma_items_push(pre, item);
                    let im = items_model(pre.push(item));
                    assert(im.subrange(0, im.len() - 1) =~= items_model(pre));
                }
                k = k + 1;
            }
            proof {
                assert(orig@.subrange(0, len as int) =~= orig@);
            }
            QueryValue::Array(out)
        },
        QueryValue::String(s) => convert_string(s),
        other => other,
    }
}

} // verus!

verus! {

pub open spec fn is_quote(c: char) -> bool {
    c == '"' || c == '\''
}

/// The index of the first quote at or after `j`, or the length of `s` where
/// there is none.
pub open spec fn next_quote(s: Seq<char>, j: int) -> int
    decreases s.len() - j,
{
    if j < 0 || j >= s.len() {
        s.len() as int
    } else if is_quote(s[j]) {
        j
    } else {
        next_quote(s, j + 1)
    }
}

pub open spec fn occurs_at(s: Seq<char>, i: int, n: Seq<char>) -> bool {
    0 <= i && i + n.len() <= s.len() && s.subrange(i, i + n.len()) == n
}

/// The supported wrapper name that starts at `i`, if any.
pub open spec fn name_at(s: Seq<char>, i: int) -> Option<Seq<char>> {
    if occurs_at(s, i, date_tag()) {
        Some(date_tag())
    } else if occurs_at(s, i, object_id_tag()) {
        Some(object_id_tag())
    } else if occurs_at(s, i, decimal_tag()) {
        Some(decimal_tag())
    } else {
        None
    }
}

/// A wrapper call `name('content')` (either quote, non-empty content without
/// quotes) that starts at `i`: its name and the index of its closing quote.
pub open spec fn call_at(s: Seq<char>, i: int) -> Option<(Seq<char>, int)> {
    match name_at(s, i) {
        Some(n) => {
            let c = i + n.len() + 2;
            let e = next_quote(s, c);
            if i + n.len() + 1 < s.len() && s[i + n.len()] == '(' && is_quote(s[i + n.len() + 1])
                && e > c && e + 1 < s.len() && s[e + 1] == ')' {
                Some((n, e))
            } else {
                None
            }
        },
        None => None,
    }
}

/// The text from `i` on with each wrapper call `name('content')` rewritten,
/// scanning left to right, into the string literal `"name(content)"`.
pub open spec fn rewrite_from(s: Seq<char>, i: int) -> Seq<char>
    decreases s.len() - i,
{
    if i < 0 || i >= s.len() {
        Seq::empty()
    } else {
        match call_at(s, i) {
            Some((n, e)) => {
                if e + 2 > i {
                    seq!['"'] + n + seq!['('] + s.subrange(i + n.len() + 2, e) + seq![')', '"']
                        + rewrite_from(s, e + 2)
                } else {
                    Seq::empty()
                }
            },
            None => seq![s[i]] + rewrite_from(s, i + 1),
        }
    }
}

pub open spec fn rewritten(s: Seq<char>) -> Seq<char> {
    rewrite_from(s, 0)
}

proof fn lemma_next_quote_bounds(s: Seq<char>, j: int)
    requires
        0 <= j <= s.len(),
    ensures
        j <= next_quote(s, j) <= s.len(),
        next_quote(s, j) < s.len() ==> is_quote(s[next_quote(s, j)]),
        forall|k: int| j <= k < next_quote(s, j) ==> !is_quote(#[trigger] s[k]),
    decreases s.len() - j,
{
    if j < s.len() && !is_quote(s[j]) {
        lemma_next_quote_bounds(s, j + 1);
    }
}

/// Relies on `String`'s `FromIterator<char>`: the string of the given characters.
#[verifier::external_body]
pub(crate) fn string_from_chars(v: Vec<char>) -> (r: String)
    ensures
        r@ == v@,
{
    String::from_iter(v)
}

pub(crate) fn chars_of(s: &str) -> (r: Vec<char>)
    ensures
        r@ == s@,
{
    let n = s.unicode_len();
    let mut out: Vec<char> = Vec::new();
    let mut k: usize = 0;
    while k < n
        invariant
            n as nat == s@.len(),
            k <= n,
            out@ == s@.subrange(0, k as int),
        decreases n - k,
    {
        out.push(s.get_char(k));
        k = k + 1;
        assert(out@ =~= s@.subrange(0, k as int));
    }
    assert(out@ =~= s@);
    out
}

fn occurs_at_exec(chars: &Vec<char>, i: usize, name: &str) -> (r: bool)
    ensures
        r == occurs_at(chars@, i as int, name@),
{
    let n = chars.len();
    let m = name.unicode_len();
    if i > n || m > n - i {
        return false;
    }
    let mut k: usize = 0;
    while k < m
        invariant
            n == chars@.len(),
            m as nat == name@.len(),
            i + m <= n,
            k <= m,
            forall|j: int| 0 <= j < k ==> chars@[i + j] == name@[j],
        decreases m - k,
    {
        if chars[i + k] != name.get_char(k) {
            assert(chars@.subrange(i as int, i + m)[k as int] != name@[k as int]);
            return false;
        }
        k = k + 1;
    }
    assert(chars@.subrange(i as int, i + m) =~= name@);
    true
}

/// The call that starts at `i`: the length of its name and the index of its
/// closing quote.
fn call_at_exec(chars: &Vec<char>, i: usize) -> (r: Option<(usize, usize)>)
    requires
        i < chars@.len(),
    ensures
        match call_at(chars@, i as int) {
            Some((n, e)) => r == Some((n.len() as usize, e as usize)),
            None => r is None,
        },
{
    proof {
        reveal_strlit("ISODate");
        reveal_strlit("ObjectId");
        reveal_strlit("NumberDecimal");
    }
    assert("ISODate"@ =~= date_tag());
    assert("ObjectId"@ =~= object_id_tag());
    assert("NumberDecimal"@ =~= decimal_tag());
    let len = chars.len();
    let name_len: usize = if occurs_at_exec(chars, i, "ISODate") {
        7
    } else if occurs_at_exec(chars, i, "ObjectId") {
        8
    } else if occurs_at_exec(chars, i, "NumberDecimal") {
        13
    } else {
        return None;
    };
    assert(name_at(chars@, i as int) is Some);
    assert(name_at(chars@, i as int)->0.len() == name_len);
    if name_len + 1 >= len - i {
        return None;
    }
    let open_at = i + name_len;
    if chars[open_at] != '(' || (chars[open_at + 1] != '"' && chars[open_at + 1] != '\'') {
        return None;
    }
    let c = open_at + 2;
    let mut e = c;
    proof {
        lemma_next_quote_bounds(chars@, c as int);
    }
    while e < len && chars[e] != '"' && chars[e] != '\''
        invariant
            len == chars@.len(),
            c <= e <= len,
            next_quote(chars@, e as int) == next_quote(chars@, c as int),
        decreases len - e,
    {
        e = e + 1;
    }
    assert(next_quote(chars@, e as int) == e);
    if e == c || e >= len - 1 || chars[e + 1] != ')' {
        return None;
    }
    Some((name_len, e))
}

fn push_range(out: &mut Vec<char>, chars: &Vec<char>, from: usize, to: usize)
    requires
        from <= to <= chars@.len(),
    ensures
        final(out)@ == old(out)@ + chars@.subrange(from as int, to as int),
{
    let mut k = from;
    while k < to
        invariant
            from <= k <= to,
            to <= chars@.len(),
            out@ == old(out)@ + chars@.subrange(from as int, k as int),
        decreases to - k,
    {
        out.push(chars[k]);
        k = k + 1;
        assert(out@ =~= old(out)@ + chars@.subrange(from as int, k as int));
    }
}

/// Rewrites each wrapper call `ISODate('…')`, `ObjectId('…')` or
/// `NumberDecimal('…')` into the string literal `"ISODate(…)"` (and so on), so
/// that the call survives lenient parsing as a marker string. All other text is
/// kept as it is.
pub fn preprocess_query(query: &str) -> (r: String)
    ensures
        r@ == rewritten(query@),
{
    let chars = chars_of(query);
    let len = chars.len();
    let mut out: Vec<char> = Vec::new();
    let mut i: usize = 0;
    while i < len
        invariant
            len == chars@.len(),
            chars@ == query@,
            i <= len,
            out@ + rewrite_from(chars@, i as int) == rewrite_from(chars@, 0),
        decreases len - i,
    {
        let ghost s = chars@;
        let ghost before = out@;
        match call_at_exec(&chars, i) {
            Some((name_len, e)) => {
                let ghost n = (call_at(s, i as int)->0).0;
                proof {
                    lemma_next_quote_bounds(s, i + name_len + 2);
                }
                out.push('"');
                push_range(&mut out, &chars, i, i + name_len);
                out.push('(');
                push_range(&mut out, &chars, i + name_len + 2, e);
                out.push(')');
                out.push('"');
                proof {
                    assert(s.subrange(i as int, i + name_len) == n);
                    assert(out@ =~= before + (seq!['"'] + n + seq!['('] + s.subrange(
                        i + n.len() + 2,
                        e as int,
                    ) + seq![')', '"']));
                    assert(out@ + rewrite_from(s, e + 2) =~= before + rewrite_from(s, i as int));
                }
                i = e + 2;
            },
            None => {
                out.push(chars[i]);
                proof {
                    assert(out@ + rewrite_from(s, i + 1) =~= before + rewrite_from(s, i as int));
                }
                i = i + 1;
            },
        }
    }
    assert(out@ =~= rewrite_from(chars@, 0));
    string_from_chars(out)
}

} // verus!

verus! {

/// A marker string: text that one of the supported wrapper names wraps.
pub open spec fn is_marker(s: Seq<char>) -> bool {
    wrapper_payload(s, date_tag()) is Some || wrapper_payload(s, object_id_tag()) is Some
        || wrapper_payload(s, decimal_tag()) is Some
}

/// No string anywhere in the value is a marker.
pub open spec fn has_no_markers(m: ValueModel) -> bool
    decreases m,
{
    match m {
        ValueModel::Text(s) => !is_marker(s),
        ValueModel::Array(items) => forall|i: int|
            0 <= i < items.len() ==> has_no_markers(#[trigger] items[i]),
        ValueModel::Document(fields) => forall|i: int|
            0 <= i < fields.len() ==> has_no_markers(#[trigger] fields[i].1),
        _ => true,
    }
}

/// The text `name("payload")` of a wrapper call.
pub open spec fn call_text(name: Seq<char>, payload: Seq<char>) -> Seq<char> {
    name + seq!['(', '"'] + payload + seq!['"', ')']
}

/// The marker `name(payload)` that a wrapper call is rewritten into.
pub open spec fn marker_text(name: Seq<char>, payload: Seq<char>) -> Seq<char> {
    name + seq!['('] + payload + seq![')']
}

pub open spec fn is_supported_name(name: Seq<char>) -> bool {
    name == date_tag() || name == object_id_tag() || name == decimal_tag()
}

/// Conversion walks arrays element by element.
pub proof fn lemma_convert_items_pointwise(s: Seq<ValueModel>)
    ensures
        convert_items(s).len() == s.len(),
        forall|i: int| 0 <= i < s.len() ==> #[trigger] convert_items(s)[i] == convert_model(s[i]),
    decreases s.len(),
{
    if s.len() > 0 {
        lemma_convert_items_pointwise(s.subrange(0, s.len() - 1));
    }
}

/// Conversion keeps each document key and its place, converting the value there.
pub proof fn lemma_convert_fields_pointwise(s: Seq<(Seq<char>, ValueModel)>)
    ensures
        convert_fields(s).len() == s.len(),
        forall|i: int|
            0 <= i < s.len() ==> #[trigger] convert_fields(s)[i] == (s[i].0, convert_model(s[i].1)),
    decreases s.len(),
{
    if s.len() > 0 {
        lemma_convert_fields_pointwise(s.subrange(0, s.len() - 1));
    }
}

/// A value without marker strings converts to itself, so converting it is
/// idempotent.
pub proof fn lemma_convert_without_markers(m: ValueModel)
    requires
        has_no_markers(m),
    ensures
        convert_model(m) == m,
        convert_model(convert_model(m)) == convert_model(m),
    decreases m,
{
    match m {
        ValueModel::Array(items) => {
            lemma_convert_items_pointwise(items);
            assert forall|i: int| 0 <= i < items.len() implies convert_model(items[i])
                == items[i] by {
                lemma_convert_without_markers(items[i]);
            }
            assert(convert_items(items) =~= items);
        },
        ValueModel::Document(fields) => {
            lemma_convert_fields_pointwise(fields);
            assert forall|i: int| 0 <= i < fields.len() implies convert_fields(fields)[i]
                == fields[i] by {
                lemma_convert_without_markers(fields[i].1);
            }
            assert(convert_fields(fields) =~= fields);
        },
        _ => {},
    }
}

/// Converting twice gives what converting once gives, for every value.
pub proof fn lemma_convert_idempotent(m: ValueModel)
    ensures
        convert_model(convert_model(m)) == convert_model(m),
    decreases m,
{
    match m {
        ValueModel::Array(items) => {
            let once = convert_items(items);
            lemma_convert_items_pointwise(items);
            lemma_convert_items_pointwise(once);
            assert forall|i: int| 0 <= i < once.len() implies #[trigger] convert_items(once)[i]
                == once[i] by {
                lemma_convert_idempotent(items[i]);
            }
            assert(convert_items(once) =~= once);
        },
        ValueModel::Document(fields) => {
            let once = convert_fields(fields);
            lemma_convert_fields_pointwise(fields);
            lemma_convert_fields_pointwise(once);
            assert forall|i: int| 0 <= i < once.len() implies #[trigger] convert_fields(once)[i]
                == once[i] by {
                lemma_convert_idempotent(fields[i].1);
            }
            assert(convert_fields(once) =~= once);
        },
        _ => {},
    }
}

/// Text in which no supported wrapper call occurs (in particular text whose
/// wrapper names are all unsupported) passes through the rewrite unchanged.
pub proof fn lemma_rewrite_keeps_plain_text(s: Seq<char>)
    requires
        forall|i: int| 0 <= i < s.len() ==> #[trigger] call_at(s, i) is None,
    ensures
        rewritten(s) == s,
{
    lemma_rewrite_from_plain(s, 0);
    assert(s.subrange(0, s.len() as int) =~= s);
}

proof fn lemma_rewrite_from_plain(s: Seq<char>, i: int)
    requires
        0 <= i <= s.len(),
        forall|j: int| 0 <= j < s.len() ==> #[trigger] call_at(s, j) is None,
    ensures
        rewrite_from(s, i) == s.subrange(i, s.len() as int),
    decreases s.len() - i,
{
    if i < s.len() {
        assert(call_at(s, i) is None);
        lemma_rewrite_from_plain(s, i + 1);
        assert(seq![s[i]] + s.subrange(i + 1, s.len() as int) =~= s.subrange(i, s.len() as int));
    }
}

/// A wrapper call with a supported name and a payload without quotes is
/// rewritten into the quoted marker `"name(payload)"`, and that marker converts
/// to what the type's own parser makes of the payload (a date's instant, an
/// identifier's bytes, a decimal's encoding); where the parser refuses the
/// payload the marker stays a string.
pub proof fn lemma_wrapper_round_trip(name: Seq<char>, payload: Seq<char>)
    requires
        is_supported_name(name),
        payload.len() > 0,
        forall|i: int| 0 <= i < payload.len() ==> !is_quote(#[trigger] payload[i]),
    ensures
        rewritten(call_text(name, payload)) == seq!['"'] + marker_text(name, payload) + seq!['"'],
        name == date_tag() ==> convert_text(marker_text(name, payload)) == match rfc3339_millis_of(
            payload,
        ) {
            Some(ms) => ValueModel::DateTime(ms),
            None => ValueModel::Text(marker_text(name, payload)),
        },
        name == object_id_tag() ==> convert_text(marker_text(name, payload)) == match object_id_of(
            payload,
        ) {
            Some(b) => ValueModel::ObjectId(b),
            None => ValueModel::Text(marker_text(name, payload)),
        },
        name == decimal_tag() ==> convert_text(marker_text(name, payload)) == match decimal128_of(
            payload,
        ) {
            Some(b) => ValueModel::Decimal128(b),
            None => ValueModel::Text(marker_text(name, payload)),
        },
{
    let s = call_text(name, payload);
    let t = marker_text(name, payload);
    let n = name.len() as int;
    let c = n + 2;
    let e = c + payload.len();
    assert(s.subrange(0, n) =~= name);
    assert(s[n] == '(');
    assert(s[n + 1] == '"');
    assert(forall|k: int| c <= k < e ==> s[k] == payload[k - c]);
    assert(s[e] == '"');
    assert(s[e + 1] == ')');
    assert(s.len() == e + 2);
    assert(next_quote(s, c) == e) by {
        lemma_next_quote_bounds(s, c);
        if next_quote(s, c) < e {
            assert(s[next_quote(s, c)] == payload[next_quote(s, c) - c]);
        }
    }
    assert(name_at(s, 0) == Some(name)) by {
        if name == object_id_tag() {
            assert(s.subrange(0, 7)[0] != date_tag()[0]);
        } else if name == decimal_tag() {
            assert(s.subrange(0, 7)[0] != date_tag()[0]);
            assert(s.subrange(0, 8)[0] != object_id_tag()[0]);
        }
    }
    assert(call_at(s, 0) == Some((name, e)));
    assert(rewrite_from(s, e + 2) == Seq::<char>::empty());
    assert(s.subrange(n + 2, e) =~= payload);
    assert(rewritten(s) =~= seq!['"'] + t + seq!['"']);
    assert(t.subrange(0, n) =~= name);
    assert(t.subrange(n + 1, t.len() - 1) =~= payload);
    if name != date_tag() {
        assert(t.subrange(0, 7)[0] != date_tag()[0]);
    }
    if name == decimal_tag() {
        assert(t.subrange(0, 8)[0] != object_id_tag()[0]);
    }
}

/// The value of the first field named `key`.
pub fn document_get<'a>(doc: &'a Document, key: &str) -> (r: Option<&'a QueryValue>)
    ensures
        match r {
            Some(v) => exists|i: int|
                0 <= i < doc@.len() && #[trigger] doc@[i].0@ == key@ && *v == doc@[i].1 && forall|j: int|
                    0 <= j < i ==> doc@[j].0@ != key@,
            None => forall|i: int| 0 <= i < doc@.len() ==> doc@[i].0@ != key@,
        },
{
    let wanted = key.to_owned();
    let mut i: usize = 0;
    while i < doc.len()
        invariant
            wanted@ == key@,
            i <= doc@.len(),
            forall|j: int| 0 <= j < i ==> doc@[j].0@ != key@,
        decreases doc@.len() - i,
    {
        if doc[i].0 == wanted {
            return Some(&doc[i].1);
        }
        i = i + 1;
    }
    None
}

} // verus!
