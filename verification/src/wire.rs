//! The wire: JSON text, read member by member and written piece by piece.
//!
//! On the wire a record is one JSON object. Reading goes through a parsed
//! value, of which a record looks at the members it knows, each by its key;
//! what a member holds is judged here. Writing puts the pieces of the text
//! together here; only the quoting of a string is left to the JSON library.

use vstd::prelude::*;
use vstd::string::StringExecFns;
use crate::error::{Error, ErrorView};
use crate::text::{decimal, decimal_text, opt_view, owned, signed_decimal, signed_text, views};

verus! {

#[verifier::external_type_specification]
#[verifier::external_body]
pub struct ExJsonValue(serde_json::Value);

/// One member of a JSON object, as far as a record looks at it.
#[derive(Debug, Clone)]
pub enum Field {
    /// The object has no member of the key, or the value is no object.
    Absent,
    /// `null`.
    Null,
    /// `true` or `false`.
    Flag(bool),
    /// A number: itself where it is a non-negative integer within 64 bits,
    /// and itself where it is an integer within 64 bits with a sign. A
    /// number with a fraction or an exponent is neither.
    Number(Option<u64>, Option<i64>),
    /// A string.
    Text(String),
    /// An array: each element that is a string by its text, each other
    /// element by `None`.
    List(Vec<Option<String>>),
    /// An object.
    Nested,
}

/// A member as a mathematical value.
pub enum FieldView {
    Absent,
    Null,
    Flag(bool),
    Number(Option<u64>, Option<i64>),
    Text(Seq<char>),
    List(Seq<Option<Seq<char>>>),
    Nested,
}

/// The elements of a list of optional strings, each by its characters.
pub open spec fn opt_views(v: Seq<Option<String>>) -> Seq<Option<Seq<char>>> {
    v.map_values(|o: Option<String>| opt_view(o))
}

impl View for Field {
    type V = FieldView;

    open spec fn view(&self) -> FieldView {
        match *self {
            Field::Absent => FieldView::Absent,
            Field::Null => FieldView::Null,
            Field::Flag(b) => FieldView::Flag(b),
            Field::Number(u, i) => FieldView::Number(u, i),
            Field::Text(s) => FieldView::Text(s@),
            Field::List(l) => FieldView::List(opt_views(l@)),
            Field::Nested => FieldView::Nested,
        }
    }
}

/// What a text holds as JSON: the value, or the parser's message where the
/// text is not well-formed JSON.
pub uninterp spec fn json_of(data: Seq<u8>) -> Result<serde_json::Value, Seq<char>>;

/// The members of a JSON object, by their keys. Empty for a value that is
/// no object.
pub uninterp spec fn members_of(v: serde_json::Value) -> Map<Seq<char>, FieldView>;

/// A string as a JSON string: in double quotes, with its special characters
/// escaped; or the serializer's message where it fails.
pub uninterp spec fn json_string_of(s: Seq<char>) -> Result<Seq<char>, Seq<char>>;

/// The member of the key, and `Absent` where there is none.
pub open spec fn member_at(m: Map<Seq<char>, FieldView>, key: Seq<char>) -> FieldView {
    if m.dom().contains(key) {
        m[key]
    } else {
        FieldView::Absent
    }
}

/// Calls `serde_json::from_slice` for a `Value`, and `to_string` on the
/// error where it fails. The outcome is known only by its name, `json_of`:
/// the grammar of JSON is not restated here.
#[verifier::external_body]
fn parse_json(data: &[u8]) -> (r: Result<serde_json::Value, String>)
    ensures
        match r {
            Ok(v) => json_of(data@) == Ok::<serde_json::Value, Seq<char>>(v),
            Err(text) => json_of(data@) == Err::<serde_json::Value, Seq<char>>(text@),
        },
{
    serde_json::from_slice::<serde_json::Value>(data).map_err(|e| e.to_string())
}

/// Calls `Value::get` with a key and hands out what is found, one variant
/// of `Value` to one variant of `Field`. Of a number it hands out what
/// `Number::as_u64` and `Number::as_i64` give, and of each element of an
/// array what `Value::as_str` gives.
#[verifier::external_body]
fn member(v: &serde_json::Value, key: &str) -> (r: Field)
    ensures
        r@ == member_at(members_of(*v), key@),
{
    match v.get(key) {
        None => Field::Absent,
        Some(serde_json::Value::Null) => Field::Null,
        Some(serde_json::Value::Bool(b)) => Field::Flag(*b),
        Some(serde_json::Value::Number(n)) => Field::Number(n.as_u64(), n.as_i64()),
        Some(serde_json::Value::String(s)) => Field::Text(s.clone()),
        Some(serde_json::Value::Array(a)) => {
            Field::List(a.iter().map(|x| x.as_str().map(String::from)).collect())
        },
        Some(serde_json::Value::Object(_)) => Field::Nested,
    }
}

/// Calls `serde_json::to_string` on a string, and `to_string` on the error
/// where it fails. The outcome is known only by its name, `json_string_of`:
/// the escaping rules of JSON are not restated here.
#[verifier::external_body]
fn quote(s: &str) -> (r: Result<String, String>)
    ensures
        match r {
            Ok(q) => json_string_of(s@) == Ok::<Seq<char>, Seq<char>>(q@),
            Err(text) => json_string_of(s@) == Err::<Seq<char>, Seq<char>>(text@),
        },
{
    serde_json::to_string(s).map_err(|e| e.to_string())
}

/// A parsed record: the JSON value behind it.
pub struct Parsed {
    value: serde_json::Value,
}

impl Parsed {
    /// The members of the record, by their keys.
    pub closed spec fn members(&self) -> Map<Seq<char>, FieldView> {
        members_of(self.value)
    }

    /// The JSON value behind the record.
    pub closed spec fn value(&self) -> serde_json::Value {
        self.value
    }

    /// The member of the key, and `Absent` where there is none.
    pub fn member(&self, key: &str) -> (r: Field)
        ensures
            r@ == member_at(self.members(), key@),
    {
        member(&self.value, key)
    }
}

/// Parses the text of a record. Text that is not well-formed JSON is
/// reported with the parser's message.
pub fn parse(data: &[u8]) -> (r: Result<Parsed, Error>)
    ensures
        match json_of(data@) {
            Ok(v) => r is Ok && r->Ok_0.value() == v && r->Ok_0.members() == members_of(v),
            Err(text) => r is Err && r->Err_0@ == ErrorView::Json(text),
        },
{
    match parse_json(data) {
        Ok(value) => Ok(Parsed { value }),
        Err(text) => Err(Error::Json(text)),
    }
}

/// The message for a member that a record needs and does not have.
pub open spec fn missing_field(key: Seq<char>) -> Seq<char> {
    "missing field `"@ + key + "`"@
}

/// The message for a member of the wrong type.
pub open spec fn wrong_type(key: Seq<char>) -> Seq<char> {
    "invalid type for field `"@ + key + "`"@
}

/// The message for a number that does not fit its member.
pub open spec fn out_of_range(key: Seq<char>) -> Seq<char> {
    "invalid value for field `"@ + key + "`"@
}

/// The message for a token that names no variant.
pub open spec fn unknown_variant(t: Seq<char>) -> Seq<char> {
    "unknown variant `"@ + t + "`"@
}

/// The message for a rank that names no priority.
pub open spec fn unknown_rank(rank: u64) -> Seq<char> {
    "invalid value: "@ + decimal(rank as nat) + ", expected one of: 0, 1, 2, 3, 4"@
}

/// The error for a member that holds something else than it should: it is
/// missing where there is none, and of the wrong type otherwise.
pub open spec fn unfit(f: FieldView, key: Seq<char>) -> ErrorView {
    if f is Absent {
        ErrorView::Json(missing_field(key))
    } else {
        ErrorView::Json(wrong_type(key))
    }
}

/// A member that must be a string.
pub open spec fn text_in(f: FieldView, key: Seq<char>) -> Result<Seq<char>, ErrorView> {
    match f {
        FieldView::Text(s) => Ok(s),
        _ => Err(unfit(f, key)),
    }
}

/// A member that must be a non-negative integer within 64 bits.
pub open spec fn unsigned_in(f: FieldView, key: Seq<char>) -> Result<u64, ErrorView> {
    match f {
        FieldView::Number(Some(u), _) => Ok(u),
        _ => Err(unfit(f, key)),
    }
}

/// A member that must be an integer within 64 bits with a sign.
pub open spec fn signed_in(f: FieldView, key: Seq<char>) -> Result<i64, ErrorView> {
    match f {
        FieldView::Number(_, Some(i)) => Ok(i),
        _ => Err(unfit(f, key)),
    }
}

/// A member that must be `true` or `false`.
pub open spec fn flag_in(f: FieldView, key: Seq<char>) -> Result<bool, ErrorView> {
    match f {
        FieldView::Flag(b) => Ok(b),
        _ => Err(unfit(f, key)),
    }
}

/// True when every element of the list is a string.
pub open spec fn all_text(items: Seq<Option<Seq<char>>>) -> bool {
    forall|k: int| 0 <= k < items.len() ==> (#[trigger] items[k]) is Some
}

/// The strings of a list whose elements are all strings.
pub open spec fn texts_of(items: Seq<Option<Seq<char>>>) -> Seq<Seq<char>> {
    items.map_values(|o: Option<Seq<char>>| o->Some_0)
}

/// A member that must be an array of strings.
pub open spec fn list_in(f: FieldView, key: Seq<char>) -> Result<Seq<Seq<char>>, ErrorView> {
    match f {
        FieldView::List(items) => if all_text(items) {
            Ok(texts_of(items))
        } else {
            Err(ErrorView::Json(wrong_type(key)))
        },
        _ => Err(unfit(f, key)),
    }
}

/// A member that may be a string: `None` where it is `null` or not there.
pub open spec fn optional_text_in(f: FieldView, key: Seq<char>) -> Result<
    Option<Seq<char>>,
    ErrorView,
> {
    match f {
        FieldView::Absent => Ok(None),
        FieldView::Null => Ok(None),
        FieldView::Text(s) => Ok(Some(s)),
        _ => Err(ErrorView::Json(wrong_type(key))),
    }
}

/// A member that may be a non-negative integer: `None` where it is `null`
/// or not there.
pub open spec fn optional_unsigned_in(f: FieldView, key: Seq<char>) -> Result<
    Option<u64>,
    ErrorView,
> {
    match f {
        FieldView::Absent => Ok(None),
        FieldView::Null => Ok(None),
        FieldView::Number(Some(u), _) => Ok(Some(u)),
        _ => Err(ErrorView::Json(wrong_type(key))),
    }
}

/// The error for a member that holds something else than it should.
fn unfit_error(f: &Field, key: &str) -> (e: Error)
    ensures
        e@ == unfit(f@, key@),
{
    let mut text = match f {
        Field::Absent => owned("missing field `"),
        _ => owned("invalid type for field `"),
    };
    text.append(key);
    text.append("`");
    Error::Json(text)
}

/// The error for a member of the wrong type.
fn wrong_type_error(key: &str) -> (e: Error)
    ensures
        e@ == ErrorView::Json(wrong_type(key@)),
{
    let mut text = owned("invalid type for field `");
    text.append(key);
    text.append("`");
    Error::Json(text)
}

/// The error for a number that does not fit its member.
pub fn out_of_range_error(key: &str) -> (e: Error)
    ensures
        e@ == ErrorView::Json(out_of_range(key@)),
{
    let mut text = owned("invalid value for field `");
    text.append(key);
    text.append("`");
    Error::Json(text)
}

/// The error for a token that names no variant.
pub fn unknown_variant_error(token: &str) -> (e: Error)
    ensures
        e@ == ErrorView::Json(unknown_variant(token@)),
{
    let mut text = owned("unknown variant `");
    text.append(token);
    text.append("`");
    Error::Json(text)
}

/// The error for a rank that names no priority.
pub fn unknown_rank_error(rank: u64) -> (e: Error)
    ensures
        e@ == ErrorView::Json(unknown_rank(rank)),
{
    let mut text = owned("invalid value: ");
    let n = decimal_text(rank);
    text.append(n.as_str());
    text.append(", expected one of: 0, 1, 2, 3, 4");
    Error::Json(text)
}

/// Reads a member that must be a string.
pub fn read_text(f: Field, key: &str) -> (r: Result<String, Error>)
    ensures
        match text_in(f@, key@) {
            Ok(s) => r is Ok && r->Ok_0@ == s,
            Err(e) => r is Err && r->Err_0@ == e,
        },
{
    match f {
        Field::Text(s) => Ok(s),
        other => Err(unfit_error(&other, key)),
    }
}

/// Reads a member that must be a non-negative integer within 64 bits.
pub fn read_unsigned(f: Field, key: &str) -> (r: Result<u64, Error>)
    ensures
        match unsigned_in(f@, key@) {
            Ok(u) => r == Ok::<u64, Error>(u),
            Err(e) => r is Err && r->Err_0@ == e,
        },
{
    match f {
        Field::Number(Some(u), _) => Ok(u),
        other => Err(unfit_error(&other, key)),
    }
}

/// Reads a member that must be an integer within 64 bits with a sign.
pub fn read_signed(f: Field, key: &str) -> (r: Result<i64, Error>)
    ensures
        match signed_in(f@, key@) {
            Ok(i) => r == Ok::<i64, Error>(i),
            Err(e) => r is Err && r->Err_0@ == e,
        },
{
    match f {
        Field::Number(_, Some(i)) => Ok(i),
        other => Err(unfit_error(&other, key)),
    }
}

/// Reads a member that must be `true` or `false`.
pub fn read_flag(f: Field, key: &str) -> (r: Result<bool, Error>)
    ensures
        match flag_in(f@, key@) {
            Ok(b) => r == Ok::<bool, Error>(b),
            Err(e) => r is Err && r->Err_0@ == e,
        },
{
    match f {
        Field::Flag(b) => Ok(b),
        other => Err(unfit_error(&other, key)),
    }
}

/// Reads a member that must be an array of strings.
pub fn read_list(f: Field, key: &str) -> (r: Result<Vec<String>, Error>)
    ensures
        match list_in(f@, key@) {
            Ok(l) => r is Ok && views(r->Ok_0@) == l,
            Err(e) => r is Err && r->Err_0@ == e,
        },
{
    let ghost fv = f@;
    match f {
        Field::List(items) => {
            let ghost iv = opt_views(items@);
            let mut out: Vec<String> = Vec::new();
            let mut i: usize = 0;
            while i < items.len()
                invariant
                    i <= items.len(),
                    fv == f@,
                    fv == FieldView::List(iv),
                    list_in(fv, key@) is Err ==> list_in(fv, key@)->Err_0 == ErrorView::Json(
                        wrong_type(key@),
                    ),
                    iv == opt_views(items@),
                    out@.len() == i,
                    forall|k: int| 0 <= k < i ==> (#[trigger] iv[k]) is Some,
                    forall|k: int| 0 <= k < i ==> (#[trigger] out@[k])@ == iv[k]->Some_0,
                decreases items.len() - i,
            {
                assert(iv[i as int] == opt_view(items@[i as int]));
                match &items[i] {
                    Some(s) => {
                        out.push(s.clone());
                    },
                    None => {
                        assert(!(iv[i as int] is Some));
                        assert(!all_text(iv));
                        return Err(wrong_type_error(key));
                    },
                }
                i += 1;
            }
            assert(views(out@) =~= texts_of(iv));
            Ok(out)
        },
        other => Err(unfit_error(&other, key)),
    }
}

/// Reads a member that may be a string.
pub fn read_optional_text(f: Field, key: &str) -> (r: Result<Option<String>, Error>)
    ensures
        match optional_text_in(f@, key@) {
            Ok(o) => r is Ok && opt_view(r->Ok_0) == o,
            Err(e) => r is Err && r->Err_0@ == e,
        },
{
    match f {
        Field::Absent => Ok(None),
        Field::Null => Ok(None),
        Field::Text(s) => Ok(Some(s)),
        _ => Err(wrong_type_error(key)),
    }
}

/// Reads a member that may be a non-negative integer.
pub fn read_optional_unsigned(f: Field, key: &str) -> (r: Result<Option<u64>, Error>)
    ensures
        match optional_unsigned_in(f@, key@) {
            Ok(o) => r == Ok::<Option<u64>, Error>(o),
            Err(e) => r is Err && r->Err_0@ == e,
        },
{
    match f {
        Field::Absent => Ok(None),
        Field::Null => Ok(None),
        Field::Number(Some(u), _) => Ok(Some(u)),
        _ => Err(wrong_type_error(key)),
    }
}

/// The member that holds a non-negative integer.
pub open spec fn unsigned_field(u: u64) -> FieldView {
    FieldView::Number(
        Some(u),
        if u <= i64::MAX {
            Some(u as i64)
        } else {
            None
        },
    )
}

/// The member that holds an integer with a sign.
pub open spec fn signed_field(i: i64) -> FieldView {
    FieldView::Number(
        if i >= 0 {
            Some(i as u64)
        } else {
            None
        },
        Some(i),
    )
}

/// The member that holds a string where there is one, and `null` otherwise.
pub open spec fn optional_text_field(o: Option<Seq<char>>) -> FieldView {
    match o {
        Some(s) => FieldView::Text(s),
        None => FieldView::Null,
    }
}

/// The member that holds a number where there is one, and `null` otherwise.
pub open spec fn optional_unsigned_field(o: Option<u64>) -> FieldView {
    match o {
        Some(u) => unsigned_field(u),
        None => FieldView::Null,
    }
}

/// The member that holds an array of strings.
pub open spec fn list_field(l: Seq<Seq<char>>) -> FieldView {
    FieldView::List(l.map_values(|s: Seq<char>| Some(s)))
}

/// The member that holds a non-negative integer.
pub fn unsigned_as_field(u: u64) -> (f: Field)
    ensures
        f@ == unsigned_field(u),
{
    if u <= 0x7fff_ffff_ffff_ffff {
        Field::Number(Some(u), Some(u as i64))
    } else {
        Field::Number(Some(u), None)
    }
}

/// The member that holds an integer with a sign.
pub fn signed_as_field(i: i64) -> (f: Field)
    ensures
        f@ == signed_field(i),
{
    if i >= 0 {
        Field::Number(Some(i as u64), Some(i))
    } else {
        Field::Number(None, Some(i))
    }
}

/// The member that holds a string where there is one.
pub fn optional_text_as_field(o: &Option<String>) -> (f: Field)
    ensures
        f@ == optional_text_field(opt_view(*o)),
{
    match o {
        Some(s) => Field::Text(s.clone()),
        None => Field::Null,
    }
}

/// The member that holds a number where there is one.
pub fn optional_unsigned_as_field(o: Option<u64>) -> (f: Field)
    ensures
        f@ == optional_unsigned_field(o),
{
    match o {
        Some(u) => unsigned_as_field(u),
        None => Field::Null,
    }
}

/// The member that holds an array of strings.
pub fn list_as_field(l: &Vec<String>) -> (f: Field)
    ensures
        f@ == list_field(views(l@)),
{
    let mut out: Vec<Option<String>> = Vec::new();
    let mut i: usize = 0;
    while i < l.len()
        invariant
            i <= l.len(),
            out@.len() == i,
            forall|k: int| 0 <= k < i ==> opt_view(#[trigger] out@[k]) == Some(l@[k]@),
        decreases l.len() - i,
    {
        out.push(Some(l[i].clone()));
        i += 1;
    }
    assert(opt_views(out@) =~= views(l@).map_values(|s: Seq<char>| Some(s)));
    Field::List(out)
}

/// What was read back is what was written, member by member.
pub proof fn lemma_fields_read_back(
    text: Seq<char>,
    u: u64,
    i: i64,
    b: bool,
    l: Seq<Seq<char>>,
    ot: Option<Seq<char>>,
    ou: Option<u64>,
    key: Seq<char>,
)
    ensures
        text_in(FieldView::Text(text), key) == Ok::<Seq<char>, ErrorView>(text),
        unsigned_in(unsigned_field(u), key) == Ok::<u64, ErrorView>(u),
        signed_in(signed_field(i), key) == Ok::<i64, ErrorView>(i),
        flag_in(FieldView::Flag(b), key) == Ok::<bool, ErrorView>(b),
        list_in(list_field(l), key) == Ok::<Seq<Seq<char>>, ErrorView>(l),
        optional_text_in(optional_text_field(ot), key) == Ok::<Option<Seq<char>>, ErrorView>(ot),
        optional_unsigned_in(optional_unsigned_field(ou), key) == Ok::<Option<u64>, ErrorView>(
            ou,
        ),
{
    let items = l.map_values(|s: Seq<char>| Some(s));
    assert(all_text(items));
    assert(texts_of(items) =~= l);
}

/// The text so far, or the error that stopped the writing.
pub open spec fn written(r: Result<String, Error>) -> Result<Seq<char>, ErrorView> {
    match r {
        Ok(s) => Ok(s@),
        Err(e) => Err(e@),
    }
}

/// The text with a piece appended.
pub open spec fn with_piece(acc: Result<Seq<char>, ErrorView>, piece: Seq<char>) -> Result<
    Seq<char>,
    ErrorView,
> {
    match acc {
        Ok(a) => Ok(a + piece),
        Err(e) => Err(e),
    }
}

/// The text with a string appended as a JSON string.
pub open spec fn with_string(acc: Result<Seq<char>, ErrorView>, s: Seq<char>) -> Result<
    Seq<char>,
    ErrorView,
> {
    match acc {
        Ok(a) => match json_string_of(s) {
            Ok(q) => Ok(a + q),
            Err(text) => Err(ErrorView::Json(text)),
        },
        Err(e) => Err(e),
    }
}

/// The text with an optional string appended: as a JSON string, or `null`.
pub open spec fn with_optional_string(
    acc: Result<Seq<char>, ErrorView>,
    o: Option<Seq<char>>,
) -> Result<Seq<char>, ErrorView> {
    match o {
        Some(s) => with_string(acc, s),
        None => with_piece(acc, "null"@),
    }
}

/// The text with the first `n` strings of a list appended, each as a JSON
/// string and with a comma before each but the first.
pub open spec fn with_items(
    acc: Result<Seq<char>, ErrorView>,
    l: Seq<Seq<char>>,
    n: nat,
) -> Result<Seq<char>, ErrorView>
    decreases n,
{
    if n == 0 {
        acc
    } else if n == 1 {
        with_string(acc, l[0])
    } else {
        with_string(with_piece(with_items(acc, l, (n - 1) as nat), ","@), l[n - 1])
    }
}

/// The text with a list of strings appended as a JSON array.
pub open spec fn with_list(acc: Result<Seq<char>, ErrorView>, l: Seq<Seq<char>>) -> Result<
    Seq<char>,
    ErrorView,
> {
    with_piece(with_items(with_piece(acc, "["@), l, l.len()), "]"@)
}

/// Appends a piece to the text.
pub fn put(acc: Result<String, Error>, piece: &str) -> (r: Result<String, Error>)
    ensures
        written(r) == with_piece(written(acc), piece@),
{
    match acc {
        Ok(mut s) => {
            s.append(piece);
            Ok(s)
        },
        Err(e) => Err(e),
    }
}

/// Appends a string to the text, as a JSON string.
pub fn put_string(acc: Result<String, Error>, s: &str) -> (r: Result<String, Error>)
    ensures
        written(r) == with_string(written(acc), s@),
{
    match acc {
        Ok(mut out) => match quote(s) {
            Ok(q) => {
                out.append(q.as_str());
                Ok(out)
            },
            Err(text) => Err(Error::Json(text)),
        },
        Err(e) => Err(e),
    }
}

/// Appends an optional string to the text: as a JSON string, or `null`.
pub fn put_optional_string(acc: Result<String, Error>, o: &Option<String>) -> (r: Result<
    String,
    Error,
>)
    ensures
        written(r) == with_optional_string(written(acc), opt_view(*o)),
{
    match o {
        Some(s) => put_string(acc, s.as_str()),
        None => put(acc, "null"),
    }
}

/// Appends a list of strings to the text, as a JSON array.
pub fn put_list(acc: Result<String, Error>, l: &Vec<String>) -> (r: Result<String, Error>)
    ensures
        written(r) == with_list(written(acc), views(l@)),
{
    let ghost start = with_piece(written(acc), "["@);
    let ghost lv = views(l@);
    let mut out = put(acc, "[");
    let mut i: usize = 0;
    while i < l.len()
        invariant
            i <= l.len(),
            lv == views(l@),
            written(out) == with_items(start, lv, i as nat),
        decreases l.len() - i,
    {
        assert(lv[i as int] == l@[i as int]@);
        if i > 0 {
            out = put(out, ",");
        }
        out = put_string(out, l[i].as_str());
        i += 1;
    }
    put(out, "]")
}

/// Appends a non-negative number to the text, in decimal digits.
pub fn put_unsigned(acc: Result<String, Error>, u: u64) -> (r: Result<String, Error>)
    ensures
        written(r) == with_piece(written(acc), decimal(u as nat)),
{
    let digits = decimal_text(u);
    put(acc, digits.as_str())
}

/// Appends a number with a sign to the text, in decimal digits.
pub fn put_signed(acc: Result<String, Error>, i: i64) -> (r: Result<String, Error>)
    ensures
        written(r) == with_piece(written(acc), signed_decimal(i)),
{
    let digits = signed_text(i);
    put(acc, digits.as_str())
}

} // verus!
