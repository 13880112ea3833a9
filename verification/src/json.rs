//! JSON values of `serde_json`, read and built through a ghost model.

use vstd::prelude::*;

use crate::double::Double;

verus! {

/// `serde_json::Value`: a JSON value.
#[verifier::external_type_specification]
#[verifier::external_body]
pub struct ExValue(serde_json::Value);

/// What a JSON number holds.
pub ghost enum NumberView {
    /// A whole number that is not negative.
    Natural(u64),
    /// A whole number that is negative.
    Negative(i64),
    /// Any other number.
    Float(Double),
}

/// The double that a whole number is converted to: the nearest one.
pub uninterp spec fn nearest_double(n: int) -> Double;

/// The doubles hold every whole number up to this one.
pub const LARGEST_WHOLE: u64 = 0x20_0000_0000_0000;

/// What a JSON value holds.
pub ghost enum JsonView {
    Null,
    Bool(bool),
    Number(NumberView),
    Text(Seq<char>),
    List(Seq<JsonView>),
    Object(Map<Seq<char>, JsonView>),
}

/// What a `serde_json::Value` holds.
pub uninterp spec fn json_view(v: serde_json::Value) -> JsonView;

/// What the items of a list hold.
pub open spec fn json_views(list: Seq<serde_json::Value>) -> Seq<JsonView> {
    list.map_values(|v: serde_json::Value| json_view(v))
}

/// What an optional value holds.
pub open spec fn opt_json_view(v: Option<serde_json::Value>) -> Option<JsonView> {
    match v {
        Some(x) => Some(json_view(x)),
        None => None,
    }
}

impl JsonView {
    /// The member of that name, if the value is an object that has one.
    pub open spec fn member(self, key: Seq<char>) -> Option<JsonView> {
        match self {
            JsonView::Object(members) => if members.contains_key(key) {
                Some(members[key])
            } else {
                None
            },
            _ => None,
        }
    }

    /// The characters, if the value is a text.
    pub open spec fn text(self) -> Option<Seq<char>> {
        match self {
            JsonView::Text(s) => Some(s),
            _ => None,
        }
    }

    /// The items, if the value is a list.
    pub open spec fn list(self) -> Option<Seq<JsonView>> {
        match self {
            JsonView::List(items) => Some(items),
            _ => None,
        }
    }

    /// The number, if the value is one that is a natural number.
    pub open spec fn natural(self) -> Option<u64> {
        match self {
            JsonView::Number(NumberView::Natural(n)) => Some(n),
            _ => None,
        }
    }

    /// The number as a double, if the value is a number.
    pub open spec fn double(self) -> Option<Double> {
        match self {
            JsonView::Number(NumberView::Natural(n)) => Some(nearest_double(n as int)),
            JsonView::Number(NumberView::Negative(n)) => Some(nearest_double(n as int)),
            JsonView::Number(NumberView::Float(x)) => Some(x),
            _ => None,
        }
    }

    /// The truth value, if the value is one.
    pub open spec fn truth(self) -> Option<bool> {
        match self {
            JsonView::Bool(b) => Some(b),
            _ => None,
        }
    }

    /// The characters of the member of that name, if it is a text.
    pub open spec fn text_of(self, key: Seq<char>) -> Option<Seq<char>> {
        match self.member(key) {
            Some(m) => m.text(),
            None => None,
        }
    }

    /// The items of the member of that name, if it is a list.
    pub open spec fn list_of(self, key: Seq<char>) -> Option<Seq<JsonView>> {
        match self.member(key) {
            Some(m) => m.list(),
            None => None,
        }
    }

    /// The double in the member of that name, if it is a number.
    pub open spec fn double_of(self, key: Seq<char>) -> Option<Double> {
        match self.member(key) {
            Some(m) => m.double(),
            None => None,
        }
    }

    /// The natural number in the member of that name, if it is one.
    pub open spec fn natural_of(self, key: Seq<char>) -> Option<u64> {
        match self.member(key) {
            Some(m) => m.natural(),
            None => None,
        }
    }
}

/// A whole number that doubles hold is kept where it is read as `d`, and a negative number
/// stays negative.
pub open spec fn keeps_whole(v: JsonView, d: Option<Double>) -> bool {
    match v {
        JsonView::Number(NumberView::Natural(n)) => n <= LARGEST_WHOLE ==> d is Some
            && d->0.is_whole(n as nat),
        JsonView::Number(NumberView::Negative(_)) => d is Some && !d->0.is_non_negative(),
        _ => true,
    }
}

impl JsonView {
    /// `d` is the double in the member of that name, if it is a number.
    pub open spec fn gives_double(self, key: Seq<char>, d: Option<Double>) -> bool {
        &&& d == self.double_of(key)
        &&& self.member(key) is Some ==> keeps_whole(self.member(key)->0, d)
    }
}

/// The value that a JSON text stands for, as `serde_json::from_str` reads it; `None` where
/// it refuses the text.
pub uninterp spec fn parsed_json(text: Seq<char>) -> Option<JsonView>;

/// `serde_json::from_str` at `serde_json::Value`: the value a JSON text stands for, or
/// nothing where the text is refused. The grammar is named, not stated.
#[verifier::external_body]
pub(crate) fn parse_json(text: &str) -> (r: Option<serde_json::Value>)
    ensures
        opt_json_view(r) == parsed_json(text@),
{
    serde_json::from_str(text).ok()
}

/// `Value::get` with a text: the member of an object with that name, if it has one, and
/// nothing where the value is no object.
#[verifier::external_body]
pub(crate) fn json_get<'a>(v: &'a serde_json::Value, key: &str) -> (r: Option<&'a serde_json::Value>)
    ensures
        match r {
            Some(m) => json_view(*v).member(key@) == Some(json_view(*m)),
            None => json_view(*v).member(key@) is None,
        },
{
    v.get(key)
}

/// `Value::as_str`: the characters of a text, and nothing where the value is no text.
#[verifier::external_body]
pub(crate) fn json_str(v: &serde_json::Value) -> (r: Option<&str>)
    ensures
        match r {
            Some(s) => json_view(*v).text() == Some(s@),
            None => json_view(*v).text() is None,
        },
{
    v.as_str()
}

/// `Value::as_array`: the items of a list, and nothing where the value is no list.
#[verifier::external_body]
pub(crate) fn json_array(v: &serde_json::Value) -> (r: Option<&Vec<serde_json::Value>>)
    ensures
        match r {
            Some(items) => json_view(*v).list() == Some(json_views(items@)),
            None => json_view(*v).list() is None,
        },
{
    v.as_array()
}

/// `Value::as_u64`: the number where it is a natural one that fits, and nothing elsewhere.
#[verifier::external_body]
pub(crate) fn json_u64(v: &serde_json::Value) -> (r: Option<u64>)
    ensures
        r == json_view(*v).natural(),
{
    v.as_u64()
}

/// `Value::as_f64`: the number as a double, and nothing where the value is no number. A whole
/// number is converted as Rust does it, which is named; stated is that the numbers up to
/// `LARGEST_WHOLE` are kept and that negative ones stay negative.
#[verifier::external_body]
pub(crate) fn json_double(v: &serde_json::Value) -> (r: Option<Double>)
    ensures
        r == match json_view(*v) {
            JsonView::Number(NumberView::Natural(n)) => Some(nearest_double(n as int)),
            JsonView::Number(NumberView::Negative(n)) => Some(nearest_double(n as int)),
            JsonView::Number(NumberView::Float(x)) => Some(x),
            _ => None,
        },
        keeps_whole(json_view(*v), r),
{
    v.as_f64().map(|x| Double { bits: x.to_bits() })
}

/// `Value::as_bool`: the truth value, and nothing where the value is none.
#[verifier::external_body]
pub(crate) fn json_bool(v: &serde_json::Value) -> (r: Option<bool>)
    ensures
        r == json_view(*v).truth(),
{
    v.as_bool()
}

/// `serde_json::Value::default`: null.
#[verifier::external_body]
pub(crate) fn json_null() -> (r: serde_json::Value)
    ensures
        json_view(r) == JsonView::Null,
{
    serde_json::Value::default()
}

/// `serde_json::Value` from a text.
#[verifier::external_body]
pub(crate) fn json_of_text(s: &str) -> (r: serde_json::Value)
    ensures
        json_view(r) == JsonView::Text(s@),
{
    serde_json::Value::from(s)
}

/// `serde_json::Value` from a truth value.
#[verifier::external_body]
pub(crate) fn json_of_bool(b: bool) -> (r: serde_json::Value)
    ensures
        json_view(r) == JsonView::Bool(b),
{
    serde_json::Value::from(b)
}

/// `serde_json::Value` from a natural number.
#[verifier::external_body]
pub(crate) fn json_of_u64(n: u64) -> (r: serde_json::Value)
    ensures
        json_view(r) == JsonView::Number(NumberView::Natural(n)),
{
    serde_json::Value::from(n)
}

/// `serde_json::Value::clone`: the same value.
#[verifier::external_body]
pub(crate) fn json_clone(v: &serde_json::Value) -> (r: serde_json::Value)
    ensures
        json_view(r) == json_view(*v),
{
    v.clone()
}

/// `serde_json::Value` from a list of values.
#[verifier::external_body]
pub(crate) fn json_of_list(items: Vec<serde_json::Value>) -> (r: serde_json::Value)
    ensures
        json_view(r) == JsonView::List(json_views(items@)),
{
    serde_json::Value::from(items)
}

/// `serde_json::Map::new` as a value: an object without members.
#[verifier::external_body]
pub(crate) fn json_object() -> (r: serde_json::Value)
    ensures
        json_view(r) == JsonView::Object(Map::empty()),
{
    serde_json::Value::Object(serde_json::Map::new())
}

/// Indexed assignment to a `serde_json::Value` that is an object: the member of that name
/// is added or replaced.
#[verifier::external_body]
pub(crate) fn json_put(v: &mut serde_json::Value, key: &str, item: serde_json::Value)
    requires
        json_view(*old(v)) is Object,
    ensures
        json_view(*final(v)) == JsonView::Object(
            json_view(*old(v))->Object_0.insert(key@, json_view(item)),
        ),
{
    v[key] = item;
}

/// The text that `serde_json::Value` is written as.
pub uninterp spec fn written_json(v: JsonView) -> Seq<char>;

/// `serde_json::Value::to_string`: the value written as compact JSON. The writing is named,
/// not stated.
#[verifier::external_body]
pub(crate) fn json_to_string(v: &serde_json::Value) -> (r: String)
    ensures
        r@ == written_json(json_view(*v)),
{
    v.to_string()
}

/// The hexadecimal digit of value `d`.
pub open spec fn hex_digit(d: nat) -> char {
    if d < 10 {
        ('0' as u32 + d) as char
    } else {
        ('a' as u32 + d - 10) as char
    }
}

/// How a character stands in a JSON string.
pub open spec fn json_escape(c: char) -> Seq<char> {
    let n = c as u32;
    if c == '"' {
        seq!['\\', '"']
    } else if c == '\\' {
        seq!['\\', '\\']
    } else if n == 8 {
        seq!['\\', 'b']
    } else if n == 9 {
        seq!['\\', 't']
    } else if n == 10 {
        seq!['\\', 'n']
    } else if n == 12 {
        seq!['\\', 'f']
    } else if n == 13 {
        seq!['\\', 'r']
    } else if n < 32 {
        seq!['\\', 'u', '0', '0', hex_digit(n as nat / 16), hex_digit(n as nat % 16)]
    } else {
        seq![c]
    }
}

/// The characters of `s`, each as it stands in a JSON string.
pub open spec fn json_escaped(s: Seq<char>) -> Seq<char>
    decreases s.len(),
{
    if s.len() == 0 {
        Seq::<char>::empty()
    } else {
        json_escaped(s.drop_last()) + json_escape(s.last())
    }
}

/// The JSON string of `s`.
pub open spec fn json_quoted(s: Seq<char>) -> Seq<char> {
    seq!['"'] + json_escaped(s) + seq!['"']
}

/// `serde_json::to_string` at `str`: the text between quotation marks, with the quotation
/// mark, the backslash and the control characters escaped and the rest as it is. Nothing
/// is returned where writing fails, which it does for no text.
#[verifier::external_body]
pub(crate) fn json_quote(s: &str) -> (r: Option<String>)
    ensures
        match r {
            Some(t) => t@ == json_quoted(s@),
            None => false,
        },
{
    serde_json::to_string(s).ok()
}

/// The characters of the member of that name, if it is a text.
pub(crate) fn member_text<'a>(v: &'a serde_json::Value, key: &str) -> (r: Option<&'a str>)
    ensures
        match r {
            Some(s) => json_view(*v).text_of(key@) == Some(s@),
            None => json_view(*v).text_of(key@) is None,
        },
{
    match json_get(v, key) {
        Some(m) => json_str(m),
        None => None,
    }
}

/// The items of the member of that name, if it is a list.
pub(crate) fn member_list<'a>(v: &'a serde_json::Value, key: &str) -> (r: Option<&'a Vec<serde_json::Value>>)
    ensures
        match r {
            Some(items) => json_view(*v).list_of(key@) == Some(json_views(items@)),
            None => json_view(*v).list_of(key@) is None,
        },
{
    match json_get(v, key) {
        Some(m) => json_array(m),
        None => None,
    }
}

/// The double in the member of that name, if it is a number.
pub(crate) fn member_double(v: &serde_json::Value, key: &str) -> (r: Option<Double>)
    ensures
        json_view(*v).gives_double(key@, r),
{
    match json_get(v, key) {
        Some(m) => json_double(m),
        None => None,
    }
}

/// The natural number in the member of that name, if it is one.
pub(crate) fn member_u64(v: &serde_json::Value, key: &str) -> (r: Option<u64>)
    ensures
        r == json_view(*v).natural_of(key@),
{
    match json_get(v, key) {
        Some(m) => json_u64(m),
        None => None,
    }
}

/// A text without quotation marks, backslashes and control characters stands in a JSON string
/// as it is, between quotation marks; of two texts in a row each is escaped on its own.
pub proof fn plain_texts_stand_as_they_are(s: Seq<char>, a: Seq<char>, b: Seq<char>)
    ensures
        (forall|i: int|
            0 <= i < s.len() ==> #[trigger] s[i] != '"' && s[i] != '\\' && s[i] as u32 >= 32)
            ==> json_quoted(s) == seq!['"'] + s + seq!['"'],
        json_escaped(a + b) == json_escaped(a) + json_escaped(b),
        json_escape('"') == seq!['\\', '"'],
        json_escape('\\') == seq!['\\', '\\'],
        json_escape('\n') == seq!['\\', 'n'],
{
    if forall|i: int|
        0 <= i < s.len() ==> #[trigger] s[i] != '"' && s[i] != '\\' && s[i] as u32 >= 32 {
        lemma_plain(s);
    }
    lemma_escaped_join(a, b);
}

proof fn lemma_plain(s: Seq<char>)
    requires
        forall|i: int|
            0 <= i < s.len() ==> #[trigger] s[i] != '"' && s[i] != '\\' && s[i] as u32 >= 32,
    ensures
        json_escaped(s) == s,
    decreases s.len(),
{
    if s.len() > 0 {
        let front = s.drop_last();
        assert forall|i: int| 0 <= i < front.len() implies #[trigger] front[i] != '"' && front[i]
            != '\\' && front[i] as u32 >= 32 by {
            assert(front[i] == s[i]);
        }
        lemma_plain(front);
        assert(s[s.len() - 1] == s.last());
        assert(front + seq![s.last()] =~= s);
    } else {
        assert(s =~= Seq::<char>::empty());
    }
}

proof fn lemma_escaped_join(a: Seq<char>, b: Seq<char>)
    ensures
        json_escaped(a + b) == json_escaped(a) + json_escaped(b),
    decreases b.len(),
{
    if b.len() == 0 {
        assert(a + b =~= a);
        assert(json_escaped(a) + json_escaped(b) =~= json_escaped(a));
    } else {
        lemma_escaped_join(a, b.drop_last());
        assert((a + b).drop_last() =~= a + b.drop_last());
        assert((a + b).last() == b.last());
        assert(json_escaped(a + b) =~= json_escaped(a) + json_escaped(b));
    }
}

/// The members of an object are found by their names, each as what it is.
pub proof fn members_are_found_by_name(
    members: Map<Seq<char>, JsonView>,
    key: Seq<char>,
    other: Seq<char>,
    v: JsonView,
    s: Seq<char>,
    n: u64,
)
    ensures
        JsonView::Object(members.insert(key, v)).member(key) == Some(v),
        key != other ==> JsonView::Object(members.insert(key, v)).member(other)
            == JsonView::Object(members).member(other),
        JsonView::Object(members.insert(key, JsonView::Text(s))).text_of(key) == Some(s),
        JsonView::Object(members.insert(key, JsonView::List(seq![v]))).list_of(key) == Some(
            seq![v],
        ),
        JsonView::Object(
            members.insert(key, JsonView::Number(NumberView::Natural(n))),
        ).natural_of(key) == Some(n),
        JsonView::Object(
            members.insert(key, JsonView::Number(NumberView::Natural(n))),
        ).double_of(key) == Some(nearest_double(n as int)),
        !members.contains_key(key) ==> JsonView::Object(members).member(key) is None,
        !(v is Object) ==> v.member(key) is None,
        v.text() is Some <==> v is Text,
        v.list() is Some <==> v is List,
        v.truth() is Some <==> v is Bool,
        v.double() is Some <==> v is Number,
        v.natural() is Some ==> v == JsonView::Number(NumberView::Natural(v.natural()->0)),
{
    assert(members.insert(key, v).contains_key(other) == (key == other || members.contains_key(
        other,
    )));
}

/// Other control characters are escaped too: the common ones by a letter, the rest by number.
pub proof fn control_characters_are_escaped(c: char)
    ensures
        json_escape('\t') == seq!['\\', 't'],
        json_escape('\r') == seq!['\\', 'r'],
        c as u32 == 8 ==> json_escape(c) == seq!['\\', 'b'],
        c as u32 == 12 ==> json_escape(c) == seq!['\\', 'f'],
        c as u32 == 1 ==> json_escape(c) == seq!['\\', 'u', '0', '0', '0', '1'],
        c as u32 == 27 ==> json_escape(c) == seq!['\\', 'u', '0', '0', '1', 'b'],
        c as u32 >= 32 && c != '"' && c != '\\' ==> json_escape(c) == seq![c],
{
}

} // verus!
