//! JSON as the client reads and writes it.
use vstd::prelude::*;

use crate::http::pair_views;
use crate::text::{numeral, same_text};

verus! {

/// The value of a member of an object, as far as the client looks into it.
#[derive(Debug, Clone, PartialEq, Eq)]
pub enum JsonScalar {
    Null,
    Bool(bool),
    /// A number: itself, where it is a whole one that an `i64` holds.
    Number(Option<i64>),
    Text(String),
    /// An array, whatever it holds.
    Array,
    /// An object, whatever it holds.
    Object,
}

#[verifier::ext_equal]
pub enum JsonScalarView {
    Null,
    Bool(bool),
    Number(Option<i64>),
    Text(Seq<char>),
    Array,
    Object,
}

impl View for JsonScalar {
    type V = JsonScalarView;

    open spec fn view(&self) -> JsonScalarView {
        match *self {
            JsonScalar::Null => JsonScalarView::Null,
            JsonScalar::Bool(b) => JsonScalarView::Bool(b),
            JsonScalar::Number(n) => JsonScalarView::Number(n),
            JsonScalar::Text(text) => JsonScalarView::Text(text@),
            JsonScalar::Array => JsonScalarView::Array,
            JsonScalar::Object => JsonScalarView::Object,
        }
    }
}

/// A JSON document: the members of the object that it is, none where it is not one, and the document
/// written out again without white space.
#[derive(Debug, Clone, PartialEq, Eq)]
pub struct JsonDocument {
    pub members: Vec<(String, JsonScalar)>,
    pub text: String,
}

#[verifier::ext_equal]
pub struct JsonDocumentView {
    pub members: Seq<(Seq<char>, JsonScalarView)>,
    pub text: Seq<char>,
}

impl View for JsonDocument {
    type V = JsonDocumentView;

    open spec fn view(&self) -> JsonDocumentView {
        JsonDocumentView {
            members: self.members@.map_values(|member: (String, JsonScalar)| (member.0@, member.1@)),
            text: self.text@,
        }
    }
}

/// The value of the first member called `name`.
pub open spec fn member(members: Seq<(Seq<char>, JsonScalarView)>, name: Seq<char>) -> Option<
    JsonScalarView,
>
    decreases members.len(),
{
    if members.len() == 0 {
        None
    } else if members[0].0 == name {
        Some(members[0].1)
    } else {
        member(members.drop_first(), name)
    }
}

impl JsonDocumentView {
    pub open spec fn get(self, name: Seq<char>) -> Option<JsonScalarView> {
        member(self.members, name)
    }

    /// The member called `name`, if it is a whole number.
    pub open spec fn get_int(self, name: Seq<char>) -> Option<int> {
        match self.get(name) {
            Some(JsonScalarView::Number(Some(n))) => Some(n as int),
            _ => None,
        }
    }

    /// The member called `name`, if it is text.
    pub open spec fn get_text(self, name: Seq<char>) -> Option<Seq<char>> {
        match self.get(name) {
            Some(JsonScalarView::Text(text)) => Some(text),
            _ => None,
        }
    }
}

/// The document that the bytes hold, as `serde_json` reads it into a `Value`, if it is one.
pub uninterp spec fn json_document(bytes: Seq<u8>) -> Option<JsonDocumentView>;

/// `serde_json::from_slice` into a `Value`: the document that the bytes hold, if they are JSON. What
/// it holds is left to the name.
#[verifier::external_body]
fn from_slice(bytes: &[u8]) -> (result: Option<JsonDocument>)
    ensures
        match result {
            Some(document) => json_document(bytes@) == Some(document@),
            None => json_document(bytes@) is None,
        },
{
    let value = serde_json::from_slice::<serde_json::Value>(bytes).ok()?;
    let text = value.to_string();
    let scalar = |value| match value {
        serde_json::Value::Null => JsonScalar::Null,
        serde_json::Value::Bool(b) => JsonScalar::Bool(b),
        serde_json::Value::Number(n) => JsonScalar::Number(n.as_i64()),
        serde_json::Value::String(text) => JsonScalar::Text(text),
        serde_json::Value::Array(_) => JsonScalar::Array,
        serde_json::Value::Object(_) => JsonScalar::Object,
    };
    let members = value.as_object().cloned().unwrap_or_default();
    let members = members.into_iter().map(|(name, value)| (name, scalar(value))).collect();
    Some(JsonDocument { members, text })
}

impl JsonDocument {
    /// Reads a document.
    pub fn parse(bytes: &[u8]) -> (result: Option<JsonDocument>)
        ensures
            match result {
                Some(document) => json_document(bytes@) == Some(document@),
                None => json_document(bytes@) is None,
            },
    {
        from_slice(bytes)
    }

    /// The value of the first member called `name`.
    pub fn get(&self, name: &str) -> (result: Option<&JsonScalar>)
        ensures
            match result {
                Some(value) => self@.get(name@) == Some(value@),
                None => self@.get(name@) is None,
            },
    {
        let mut i: usize = 0;
        assert(self@.members.subrange(0, self@.members.len() as int) == self@.members);
        while i < self.members.len()
            invariant
                i <= self.members@.len(),
                self@.get(name@) == member(
                    self@.members.subrange(i as int, self@.members.len() as int),
                    name@,
                ),
            decreases self.members@.len() - i,
        {
            let ghost rest = self@.members.subrange(i as int, self@.members.len() as int);
            assert(rest[0] == (self.members@[i as int].0@, self.members@[i as int].1@));
            assert(rest.drop_first() == self@.members.subrange(i + 1, self@.members.len() as int));
            if same_text(self.members[i].0.as_str(), name) {
                return Some(&self.members[i].1);
            }
            i = i + 1;
        }
        None
    }

    /// The member called `name`, if it is a whole number.
    pub fn get_int(&self, name: &str) -> (result: Option<i64>)
        ensures
            match result {
                Some(n) => self@.get_int(name@) == Some(n as int),
                None => self@.get_int(name@) is None,
            },
    {
        match self.get(name) {
            Some(JsonScalar::Number(Some(n))) => Some(*n),
            _ => None,
        }
    }

    /// The member called `name`, if it is text.
    pub fn get_text(&self, name: &str) -> (result: Option<&str>)
        ensures
            match result {
                Some(text) => self@.get_text(name@) == Some(text@),
                None => self@.get_text(name@) is None,
            },
    {
        match self.get(name) {
            Some(JsonScalar::Text(text)) => Some(text.as_str()),
            _ => None,
        }
    }
}

/// A hexadecimal digit in lower case.
pub open spec fn hex_char(digit: int) -> char {
    if digit < 10 {
        (('0' as u32) + digit) as char
    } else {
        (('a' as u32) + digit - 10) as char
    }
}

/// How a character stands inside a JSON string.
pub open spec fn json_char(c: char) -> Seq<char> {
    let code = c as u32 as int;
    if c == '"' {
        seq!['\\', '"']
    } else if c == '\\' {
        seq!['\\', '\\']
    } else if code == 0x08 {
        seq!['\\', 'b']
    } else if code == 0x0c {
        seq!['\\', 'f']
    } else if c == '\n' {
        seq!['\\', 'n']
    } else if c == '\r' {
        seq!['\\', 'r']
    } else if c == '\t' {
        seq!['\\', 't']
    } else if code < 0x20 {
        seq!['\\', 'u', '0', '0', hex_char(code / 16), hex_char(code % 16)]
    } else {
        seq![c]
    }
}

pub open spec fn json_chars(text: Seq<char>) -> Seq<char>
    decreases text.len(),
{
    if text.len() == 0 {
        Seq::empty()
    } else {
        json_chars(text.drop_last()) + json_char(text.last())
    }
}

/// A text as a JSON string.
pub open spec fn json_string(text: Seq<char>) -> Seq<char> {
    seq!['"'] + json_chars(text) + seq!['"']
}

/// The parts with commas between them.
pub open spec fn with_commas(parts: Seq<Seq<char>>) -> Seq<char>
    decreases parts.len(),
{
    if parts.len() == 0 {
        Seq::empty()
    } else if parts.len() == 1 {
        parts[0]
    } else {
        with_commas(parts.drop_last()) + seq![','] + parts.last()
    }
}

/// A JSON array of parts that are JSON.
pub open spec fn json_array(parts: Seq<Seq<char>>) -> Seq<char> {
    seq!['['] + with_commas(parts) + seq![']']
}

/// The views of a list of texts.
pub open spec fn text_views(texts: Seq<String>) -> Seq<Seq<char>> {
    texts.map_values(|text: String| text@)
}

/// A JSON array of strings.
pub open spec fn json_strings(texts: Seq<Seq<char>>) -> Seq<char> {
    json_array(texts.map_values(|text: Seq<char>| json_string(text)))
}

/// A JSON array of whole numbers.
pub open spec fn json_numbers(numbers: Seq<u64>) -> Seq<char> {
    json_array(numbers.map_values(|n: u64| numeral(n as nat)))
}

/// `serde_json::to_string` on strings: they stand in an array, without white space. Writing them to
/// memory does not fail.
#[verifier::external_body]
pub(crate) fn strings_to_json(texts: &[String]) -> (result: Result<String, String>)
    ensures
        result is Ok,
        result->Ok_0@ == json_strings(text_views(texts@)),
{
    serde_json::to_string(texts).map_err(|e| e.to_string())
}

/// `serde_json::to_string` on whole numbers: they stand in an array, without white space. Writing
/// them to memory does not fail.
#[verifier::external_body]
pub(crate) fn numbers_to_json(numbers: &[u64]) -> (result: Result<String, String>)
    ensures
        result is Ok,
        result->Ok_0@ == json_numbers(numbers@),
{
    serde_json::to_string(numbers).map_err(|e| e.to_string())
}

/// `a` comes before `b` in the order of their characters.
pub open spec fn text_less(a: Seq<char>, b: Seq<char>) -> bool
    decreases a.len(),
{
    if a.len() == 0 || b.len() == 0 {
        a.len() < b.len()
    } else if a[0] == b[0] {
        text_less(a.drop_first(), b.drop_first())
    } else {
        a[0] < b[0]
    }
}

/// The members stand in the order of their names, no two under the same name.
pub open spec fn ascending(members: Seq<(Seq<char>, Seq<char>)>) -> bool {
    forall|i: int, j: int|
        0 <= i < j < members.len() ==> text_less((#[trigger] members[i]).0, (#[trigger] members[j]).0)
}

/// A JSON object whose members are strings.
pub open spec fn json_object(members: Seq<(Seq<char>, Seq<char>)>) -> Seq<char> {
    seq!['{'] + with_commas(
        members.map_values(
            |member: (Seq<char>, Seq<char>)|
                json_string(member.0) + seq![':'] + json_string(member.1),
        ),
    ) + seq!['}']
}

/// `Value::to_string` on an array of one object whose members are strings: the members stand in the
/// order of their names, without white space.
#[verifier::external_body]
pub(crate) fn object_list_to_json(members: Vec<(String, String)>) -> (result: String)
    requires
        ascending(pair_views(members@)),
    ensures
        result@ == json_array(seq![json_object(pair_views(members@))]),
{
    let members = members.into_iter();
    let object = members.map(|(name, value)| (name, serde_json::Value::from(value))).collect();
    serde_json::Value::Array(vec![serde_json::Value::Object(object)]).to_string()
}

/// An array of one object that says where a file is, and under which name it goes where.
pub open spec fn json_relocation(path: Seq<char>, dest: Seq<char>, newname: Seq<char>) -> Seq<char> {
    json_array(seq![json_object(seq![("dest"@, dest), ("newname"@, newname), ("path"@, path)])])
}

/// An array of one object that says where a file is, and under which name it goes where.
pub fn relocation_to_json(path: &str, dest: &str, newname: &str) -> (result: String)
    ensures
        result@ == json_relocation(path@, dest@, newname@),
{
    let members: Vec<(String, String)> = vec![
        ("dest".to_owned(), dest.to_owned()),
        ("newname".to_owned(), newname.to_owned()),
        ("path".to_owned(), path.to_owned()),
    ];
    proof {
        reveal_strlit("dest");
        reveal_strlit("newname");
        reveal_strlit("path");
        assert(pair_views(members@) =~= seq![
            ("dest"@, dest@),
            ("newname"@, newname@),
            ("path"@, path@),
        ]);
    }
    object_list_to_json(members)
}

} // verus!
