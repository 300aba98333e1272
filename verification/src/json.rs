//! JSON values as the engine holds them, and their compact text.

use vstd::prelude::*;
use crate::text::{chars_of, decimal, push_decimal, push_signed_decimal, signed_decimal};

verus! {

/// A JSON number. A number that is no integer is held as its decimal text.
#[derive(Clone, Debug)]
pub enum JsonNumber {
    PosInt(u64),
    NegInt(i64),
    Float(String),
}

/// A JSON value. An object keeps its members in the order they were given.
#[derive(Debug)]
pub enum JsonValue {
    Null,
    Bool(bool),
    Number(JsonNumber),
    String(String),
    Array(Vec<JsonValue>),
    Object(Vec<(String, JsonValue)>),
}

/// The mathematical value of a [`JsonNumber`].
pub enum NumberView {
    PosInt(u64),
    NegInt(i64),
    Float(Seq<char>),
}

/// The mathematical value of a [`JsonValue`].
pub enum JsonView {
    Null,
    Bool(bool),
    Number(NumberView),
    String(Seq<char>),
    Array(Seq<JsonView>),
    Object(Seq<(Seq<char>, JsonView)>),
}

impl View for JsonNumber {
    type V = NumberView;

    open spec fn view(&self) -> NumberView {
        match self {
            JsonNumber::PosInt(n) => NumberView::PosInt(*n),
            JsonNumber::NegInt(n) => NumberView::NegInt(*n),
            JsonNumber::Float(t) => NumberView::Float(t@),
        }
    }
}

impl View for JsonValue {
    type V = JsonView;

    open spec fn view(&self) -> JsonView {
        value_view(*self)
    }
}

/// The mathematical value of `v`.
pub open spec fn value_view(v: JsonValue) -> JsonView
    decreases v, 0nat,
{
    match v {
        JsonValue::Null => JsonView::Null,
        JsonValue::Bool(b) => JsonView::Bool(b),
        JsonValue::Number(n) => JsonView::Number(n@),
        JsonValue::String(s) => JsonView::String(s@),
        JsonValue::Array(items) => JsonView::Array(items_view_upto(items@, items@.len())),
        JsonValue::Object(members) => JsonView::Object(
            members_view_upto(members@, members@.len()),
        ),
    }
}

/// The views of the first `n` items.
pub open spec fn items_view_upto(items: Seq<JsonValue>, n: nat) -> Seq<JsonView>
    decreases items, n,
{
    if n == 0 || n > items.len() {
        Seq::empty()
    } else {
        items_view_upto(items, (n - 1) as nat).push(value_view(items[n - 1]))
    }
}

/// The keys and the views of the first `n` members.
pub open spec fn members_view_upto(members: Seq<(String, JsonValue)>, n: nat) -> Seq<
    (Seq<char>, JsonView),
>
    decreases members, n,
{
    if n == 0 || n > members.len() {
        Seq::empty()
    } else {
        members_view_upto(members, (n - 1) as nat).push(
            (members[n - 1].0@, value_view(members[n - 1].1)),
        )
    }
}

/// The items of an array as their views.
pub open spec fn items_view(items: Seq<JsonValue>) -> Seq<JsonView> {
    Seq::new(items.len(), |i: int| items[i]@)
}

/// The members of an object as the pairs of their keys and views.
pub open spec fn members_view(members: Seq<(String, JsonValue)>) -> Seq<(Seq<char>, JsonView)> {
    Seq::new(members.len(), |i: int| (members[i].0@, members[i].1@))
}

proof fn lemma_items_view_upto(items: Seq<JsonValue>, n: nat)
    requires
        n <= items.len(),
    ensures
        items_view_upto(items, n) == items_view(items.take(n as int)),
    decreases n,
{
    if n > 0 {
        lemma_items_view_upto(items, (n - 1) as nat);
        assert(items_view(items.take(n as int)) =~= items_view(items.take(n - 1)).push(
            value_view(items[n - 1]),
        ));
    } else {
        assert(items_view(items.take(0)) =~= Seq::empty());
    }
}

proof fn lemma_members_view_upto(members: Seq<(String, JsonValue)>, n: nat)
    requires
        n <= members.len(),
    ensures
        members_view_upto(members, n) == members_view(members.take(n as int)),
    decreases n,
{
    if n > 0 {
        lemma_members_view_upto(members, (n - 1) as nat);
        assert(members_view(members.take(n as int)) =~= members_view(members.take(n - 1)).push(
            (members[n - 1].0@, value_view(members[n - 1].1)),
        ));
    } else {
        assert(members_view(members.take(0)) =~= Seq::empty());
    }
}

/// The view of an array holds the views of its items, in order.
pub proof fn lemma_array_view(v: JsonValue)
    requires
        v is Array,
    ensures
        v@ is Array,
        v@->Array_0 == items_view(v->Array_0@),
{
    let items = v->Array_0@;
    lemma_items_view_upto(items, items.len());
    assert(items.take(items.len() as int) == items);
}

/// The view of an object holds the keys and the views of its members, in order.
pub proof fn lemma_object_view(v: JsonValue)
    requires
        v is Object,
    ensures
        v@ is Object,
        v@->Object_0 == members_view(v->Object_0@),
{
    let members = v->Object_0@;
    lemma_members_view_upto(members, members.len());
    assert(members.take(members.len() as int) == members);
}

/// The character that writes the hexadecimal digit `d`, in lower case.
pub open spec fn hex_char(d: int) -> char {
    if d < 10 {
        (48 + d) as char
    } else {
        (87 + d) as char
    }
}

/// How a character stands in a JSON string: `"` and `\` behind a `\`; the
/// control characters with a short form in that form; the other characters
/// below the space as `\u00` and two hexadecimal digits; every other
/// character as it is.
pub open spec fn escaped(c: char) -> Seq<char> {
    if c == '"' {
        seq!['\\', '"']
    } else if c == '\\' {
        seq!['\\', '\\']
    } else if c == '\u{8}' {
        seq!['\\', 'b']
    } else if c == '\u{c}' {
        seq!['\\', 'f']
    } else if c == '\n' {
        seq!['\\', 'n']
    } else if c == '\r' {
        seq!['\\', 'r']
    } else if c == '\t' {
        seq!['\\', 't']
    } else if (c as u32) < 32 {
        seq!['\\', 'u', '0', '0', hex_char((c as u32 / 16) as int), hex_char((c as u32 % 16) as int)]
    } else {
        seq![c]
    }
}

/// The first `n` characters of `s`, each as it stands in a JSON string.
pub open spec fn escaped_upto(s: Seq<char>, n: nat) -> Seq<char>
    decreases n,
{
    if n == 0 || n > s.len() {
        Seq::empty()
    } else {
        escaped_upto(s, (n - 1) as nat) + escaped(s[n - 1])
    }
}

/// A string as JSON text: between double quotes, with the escapes that JSON
/// asks for.
pub open spec fn json_quoted(s: Seq<char>) -> Seq<char> {
    seq!['"'] + escaped_upto(s, s.len()) + seq!['"']
}

/// The compact JSON text of a number.
pub open spec fn number_text(n: NumberView) -> Seq<char> {
    match n {
        NumberView::PosInt(n) => decimal(n as nat),
        NumberView::NegInt(n) => signed_decimal(n as int),
        NumberView::Float(t) => t,
    }
}

/// The compact JSON text of a value: no white space, members in their order.
pub open spec fn json_text(v: JsonView) -> Seq<char>
    decreases v, 0nat,
{
    match v {
        JsonView::Null => "null"@,
        JsonView::Bool(b) => if b {
            "true"@
        } else {
            "false"@
        },
        JsonView::Number(n) => number_text(n),
        JsonView::String(s) => json_quoted(s),
        JsonView::Array(items) => "["@ + items_text(items, items.len()) + "]"@,
        JsonView::Object(members) => "{"@ + members_text(members, members.len()) + "}"@,
    }
}

/// The texts of the first `n` items, with a comma between two of them.
pub open spec fn items_text(items: Seq<JsonView>, n: nat) -> Seq<char>
    decreases items, n,
{
    if n == 0 || n > items.len() {
        Seq::empty()
    } else if n == 1 {
        json_text(items[0])
    } else {
        items_text(items, (n - 1) as nat) + ","@ + json_text(items[n - 1])
    }
}

/// The texts of the first `n` members, each as its quoted key, a colon and
/// its value, with a comma between two of them.
pub open spec fn members_text(members: Seq<(Seq<char>, JsonView)>, n: nat) -> Seq<char>
    decreases members, n,
{
    if n == 0 || n > members.len() {
        Seq::empty()
    } else if n == 1 {
        json_quoted(members[0].0) + ":"@ + json_text(members[0].1)
    } else {
        members_text(members, (n - 1) as nat) + ","@ + json_quoted(members[n - 1].0) + ":"@
            + json_text(members[n - 1].1)
    }
}

/// Appends a character as it stands in a JSON string.
pub fn push_escaped(out: &mut String, c: char)
    ensures
        final(out)@ == old(out)@ + escaped(c),
{
    if c == '"' {
        out.push('\\');
        out.push('"');
    } else if c == '\\' {
        out.push('\\');
        out.push('\\');
    } else if c == '\u{8}' {
        out.push('\\');
        out.push('b');
    } else if c == '\u{c}' {
        out.push('\\');
        out.push('f');
    } else if c == '\n' {
        out.push('\\');
        out.push('n');
    } else if c == '\r' {
        out.push('\\');
        out.push('r');
    } else if c == '\t' {
        out.push('\\');
        out.push('t');
    } else if (c as u32) < 32 {
        let v: u8 = c as u8;
        out.push('\\');
        out.push('u');
        out.push('0');
        out.push('0');
        out.push(hex_digit(v / 16));
        out.push(hex_digit(v % 16));
    } else {
        out.push(c);
    }
    assert(out@ =~= old(out)@ + escaped(c));
}

/// The character that writes the hexadecimal digit `d`, in lower case.
pub fn hex_digit(d: u8) -> (c: char)
    requires
        d < 16,
    ensures
        c == hex_char(d as int),
{
    if d < 10 {
        (48 + d) as char
    } else {
        (87 + d) as char
    }
}

/// A string as JSON text.
pub fn quote(s: &str) -> (r: String)
    ensures
        r@ == json_quoted(s@),
{
    let chars = chars_of(s);
    let mut r = String::new();
    r.push('"');
    let mut i: usize = 0;
    while i < chars.len()
        invariant
            i <= chars@.len(),
            chars@ == s@,
            r@ == seq!['"'] + escaped_upto(chars@, i as nat),
        decreases chars@.len() - i,
    {
        let ghost before = r@;
        push_escaped(&mut r, chars[i]);
        assert(before + escaped(chars@[i as int]) == seq!['"'] + escaped_upto(
            chars@,
            (i + 1) as nat,
        ));
        i += 1;
    }
    r.push('"');
    assert(r@ == json_quoted(s@));
    r
}

impl JsonNumber {
    /// The number that stands for the integer `i`.
    pub fn from_i64(i: i64) -> (r: JsonNumber)
        ensures
            r@ == (if i < 0 {
                NumberView::NegInt(i)
            } else {
                NumberView::PosInt(i as u64)
            }),
    {
        if i < 0 {
            JsonNumber::NegInt(i)
        } else {
            JsonNumber::PosInt(i as u64)
        }
    }

    /// A copy of the number.
    pub fn duplicate(&self) -> (r: JsonNumber)
        ensures
            r@ == self@,
    {
        match self {
            JsonNumber::PosInt(n) => JsonNumber::PosInt(*n),
            JsonNumber::NegInt(n) => JsonNumber::NegInt(*n),
            JsonNumber::Float(t) => JsonNumber::Float(t.clone()),
        }
    }
}

impl Clone for JsonValue {
    fn clone(&self) -> (r: Self)
        ensures
            r@ == self@,
    {
        self.duplicate()
    }
}

impl JsonValue {
    /// The value that holds the string `s`.
    pub fn string(s: &str) -> (r: JsonValue)
        ensures
            r@ == JsonView::String(s@),
    {
        JsonValue::String(s.to_owned())
    }

    /// The characters of a string value; `None` for any other value.
    pub fn as_str(&self) -> (r: Option<&str>)
        ensures
            match self@ {
                JsonView::String(s) => r matches Some(t) && t@ == s,
                _ => r is None,
            },
    {
        match self {
            JsonValue::String(s) => Some(s.as_str()),
            _ => None,
        }
    }

    /// A deep copy of the value.
    pub fn duplicate(&self) -> (r: JsonValue)
        ensures
            r@ == self@,
        decreases self,
    {
        match self {
            JsonValue::Null => JsonValue::Null,
            JsonValue::Bool(b) => JsonValue::Bool(*b),
            JsonValue::Number(n) => JsonValue::Number(n.duplicate()),
            JsonValue::String(s) => JsonValue::String(s.clone()),
            JsonValue::Array(items) => {
                let mut out: Vec<JsonValue> = Vec::new();
                let mut i: usize = 0;
                while i < items.len()
                    invariant
                        i <= items.len(),
                        out.len() == i,
                        self is Array,
                        self->Array_0 == *items,
                        forall|j: int| 0 <= j < i ==> out[j]@ == items[j]@,
                    decreases items.len() - i,
                {
                    out.push(items[i].duplicate());
                    i += 1;
                }
                let r = JsonValue::Array(out);
                proof {
                    lemma_array_view(r);
                    lemma_array_view(*self);
                    assert(items_view(r->Array_0@) =~= items_view(self->Array_0@));
                }
                r
            },
            JsonValue::Object(members) => {
                let mut out: Vec<(String, JsonValue)> = Vec::new();
                let mut i: usize = 0;
                while i < members.len()
                    invariant
                        i <= members.len(),
                        out.len() == i,
                        self is Object,
                        self->Object_0 == *members,
                        forall|j: int|
                            0 <= j < i ==> out[j].0@ == members[j].0@ && out[j].1@
                                == members[j].1@,
                    decreases members.len() - i,
                {
                    out.push((members[i].0.clone(), members[i].1.duplicate()));
                    i += 1;
                }
                let r = JsonValue::Object(out);
                proof {
                    lemma_object_view(r);
                    lemma_object_view(*self);
                    assert(members_view(r->Object_0@) =~= members_view(self->Object_0@));
                }
                r
            },
        }
    }

    /// Appends the compact JSON text of the value to `out`.
    pub fn write_text(&self, out: &mut String)
        ensures
            final(out)@ == old(out)@ + json_text(self@),
        decreases self,
    {
        match self {
            JsonValue::Null => out.push_str("null"),
            JsonValue::Bool(b) => {
                if *b {
                    out.push_str("true")
                } else {
                    out.push_str("false")
                }
            },
            JsonValue::Number(JsonNumber::PosInt(n)) => push_decimal(out, *n),
            JsonValue::Number(JsonNumber::NegInt(n)) => push_signed_decimal(out, *n),
            JsonValue::Number(JsonNumber::Float(t)) => out.push_str(t.as_str()),
            JsonValue::String(s) => {
                let q = quote(s.as_str());
                out.push_str(q.as_str());
            },
            JsonValue::Array(items) => {
                out.push_str("[");
                let ghost views = self@->Array_0;
                proof {
                    lemma_array_view(*self);
                }
                let mut i: usize = 0;
                while i < items.len()
                    invariant
                        i <= items.len(),
                        self is Array,
                        self->Array_0 == *items,
                        views.len() == items.len(),
                        forall|j: int| 0 <= j < items.len() ==> views[j] == items[j]@,
                        out@ == old(out)@ + ("["@ + items_text(views, i as nat)),
                    decreases items.len() - i,
                {
                    let ghost before = out@;
                    if i > 0 {
                        out.push_str(",");
                    }
                    items[i].write_text(out);
                    proof {
                        let t = json_text(views[i as int]);
                        if i > 0 {
                            assert(before + ","@ + t == old(out)@ + ("["@ + (items_text(
                                views,
                                i as nat,
                            ) + ","@ + t)));
                        } else {
                            assert(items_text(views, 0) == Seq::<char>::empty());
                            assert(before + t == old(out)@ + ("["@ + t));
                        }
                    }
                    i += 1;
                }
                out.push_str("]");
                assert(out@ == old(out)@ + ("["@ + items_text(views, views.len()) + "]"@));
            },
            JsonValue::Object(members) => {
                out.push_str("{");
                let ghost views = self@->Object_0;
                proof {
                    lemma_object_view(*self);
                }
                let mut i: usize = 0;
                while i < members.len()
                    invariant
                        i <= members.len(),
                        self is Object,
                        self->Object_0 == *members,
                        views.len() == members.len(),
                        forall|j: int|
                            0 <= j < members.len() ==> views[j] == (members[j].0@, members[j].1@),
                        out@ == old(out)@ + ("{"@ + members_text(views, i as nat)),
                    decreases members.len() - i,
                {
                    let ghost before = out@;
                    if i > 0 {
                        out.push_str(",");
                    }
                    let q = quote(members[i].0.as_str());
                    out.push_str(q.as_str());
                    out.push_str(":");
                    members[i].1.write_text(out);
                    proof {
                        let k = json_quoted(views[i as int].0);
                        let t = json_text(views[i as int].1);
                        if i > 0 {
                            assert(before + ","@ + k + ":"@ + t == old(out)@ + ("{"@ + (
                            members_text(views, i as nat) + ","@ + k + ":"@ + t)));
                        } else {
                            assert(members_text(views, 0) == Seq::<char>::empty());
                            assert(before + k + ":"@ + t == old(out)@ + ("{"@ + (k + ":"@ + t)));
                        }
                    }
                    i += 1;
                }
                out.push_str("}");
                assert(out@ == old(out)@ + ("{"@ + members_text(views, views.len()) + "}"@));
            },
        }
    }

    /// The compact JSON text of the value.
    pub fn to_text(&self) -> (r: String)
        ensures
            r@ == json_text(self@),
    {
        let mut out = String::new();
        self.write_text(&mut out);
        assert(Seq::<char>::empty() + json_text(self@) == json_text(self@));
        out
    }
}

} // verus!
