//! JSON texts of plain values, and what is read of JSON texts.

use vstd::prelude::*;

use crate::text;

verus! {

/// A character inside a JSON string.
pub open spec fn json_char(c: char) -> Seq<char> {
    if c == '"' || c == '\\' {
        seq!['\\', c]
    } else if c == '\u{8}' {
        seq!['\\', 'b']
    } else if c == '\t' {
        seq!['\\', 't']
    } else if c == '\n' {
        seq!['\\', 'n']
    } else if c == '\u{c}' {
        seq!['\\', 'f']
    } else if c == '\r' {
        seq!['\\', 'r']
    } else if ' ' > c {
        seq![
            '\\',
            'u',
            '0',
            '0',
            text::hex_digit(c as int / 16) as char,
            text::hex_digit(c as int % 16) as char,
        ]
    } else {
        seq![c]
    }
}

/// The characters between the quotes of a JSON string.
pub open spec fn json_chars(value: Seq<char>) -> Seq<char>
    decreases value.len(),
{
    if value.len() == 0 {
        Seq::empty()
    } else {
        json_char(value[0]) + json_chars(value.drop_first())
    }
}

/// The JSON string of a text.
pub open spec fn json_string(value: Seq<char>) -> Seq<char> {
    seq!['"'] + json_chars(value) + seq!['"']
}

/// The JSON value of a text that may be absent.
pub open spec fn json_opt_string(value: Option<Seq<char>>) -> Seq<char> {
    match value {
        Some(value) => json_string(value),
        None => "null"@,
    }
}

/// The JSON value of a number that may be absent.
pub open spec fn json_opt_number(value: Option<i64>) -> Seq<char> {
    match value {
        Some(n) => text::signed_decimal(n as int),
        None => "null"@,
    }
}

/// The JSON value of a truth value.
pub open spec fn json_bool(value: bool) -> Seq<char> {
    if value {
        "true"@
    } else {
        "false"@
    }
}

/// `serde_json::to_string` on a text: quotes, backslashes and the characters below
/// the space are escaped, every other character stands as it is, and writing to
/// memory does not fail.
#[verifier::external_body]
pub(crate) fn json_text(value: &str) -> (r: Option<String>)
    ensures
        text::opt_text(r) == Some(json_string(value@)),
{
    serde_json::to_string(value).ok()
}

/// The JSON value of a text that may be absent.
pub fn opt_string_text(value: &Option<String>) -> (r: Option<String>)
    ensures
        text::opt_text(r) == Some(json_opt_string(text::opt_text(*value))),
{
    match value {
        Some(value) => json_text(value.as_str()),
        None => Some("null".to_owned()),
    }
}

/// The JSON value of a number that may be absent.
pub fn opt_number_text(value: Option<i64>) -> (r: String)
    ensures
        r@ == json_opt_number(value),
{
    match value {
        Some(n) => text::signed_decimal_text(n),
        None => "null".to_owned(),
    }
}

/// The JSON value of a truth value.
pub fn bool_text(value: bool) -> (r: &'static str)
    ensures
        r@ == json_bool(value),
{
    if value {
        "true"
    } else {
        "false"
    }
}

/// Whether `serde_json` reads a text as a JSON value.
pub uninterp spec fn json_readable_of(text: Seq<char>) -> bool;

/// `serde_json::from_str` into a value of any shape: whether the text is one JSON
/// value and nothing more, named for the text.
#[verifier::external_body]
pub(crate) fn json_readable(text: &str) -> (r: bool)
    ensures
        r == json_readable_of(text@),
{
    serde_json::from_str::<serde_json::Value>(text).is_ok()
}

/// Whether `serde_json` reads a text as a list of pairs of texts.
pub uninterp spec fn json_pairs_readable_of(text: Seq<char>) -> bool;

/// `serde_json::from_str` into a list of pairs of texts: whether the text is one,
/// named for the text.
#[verifier::external_body]
pub(crate) fn json_pairs_readable(text: &str) -> (r: bool)
    ensures
        r == json_pairs_readable_of(text@),
{
    serde_json::from_str::<Vec<(String, String)>>(text).is_ok()
}

/// The lists of texts that the members of a JSON object hold, in the order of their
/// names.
pub uninterp spec fn json_lists_of(bytes: Seq<u8>) -> Option<Seq<(Seq<char>, Seq<Seq<char>>)>>;

/// Named lists of texts as they are.
pub open spec fn list_views(lists: Seq<(String, Vec<String>)>) -> Seq<(Seq<char>, Seq<Seq<char>>)> {
    Seq::new(lists.len(), |i: int| (lists[i].0@, text::texts(lists[i].1@)))
}

/// `serde_json::from_slice` into a `BTreeMap` from texts to lists of texts: its entries,
/// named for the bytes; absent where they are no such object.
#[verifier::external_body]
pub(crate) fn json_lists(bytes: &[u8]) -> (r: Option<Vec<(String, Vec<String>)>>)
    ensures
        match r {
            Some(lists) => json_lists_of(bytes@) == Some(list_views(lists@)),
            None => json_lists_of(bytes@) is None,
        },
{
    let map: std::collections::BTreeMap<String, Vec<String>> = serde_json::from_slice(bytes).ok()?;
    Some(map.into_iter().collect())
}

/// The JSON list of two texts.
pub open spec fn json_pair(pair: (String, String)) -> Seq<char> {
    seq!['['] + json_string(pair.0@) + seq![','] + json_string(pair.1@) + seq![']']
}

/// The JSON list of pairs of texts.
pub open spec fn json_pairs(pairs: Seq<(String, String)>) -> Seq<char> {
    seq!['['] + text::joined(Seq::new(pairs.len(), |i: int| json_pair(pairs[i])), seq![',']) + seq![']']
}

/// `serde_json::to_string` on a list of pairs of texts: a list of lists without
/// spaces, each text written as a string of its own. Writing to memory does not fail,
/// and what was written is read back as such a list.
#[verifier::external_body]
pub(crate) fn json_pairs_text(pairs: &Vec<(String, String)>) -> (r: Option<String>)
    ensures
        text::opt_text(r) == Some(json_pairs(pairs@)),
        json_pairs_readable_of(r->0@),
{
    serde_json::to_string(pairs).ok()
}

/// The text of a member of a JSON object, as `serde_json` reads and writes it.
pub uninterp spec fn json_member_of(text: Seq<char>, key: Seq<char>) -> Option<Seq<char>>;

/// `serde_json::from_str` into an object, whose member under a key is written again by
/// `serde_json::to_string`: the member's text, named for the two texts. It is absent
/// where the text is no object or has no such member.
#[verifier::external_body]
pub(crate) fn json_member(text: &str, key: &str) -> (r: Option<String>)
    ensures
        text::opt_text(r) == json_member_of(text@, key@),
{
    let object: serde_json::Map<String, serde_json::Value> = serde_json::from_str(text).ok()?;
    serde_json::to_string(object.get(key)?).ok()
}

/// The texts of the items of a JSON list, as `serde_json` reads and writes them.
pub uninterp spec fn json_items_of(text: Seq<char>) -> Option<Seq<Seq<char>>>;

/// `serde_json::from_str` into a list, whose items are written again: the text of each,
/// named for the list's text. They are absent where the text is no list.
#[verifier::external_body]
pub(crate) fn json_items(text: &str) -> (r: Option<Vec<String>>)
    ensures
        match r {
            Some(items) => json_items_of(text@) == Some(text::texts(items@)),
            None => json_items_of(text@) is None,
        },
{
    let items: Vec<serde_json::Value> = serde_json::from_str(text).ok()?;
    Some(items.into_iter().map(|item| item.to_string()).collect())
}

/// What `serde_json` reads of a JSON string.
pub uninterp spec fn json_string_read(text: Seq<char>) -> Option<Seq<char>>;

/// `serde_json::from_str` into a text, named for the JSON text; absent where that is no
/// string.
#[verifier::external_body]
pub(crate) fn read_string(text: &str) -> (r: Option<String>)
    ensures
        text::opt_text(r) == json_string_read(text@),
{
    serde_json::from_str(text).ok()
}

/// What `serde_json` reads of a JSON integer.
pub uninterp spec fn json_integer_read(text: Seq<char>) -> Option<i64>;

/// `serde_json::from_str` into an integer of 64 bits, named for the JSON text; absent
/// where that is no such integer.
#[verifier::external_body]
pub(crate) fn read_integer(text: &str) -> (r: Option<i64>)
    ensures
        r == json_integer_read(text@),
{
    serde_json::from_str(text).ok()
}

/// The text that a member of a JSON object is, where it is one.
pub open spec fn string_at(text: Seq<char>, key: Seq<char>) -> Option<Seq<char>> {
    match json_member_of(text, key) {
        Some(member) => json_string_read(member),
        None => None,
    }
}

/// The integer that a member of a JSON object is, where it is one.
pub open spec fn integer_at(text: Seq<char>, key: Seq<char>) -> Option<i64> {
    match json_member_of(text, key) {
        Some(member) => json_integer_read(member),
        None => None,
    }
}

/// The texts of the items of the list that a member of a JSON object is, where it is
/// one.
pub open spec fn items_at(text: Seq<char>, key: Seq<char>) -> Option<Seq<Seq<char>>> {
    match json_member_of(text, key) {
        Some(member) => json_items_of(member),
        None => None,
    }
}

/// Whether a member of a JSON object is a text.
pub(crate) fn holds_string(text: &str, key: &str, value: &str) -> (r: bool)
    ensures
        r == (string_at(text@, key@) == Some(value@)),
{
    match json_member(text, key) {
        Some(member) => {
            let found = read_string(member.as_str());
            text::opt_text_is(&found, value)
        },
        None => false,
    }
}

/// Whether a member of a JSON object is an integer.
pub(crate) fn holds_integer(text: &str, key: &str, value: i64) -> (r: bool)
    ensures
        r == (integer_at(text@, key@) == Some(value)),
{
    match json_member(text, key) {
        Some(member) => read_integer(member.as_str()) == Some(value),
        None => false,
    }
}

/// The texts of the items of the list that a member of a JSON object is.
pub(crate) fn list_at(text: &str, key: &str) -> (r: Option<Vec<String>>)
    ensures
        match r {
            Some(items) => items_at(text@, key@) == Some(text::texts(items@)),
            None => items_at(text@, key@) is None,
        },
{
    match json_member(text, key) {
        Some(member) => json_items(member.as_str()),
        None => None,
    }
}

/// Equal texts with equal beginnings of one length have equal ends.
pub proof fn lemma_same_rest<A>(a: Seq<A>, b: Seq<A>, x: Seq<A>, y: Seq<A>)
    requires
        a + x == b + y,
        a.len() == b.len(),
    ensures
        a == b,
        x == y,
{
    let l = a + x;
    let r = b + y;
    assert(a =~= l.subrange(0, a.len() as int));
    assert(b =~= r.subrange(0, b.len() as int));
    assert(x =~= l.subrange(a.len() as int, l.len() as int));
    assert(y =~= r.subrange(b.len() as int, r.len() as int));
}

proof fn lemma_hex_digits(c: char, d: char)
    requires
        ' ' > c,
        ' ' > d,
        text::hex_digit(c as int / 16) as char == text::hex_digit(d as int / 16) as char,
        text::hex_digit(c as int % 16) as char == text::hex_digit(d as int % 16) as char,
    ensures
        c == d,
{
    assert(c as int / 16 == d as int / 16);
    assert(c as int % 16 == d as int % 16);
    assert(c as int == d as int);
}

/// A character inside a JSON string is read one way, whatever follows it.
proof fn lemma_json_char_unique(c: char, d: char, x: Seq<char>, y: Seq<char>)
    requires
        json_char(c) + x == json_char(d) + y,
    ensures
        c == d,
        x == y,
{
    let a = json_char(c);
    let b = json_char(d);
    let l = a + x;
    let r = b + y;
    assert(l[0] == a[0] && r[0] == b[0]);
    if a.len() == 1 || b.len() == 1 {
        assert(c == d);
    } else {
        assert(l[1] == a[1] && r[1] == b[1]);
        if a.len() == 6 && b.len() == 6 {
            assert(l[4] == a[4] && r[4] == b[4]);
            assert(l[5] == a[5] && r[5] == b[5]);
            lemma_hex_digits(c, d);
        }
        assert(c == d);
    }
    lemma_same_rest(a, b, x, y);
}

proof fn lemma_json_chars_unique(a: Seq<char>, b: Seq<char>, x: Seq<char>, y: Seq<char>)
    requires
        json_chars(a) + (seq!['"'] + x) == json_chars(b) + (seq!['"'] + y),
    ensures
        a == b,
        x == y,
    decreases a.len(),
{
    let end_x = seq!['"'] + x;
    let end_y = seq!['"'] + y;
    let l = json_chars(a) + end_x;
    let r = json_chars(b) + end_y;
    if a.len() == 0 && b.len() == 0 {
        assert(l =~= end_x);
        assert(r =~= end_y);
        lemma_same_rest(seq!['"'], seq!['"'], x, y);
        assert(a =~= b);
    } else if a.len() == 0 {
        assert(l[0] == '"');
        assert(r[0] == json_char(b[0])[0]);
        assert(false);
    } else if b.len() == 0 {
        assert(r[0] == '"');
        assert(l[0] == json_char(a[0])[0]);
        assert(false);
    } else {
        let rest_a = json_chars(a.drop_first()) + end_x;
        let rest_b = json_chars(b.drop_first()) + end_y;
        assert(l =~= json_char(a[0]) + rest_a);
        assert(r =~= json_char(b[0]) + rest_b);
        lemma_json_char_unique(a[0], b[0], rest_a, rest_b);
        lemma_json_chars_unique(a.drop_first(), b.drop_first(), x, y);
        assert(a =~= seq![a[0]] + a.drop_first());
        assert(b =~= seq![b[0]] + b.drop_first());
    }
}

/// A JSON string that may be absent is read one way, whatever follows it.
pub proof fn lemma_json_opt_string_unique(
    a: Option<Seq<char>>,
    b: Option<Seq<char>>,
    x: Seq<char>,
    y: Seq<char>,
)
    requires
        json_opt_string(a) + x == json_opt_string(b) + y,
    ensures
        a == b,
        x == y,
{
    reveal_strlit("null");
    let l = json_opt_string(a) + x;
    let r = json_opt_string(b) + y;
    assert(l[0] == json_opt_string(a)[0]);
    assert(r[0] == json_opt_string(b)[0]);
    if a is Some && b is Some {
        let body_a = json_chars(a->0) + (seq!['"'] + x);
        let body_b = json_chars(b->0) + (seq!['"'] + y);
        assert(l =~= seq!['"'] + body_a);
        assert(r =~= seq!['"'] + body_b);
        lemma_same_rest(seq!['"'], seq!['"'], body_a, body_b);
        lemma_json_chars_unique(a->0, b->0, x, y);
    } else {
        assert(a is None && b is None);
        lemma_same_rest("null"@, "null"@, x, y);
    }
}

/// A number that may be absent is read one way before a comma.
pub proof fn lemma_json_opt_number_unique(a: Option<i64>, b: Option<i64>, x: Seq<char>, y: Seq<char>)
    requires
        json_opt_number(a) + (seq![','] + x) == json_opt_number(b) + (seq![','] + y),
    ensures
        a == b,
        x == y,
{
    reveal_strlit("null");
    let p = json_opt_number(a);
    let q = json_opt_number(b);
    let l = p + (seq![','] + x);
    let r = q + (seq![','] + y);
    lemma_number_chars(a);
    lemma_number_chars(b);
    if p.len() < q.len() {
        assert(l[p.len() as int] == ',');
        assert(r[p.len() as int] == q[p.len() as int]);
        assert(false);
    }
    if q.len() < p.len() {
        assert(r[q.len() as int] == ',');
        assert(l[q.len() as int] == p[q.len() as int]);
        assert(false);
    }
    lemma_same_rest(p, q, seq![','] + x, seq![','] + y);
    lemma_same_rest(seq![','], seq![','], x, y);
    if a is Some && b is Some {
        text::lemma_signed_decimal(a->0);
        text::lemma_signed_decimal(b->0);
        assert(text::utf8(p) == text::utf8(q));
    } else if a is Some || b is Some {
        assert(p[0] == q[0]);
        assert(false);
    }
}

proof fn lemma_number_chars(a: Option<i64>)
    ensures
        json_opt_number(a).len() > 0,
        forall|i: int| 0 <= i < json_opt_number(a).len() ==> #[trigger] json_opt_number(a)[i] != ',',
        a is Some ==> json_opt_number(a)[0] != 'n',
{
    reveal_strlit("null");
    if a is Some {
        let n = a->0;
        let bytes = text::signed_decimal_bytes(n as int);
        let p = json_opt_number(a);
        text::lemma_signed_decimal(n);
        if n < 0 {
            text::lemma_decimal((-n) as nat);
        } else {
            text::lemma_decimal(n as nat);
        }
        assert(p.len() == bytes.len());
        assert forall|i: int| 0 <= i < p.len() implies #[trigger] p[i] != ',' && p[i] != 'n' by {
            let byte = bytes[i];
            assert(text::is_digit_byte(byte) || byte == 45);
            assert(p[i] == byte as char);
        }
    }
}

} // verus!
