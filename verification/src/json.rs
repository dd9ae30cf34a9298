use vstd::prelude::*;

verus! {

/// A JSON value, as the service reads documents it gets from other services: an
/// object's members in the order of the document, a number by its text.
#[derive(Debug)]
pub enum JsonValue {
    Null,
    Bool(bool),
    Number(String),
    Str(String),
    Array(Vec<JsonValue>),
    Object(Vec<(String, JsonValue)>),
}

/// The value of the first member named `key`, if any.
pub open spec fn lookup(members: Seq<(String, JsonValue)>, key: Seq<char>) -> Option<JsonValue>
    decreases members.len(),
{
    if members.len() == 0 {
        None
    } else {
        match lookup(members.drop_last(), key) {
            Some(v) => Some(v),
            None => if members.last().0@ == key { Some(members.last().1) } else { None },
        }
    }
}

/// The member `key` of an object; nothing for any other value.
pub open spec fn get(v: JsonValue, key: Seq<char>) -> Option<JsonValue> {
    match v {
        JsonValue::Object(members) => lookup(members@, key),
        _ => None,
    }
}

/// The texts of the string items of a list, in order; other items are skipped.
pub open spec fn strings_in(items: Seq<JsonValue>) -> Seq<Seq<char>>
    decreases items.len(),
{
    if items.len() == 0 {
        Seq::empty()
    } else {
        strings_in(items.drop_last()) + match items.last() {
            JsonValue::Str(s) => seq![s@],
            _ => Seq::empty(),
        }
    }
}

/// The text of a string value.
pub open spec fn as_str(v: Option<JsonValue>) -> Option<Seq<char>> {
    match v {
        Some(JsonValue::Str(s)) => Some(s@),
        _ => None,
    }
}

/// The texts of a list of strings.
pub open spec fn texts(s: Seq<String>) -> Seq<Seq<char>> {
    s.map_values(|t: String| t@)
}

/// The member named `key` of an object value (`serde_json::Value::get` with a string
/// index): nothing where the value is not an object or has no such member.
pub fn get_member<'a>(v: &'a JsonValue, key: &str) -> (res: Option<&'a JsonValue>)
    ensures
        match res {
            Some(r) => get(*v, key@) == Some(*r),
            None => get(*v, key@) is None,
        },
{
    match v {
        JsonValue::Object(members) => {
            let wanted = String::from_str(key);
            let mut i: usize = 0;
            while i < members.len()
                invariant
                    i <= members@.len(),
                    lookup(members@.take(i as int), key@) is None,
                    wanted@ == key@,
                    *v == JsonValue::Object(*members),
                decreases members.len() - i,
            {
                assert(members@.take(i as int + 1).drop_last() =~= members@.take(i as int));
                if members[i].0 == wanted {
                    assert(members@.take(i as int + 1).last() == members@[i as int]);
                    assert(lookup(members@.take(i as int + 1), key@) == Some(members@[i as int].1));
                    proof { lemma_lookup_extends(members@, i as int + 1, key@); }
                    return Some(&members[i].1);
                }
                i = i + 1;
            }
            assert(members@.take(i as int) =~= members@);
            None
        },
        _ => None,
    }
}

/// Once the first members hold `key`, later members change nothing.
proof fn lemma_lookup_extends(members: Seq<(String, JsonValue)>, n: int, key: Seq<char>)
    requires
        0 <= n <= members.len(),
        lookup(members.take(n), key) is Some,
    ensures
        lookup(members, key) == lookup(members.take(n), key),
    decreases members.len() - n,
{
    if n < members.len() {
        assert(members.take(n + 1).drop_last() =~= members.take(n));
        lemma_lookup_extends(members, n + 1, key);
    } else {
        assert(members.take(n) =~= members);
    }
}

/// The texts of the string items of a list (the `filter_map` of `as_str`).
pub fn string_items(items: &Vec<JsonValue>) -> (res: Vec<String>)
    ensures
        texts(res@) == strings_in(items@),
{
    let mut res: Vec<String> = Vec::new();
    let mut i: usize = 0;
    while i < items.len()
        invariant
            i <= items@.len(),
            texts(res@) == strings_in(items@.take(i as int)),
        decreases items.len() - i,
    {
        assert(items@.take(i as int + 1).drop_last() =~= items@.take(i as int));
        match &items[i] {
            JsonValue::Str(s) => {
                res.push(s.clone());
            },
            _ => {},
        }
        assert(texts(res@) =~= strings_in(items@.take(i as int + 1)));
        i = i + 1;
    }
    assert(items@.take(i as int) =~= items@);
    res
}

/// The strings of the list held by member `key` of a value; none where there is no such
/// member or it is not a list.
pub open spec fn string_list_member(v: JsonValue, key: Seq<char>) -> Seq<Seq<char>> {
    match get(v, key) {
        Some(JsonValue::Array(items)) => strings_in(items@),
        _ => Seq::empty(),
    }
}

/// The strings of the list held by member `key` of a value.
pub fn string_list_of(v: &JsonValue, key: &str) -> (res: Vec<String>)
    ensures
        texts(res@) == string_list_member(*v, key@),
{
    match get_member(v, key) {
        Some(JsonValue::Array(items)) => string_items(items),
        _ => {
            let res: Vec<String> = Vec::new();
            assert(texts(res@) =~= Seq::empty());
            res
        },
    }
}

/// The text of member `key` of a value, where that member is a string
/// (`value[key].as_str()`).
pub fn string_member(v: &JsonValue, key: &str) -> (res: Option<String>)
    ensures
        match res {
            Some(t) => as_str(get(*v, key@)) == Some(t@),
            None => as_str(get(*v, key@)) is None,
        },
{
    match get_member(v, key) {
        Some(JsonValue::Str(t)) => Some(t.clone()),
        _ => None,
    }
}

} // verus!
