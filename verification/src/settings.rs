//! Reading a configuration value by a dotted key, such as
//! `behavior.sound_enabled`, from the configuration written out as a JSON
//! tree.

use vstd::prelude::*;

verus! {

/// A JSON value: the configuration as a tree of objects, arrays and leaves.
/// A number is kept as its text.
#[derive(Debug)]
pub enum JsonValue {
    Null,
    Bool(bool),
    Number(String),
    Text(String),
    Array(Vec<JsonValue>),
    Object(Vec<(String, JsonValue)>),
}

/// The parts of a key between its dots, as `str::split('.')` gives them:
/// `"a..b"` has the parts `a`, the empty text and `b`, and the empty key has
/// one empty part.
pub open spec fn key_parts(s: Seq<char>) -> Seq<Seq<char>>
    decreases s.len(),
{
    if s.len() == 0 {
        seq![Seq::empty()]
    } else if s[0] == '.' {
        seq![Seq::empty()] + key_parts(s.drop_first())
    } else {
        join_front(seq![s[0]], key_parts(s.drop_first()))
    }
}

/// The parts with `p` put in front of the first one.
pub open spec fn join_front(p: Seq<char>, parts: Seq<Seq<char>>) -> Seq<Seq<char>> {
    parts.update(0, p + parts[0])
}

/// A key has at least one part.
proof fn lemma_key_parts_nonempty(s: Seq<char>)
    ensures
        key_parts(s).len() >= 1,
    decreases s.len(),
{
    if s.len() > 0 {
        lemma_key_parts_nonempty(s.drop_first());
    }
}

/// Splits a key at its dots.
pub fn split_key(key: &str) -> (r: Vec<String>)
    ensures
        r@.map_values(|p: String| p@) == key_parts(key@),
{
    let n = key.unicode_len();
    let mut r: Vec<String> = Vec::new();
    let mut start: usize = 0;
    let mut i: usize = 0;
    proof {
        lemma_key_parts_nonempty(key@);
        assert(key@.skip(0) =~= key@);
        assert(join_front(key@.subrange(0, 0), key_parts(key@)) =~= key_parts(key@));
    }
    while i < n
        invariant
            n == key@.len(),
            start <= i <= n,
            key_parts(key@) == r@.map_values(|p: String| p@) + join_front(key@.subrange(start as int, i as int), key_parts(key@.skip(i as int))),
        decreases n - i,
    {
        let ghost t = key@.skip(i as int);
        let ghost rest = key_parts(key@.skip(i + 1));
        proof {
            lemma_key_parts_nonempty(key@.skip(i + 1));
            assert(t.drop_first() =~= key@.skip(i + 1));
            assert(t[0] == key@[i as int]);
        }
        let c = key.get_char(i);
        if c == '.' {
            let part = key.substring_char(start, i).to_owned();
            let ghost before = r@;
            r.push(part);
            proof {
                assert(key_parts(t) == seq![Seq::<char>::empty()] + rest);
                assert(join_front(key@.subrange(start as int, i as int), key_parts(t))
                    =~= seq![key@.subrange(start as int, i as int)] + rest);
                assert(join_front(key@.subrange(i + 1, i + 1), rest) =~= rest);
                assert(r@.map_values(|p: String| p@) =~= before.map_values(|p: String| p@).push(part@));
                assert(r@.map_values(|p: String| p@) + join_front(key@.subrange(i + 1, i + 1), rest)
                    =~= before.map_values(|p: String| p@) + join_front(key@.subrange(start as int, i as int), key_parts(t)));
            }
            start = i + 1;
        } else {
            proof {
                assert(key_parts(t) == join_front(seq![c], rest));
                assert(key@.subrange(start as int, i + 1) =~= key@.subrange(start as int, i as int) + seq![c]);
                assert(key@.subrange(start as int, i as int) + (seq![c] + rest[0])
                    =~= key@.subrange(start as int, i + 1) + rest[0]);
                assert(join_front(key@.subrange(start as int, i as int), join_front(seq![c], rest))
                    =~= join_front(key@.subrange(start as int, i + 1), rest));
            }
        }
        i = i + 1;
    }
    let last = key.substring_char(start, n).to_owned();
    let ghost before = r@;
    r.push(last);
    proof {
        assert(key@.skip(n as int) =~= Seq::<char>::empty());
        assert(key_parts(Seq::<char>::empty()) == seq![Seq::<char>::empty()]);
        assert(join_front(key@.subrange(start as int, n as int), seq![Seq::<char>::empty()])
            =~= seq![key@.subrange(start as int, n as int)]);
        assert(r@.map_values(|p: String| p@) =~= before.map_values(|p: String| p@).push(last@));
    }
    r
}

/// The value of the first member of an object with the name, if any.
pub open spec fn member_value(members: Seq<(String, JsonValue)>, name: Seq<char>) -> Option<JsonValue>
    decreases members.len(),
{
    if members.len() == 0 {
        None
    } else if members[0].0@ == name {
        Some(members[0].1)
    } else {
        member_value(members.drop_first(), name)
    }
}

/// The value reached from `v` by following the member names of `path` in
/// turn through nested objects; `None` where a name is missing or a value on
/// the way is not an object.
pub open spec fn value_at(v: JsonValue, path: Seq<Seq<char>>) -> Option<JsonValue>
    decreases path.len(),
{
    if path.len() == 0 {
        Some(v)
    } else {
        match v {
            JsonValue::Object(members) => match member_value(members@, path[0]) {
                Some(child) => value_at(child, path.drop_first()),
                None => None,
            },
            _ => None,
        }
    }
}

/// The index of the first member with the name, if any.
fn find_member(members: &Vec<(String, JsonValue)>, name: &String) -> (r: Option<usize>)
    ensures
        r matches Some(j) ==> j < members@.len() && member_value(members@, name@) == Some(members@[j as int].1),
        r is None ==> member_value(members@, name@) is None,
{
    let mut i: usize = 0;
    assert(members@.skip(0) =~= members@);
    while i < members.len()
        invariant
            i <= members@.len(),
            member_value(members@, name@) == member_value(members@.skip(i as int), name@),
        decreases members@.len() - i,
    {
        proof {
            assert(members@.skip(i as int).drop_first() =~= members@.skip(i + 1));
            assert(members@.skip(i as int)[0] == members@[i as int]);
        }
        if members[i].0 == *name {
            return Some(i);
        }
        i = i + 1;
    }
    None
}

/// The value under a dotted key, as `serde_json::Value::get` applied to each
/// part of the key in turn.
pub fn lookup<'a>(v: &'a JsonValue, key: &str) -> (r: Option<&'a JsonValue>)
    ensures
        r matches Some(x) ==> value_at(*v, key_parts(key@)) == Some(*x),
        r is None ==> value_at(*v, key_parts(key@)) is None,
{
    let parts = split_key(key);
    let ghost path = parts@.map_values(|p: String| p@);
    let mut cur: &JsonValue = v;
    let mut k: usize = 0;
    assert(path.skip(0) =~= path);
    while k < parts.len()
        invariant
            path == parts@.map_values(|p: String| p@),
            path == key_parts(key@),
            k <= parts@.len(),
            value_at(*v, path) == value_at(*cur, path.skip(k as int)),
        decreases parts@.len() - k,
    {
        proof {
            assert(path.skip(k as int)[0] == parts@[k as int]@);
            assert(path.skip(k as int).drop_first() =~= path.skip(k + 1));
        }
        match cur {
            JsonValue::Object(members) => match find_member(members, &parts[k]) {
                Some(j) => {
                    cur = &members[j].1;
                },
                None => {
                    return None;
                },
            },
            _ => {
                return None;
            },
        }
        k = k + 1;
    }
    assert(path.skip(k as int) =~= Seq::<Seq<char>>::empty());
    Some(cur)
}

} // verus!
