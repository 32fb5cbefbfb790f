//! A JSON document flattened into `key=value` properties: each leaf under
//! its dotted path, arrays of scalars joined with commas.
use vstd::prelude::*;
use crate::text::{append_decimal, append_str, decimal_text, join, join_strings, owned, views};
use crate::vars::{pair_views, sorted_entries, sorted_listing, StrMap};

verus! {

/// A JSON document; a number is carried as its JSON text.
pub enum JsonTree {
    Null,
    Bool(bool),
    Number(String),
    Str(String),
    Array(Vec<JsonTree>),
    Object(Vec<(String, JsonTree)>),
}

/// A string, number or boolean.
pub open spec fn is_scalar(t: JsonTree) -> bool {
    t is Bool || t is Number || t is Str
}

/// The text of a scalar: a string as it is, a number as its JSON text, a
/// boolean as `true` or `false`.
pub open spec fn scalar_text(t: JsonTree) -> Seq<char> {
    match t {
        JsonTree::Bool(b) => if b {
            "true"@
        } else {
            "false"@
        },
        JsonTree::Number(n) => n@,
        JsonTree::Str(s) => s@,
        _ => Seq::empty(),
    }
}

/// Every item is a scalar.
pub open spec fn all_scalar(items: Seq<JsonTree>) -> bool {
    forall|i: int| 0 <= i < items.len() ==> is_scalar(#[trigger] items[i])
}

/// The texts of the items.
pub open spec fn scalar_texts(items: Seq<JsonTree>) -> Seq<Seq<char>> {
    items.map_values(|t: JsonTree| scalar_text(t))
}

/// The path of the field `k` under `prefix`.
pub open spec fn field_key(prefix: Seq<char>, k: Seq<char>) -> Seq<char> {
    if prefix.len() == 0 {
        k
    } else {
        prefix + "."@ + k
    }
}

/// The path of the item at `i` under `prefix`.
pub open spec fn index_key(prefix: Seq<char>, i: nat) -> Seq<char> {
    prefix + "."@ + decimal_text(i)
}

/// The properties of `t` under `prefix`, in the order they are written.
pub open spec fn flat(prefix: Seq<char>, t: JsonTree) -> Seq<(Seq<char>, Seq<char>)>
    decreases t,
{
    match t {
        JsonTree::Null => Seq::empty(),
        JsonTree::Object(fields) => flat_fields(prefix, fields@),
        JsonTree::Array(items) => if all_scalar(items@) {
            seq![(prefix, join(scalar_texts(items@), ","@))]
        } else {
            flat_items(prefix, items@)
        },
        _ => seq![(prefix, scalar_text(t))],
    }
}

/// The properties of the fields `fs` under `prefix`.
pub open spec fn flat_fields(prefix: Seq<char>, fs: Seq<(String, JsonTree)>) -> Seq<
    (Seq<char>, Seq<char>),
>
    decreases fs,
{
    if fs.len() == 0 {
        Seq::empty()
    } else {
        flat_fields(prefix, fs.drop_last()) + flat(field_key(prefix, fs.last().0@), fs.last().1)
    }
}

/// The properties of the items `items` under `prefix`.
pub open spec fn flat_items(prefix: Seq<char>, items: Seq<JsonTree>) -> Seq<(Seq<char>, Seq<char>)>
    decreases items,
{
    if items.len() == 0 {
        Seq::empty()
    } else {
        flat_items(prefix, items.drop_last()) + flat(
            index_key(prefix, (items.len() - 1) as nat),
            items.last(),
        )
    }
}

/// `m` with the properties `ps` written into it in order, a later write of
/// a key replacing an earlier one.
pub open spec fn apply_pairs(m: Map<Seq<char>, Seq<char>>, ps: Seq<(Seq<char>, Seq<char>)>) -> Map<
    Seq<char>,
    Seq<char>,
>
    decreases ps.len(),
{
    if ps.len() == 0 {
        m
    } else {
        apply_pairs(m, ps.drop_last()).insert(ps.last().0, ps.last().1)
    }
}

/// The properties of a document: each leaf under its dotted path, the last
/// write of a path winning.
pub open spec fn properties(t: JsonTree) -> Map<Seq<char>, Seq<char>> {
    apply_pairs(Map::empty(), flat(Seq::empty(), t))
}

proof fn lemma_apply_concat(
    m: Map<Seq<char>, Seq<char>>,
    a: Seq<(Seq<char>, Seq<char>)>,
    b: Seq<(Seq<char>, Seq<char>)>,
)
    ensures
        apply_pairs(m, a + b) == apply_pairs(apply_pairs(m, a), b),
    decreases b.len(),
{
    if b.len() == 0 {
        assert(a + b =~= a);
    } else {
        assert((a + b).drop_last() =~= a + b.drop_last());
        lemma_apply_concat(m, a, b.drop_last());
    }
}

/// The path of the field `k` under `prefix`.
fn make_field_key(prefix: &str, k: &str) -> (r: String)
    ensures
        r@ == field_key(prefix@, k@),
{
    if prefix.unicode_len() == 0 {
        owned(k)
    } else {
        let mut s = owned(prefix);
        append_str(&mut s, ".");
        append_str(&mut s, k);
        s
    }
}

/// The path of the item at `i` under `prefix`.
fn make_index_key(prefix: &str, i: usize) -> (r: String)
    ensures
        r@ == index_key(prefix@, i as nat),
{
    let mut s = owned(prefix);
    append_str(&mut s, ".");
    append_decimal(&mut s, i as u64);
    s
}

fn scalar_string(t: &JsonTree) -> (r: String)
    ensures
        r@ == scalar_text(*t),
{
    match t {
        JsonTree::Bool(b) => if *b {
            owned("true")
        } else {
            owned("false")
        },
        JsonTree::Number(n) => owned(n.as_str()),
        JsonTree::Str(s) => owned(s.as_str()),
        _ => String::new(),
    }
}

/// Writes the properties of `value` under `prefix` into `out`.
fn flatten_into(prefix: &str, value: &JsonTree, out: &mut StrMap<String>)
    ensures
        final(out).str_map() == apply_pairs(old(out).str_map(), flat(prefix@, *value)),
    decreases value,
{
    let ghost m0 = out.str_map();
    match value {
        JsonTree::Null => {
            assert(flat(prefix@, *value).len() == 0);
            assert(apply_pairs(m0, flat(prefix@, *value)) =~= m0);
        },
        JsonTree::Object(fields) => {
            let mut i: usize = 0;
            assert(fields@.take(0).len() == 0);
            while i < fields.len()
                invariant
                    i <= fields@.len(),
                    out.str_map() == apply_pairs(m0, flat_fields(prefix@, fields@.take(i as int))),
                    *value == JsonTree::Object(*fields),
                decreases fields@.len() - i,
            {
                let key = make_field_key(prefix, fields[i].0.as_str());
                proof {
                    assert(decreases_to!(*value => value->Object_0));
                    assert(decreases_to!(*fields => fields@));
                    assert(decreases_to!(fields@ => fields@[i as int]));
                    assert(decreases_to!(fields@[i as int] => fields@[i as int].1));
                }
                flatten_into(key.as_str(), &fields[i].1, out);
                proof {
                    let fs = fields@.take(i + 1);
                    assert(fs.drop_last() =~= fields@.take(i as int));
                    assert(fs.last() == fields@[i as int]);
                    lemma_apply_concat(
                        m0,
                        flat_fields(prefix@, fields@.take(i as int)),
                        flat(key@, fields@[i as int].1),
                    );
                }
                i = i + 1;
            }
            assert(fields@.take(fields@.len() as int) =~= fields@);
        },
        JsonTree::Array(items) => {
            let mut all = true;
            let mut j: usize = 0;
            while j < items.len()
                invariant
                    j <= items@.len(),
                    all == all_scalar(items@.take(j as int)),
                decreases items@.len() - j,
            {
                let s = match &items[j] {
                    JsonTree::Bool(_) | JsonTree::Number(_) | JsonTree::Str(_) => true,
                    _ => false,
                };
                assert(s == is_scalar(items@[j as int]));
                proof {
                    let t = items@.take(j + 1);
                    if all && s {
                        assert forall|q: int| 0 <= q < t.len() implies is_scalar(#[trigger] t[q]) by {
                            if q < j {
                                assert(t[q] == items@.take(j as int)[q]);
                            }
                        }
                    }
                    if !all {
                        let w = choose|q: int| 0 <= q < j && !is_scalar(#[trigger] items@.take(j as int)[q]);
                        assert(t[w] == items@.take(j as int)[w]);
                    }
                    if !s {
                        assert(!is_scalar(t[j as int]));
                    }
                }
                all = all && s;
                j = j + 1;
            }
            assert(items@.take(items@.len() as int) =~= items@);
            if all {
                let mut texts: Vec<String> = Vec::new();
                let mut k: usize = 0;
                while k < items.len()
                    invariant
                        k <= items@.len(),
                        views(texts@) == scalar_texts(items@).take(k as int),
                    decreases items@.len() - k,
                {
                    let t = scalar_string(&items[k]);
                    let ghost before = texts@;
                    texts.push(t);
                    assert(views(texts@) =~= views(before).push(t@));
                    assert(scalar_texts(items@).take(k + 1) =~= scalar_texts(items@).take(k as int).push(
                        scalar_text(items@[k as int]),
                    ));
                    k = k + 1;
                }
                assert(scalar_texts(items@).take(items@.len() as int) =~= scalar_texts(items@));
                let joined = join_strings(&texts, ",");
                let key = owned(prefix);
                out.insert_str(key, joined);
                proof {
                    let ps = seq![(prefix@, joined@)];
                    assert(ps.drop_last() =~= Seq::<(Seq<char>, Seq<char>)>::empty());
                    assert(apply_pairs(m0, ps.drop_last()) == m0);
                    assert(flat(prefix@, *value) == ps);
                }
            } else {
                let mut i: usize = 0;
                assert(items@.take(0).len() == 0);
                while i < items.len()
                    invariant
                        i <= items@.len(),
                        out.str_map() == apply_pairs(m0, flat_items(prefix@, items@.take(i as int))),
                        *value == JsonTree::Array(*items),
                    decreases items@.len() - i,
                {
                    let key = make_index_key(prefix, i);
                    proof {
                        assert(decreases_to!(*value => value->Array_0));
                        assert(decreases_to!(*items => items@));
                        assert(decreases_to!(items@ => items@[i as int]));
                    }
                    flatten_into(key.as_str(), &items[i], out);
                    proof {
                        let t = items@.take(i + 1);
                        assert(t.drop_last() =~= items@.take(i as int));
                        assert(t.last() == items@[i as int]);
                        lemma_apply_concat(
                            m0,
                            flat_items(prefix@, items@.take(i as int)),
                            flat(key@, items@[i as int]),
                        );
                    }
                    i = i + 1;
                }
                assert(items@.take(items@.len() as int) =~= items@);
            }
        },
        _ => {
            let v = scalar_string(value);
            let key = owned(prefix);
            out.insert_str(key, v);
            proof {
                let ps = seq![(prefix@, v@)];
                assert(ps.drop_last() =~= Seq::<(Seq<char>, Seq<char>)>::empty());
                assert(apply_pairs(m0, ps.drop_last()) == m0);
                assert(flat(prefix@, *value) == ps);
            }
        },
    }
}

/// The properties of `value` in key order (what a `BTreeMap` filled by
/// walking the document yields).
pub fn flatten_json_value(value: &JsonTree) -> (r: Vec<(String, String)>)
    ensures
        sorted_listing(pair_views(r@), properties(*value)),
{
    let mut m: StrMap<String> = StrMap::new();
    assert(m.str_map() =~= Map::<Seq<char>, Seq<char>>::empty());
    proof {
        reveal_strlit("");
        assert(""@ =~= Seq::<char>::empty());
    }
    flatten_into("", value, &mut m);
    sorted_entries(&m)
}

} // verus!
