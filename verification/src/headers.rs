//! The header map of a message head: `http::HeaderMap`, seen through the
//! groups it holds (each name in normal form with its values, in the order in
//! which the map keeps its names) and the operations the protocol code needs.
use vstd::prelude::*;
use http::header::{Entry, HeaderMap, HeaderName, HeaderValue};
use crate::text::{is_header_value, is_lower_token};

verus! {

#[verifier::external_type_specification]
#[verifier::external_body]
#[verifier::reject_recursive_types(T)]
pub struct ExHeaderMap<T>(HeaderMap<T>);

#[verifier::external_type_specification]
#[verifier::external_body]
pub struct ExHeaderValue(HeaderValue);

/// What a header map holds: its names (lower case) in the order of the map's
/// entries, each with the list of its values in insertion order.
pub uninterp spec fn header_groups(m: HeaderMap<HeaderValue>) -> Seq<(Seq<u8>, Seq<Seq<u8>>)>;

/// The invariant of a header map: names are distinct, each has at least
/// one value, and values hold only header-value bytes.
pub open spec fn groups_wf(g: Seq<(Seq<u8>, Seq<Seq<u8>>)>) -> bool {
    &&& forall|i: int, j: int| 0 <= i < j < g.len() ==> #[trigger] g[i].0 != #[trigger] g[j].0
    &&& forall|i: int| 0 <= i < g.len() ==> (#[trigger] g[i]).1.len() > 0
    &&& forall|i: int, j: int|
        0 <= i < g.len() && 0 <= j < g[i].1.len() ==> is_header_value(#[trigger] g[i].1[j])
}

pub open spec fn has_name(g: Seq<(Seq<u8>, Seq<Seq<u8>>)>, k: Seq<u8>) -> bool {
    exists|i: int| 0 <= i < g.len() && (#[trigger] g[i]).0 == k
}

pub open spec fn name_index(g: Seq<(Seq<u8>, Seq<Seq<u8>>)>, k: Seq<u8>) -> int {
    choose|i: int| 0 <= i < g.len() && (#[trigger] g[i]).0 == k
}

/// The values of name `k`, in insertion order (empty when `k` is absent).
pub open spec fn values_of(g: Seq<(Seq<u8>, Seq<Seq<u8>>)>, k: Seq<u8>) -> Seq<Seq<u8>> {
    if has_name(g, k) {
        g[name_index(g, k)].1
    } else {
        Seq::empty()
    }
}

/// `HeaderMap::insert`: the name's values are replaced by `v` alone, in place;
/// a new name goes to the end.
pub open spec fn insert_model(g: Seq<(Seq<u8>, Seq<Seq<u8>>)>, k: Seq<u8>, v: Seq<u8>) -> Seq<
    (Seq<u8>, Seq<Seq<u8>>),
> {
    if has_name(g, k) {
        g.update(name_index(g, k), (k, seq![v]))
    } else {
        g.push((k, seq![v]))
    }
}

/// `HeaderMap::append`: `v` joins the end of the name's values.
pub open spec fn append_model(g: Seq<(Seq<u8>, Seq<Seq<u8>>)>, k: Seq<u8>, v: Seq<u8>) -> Seq<
    (Seq<u8>, Seq<Seq<u8>>),
> {
    if has_name(g, k) {
        g.update(name_index(g, k), (k, g[name_index(g, k)].1.push(v)))
    } else {
        g.push((k, seq![v]))
    }
}

/// `HeaderMap::remove`: the name's entry leaves, and the last entry takes its
/// place (the map removes by swapping).
pub open spec fn remove_model(g: Seq<(Seq<u8>, Seq<Seq<u8>>)>, k: Seq<u8>) -> Seq<
    (Seq<u8>, Seq<Seq<u8>>),
> {
    if has_name(g, k) {
        let i = name_index(g, k);
        if i == g.len() - 1 {
            g.drop_last()
        } else {
            g.update(i, g.last()).drop_last()
        }
    } else {
        g
    }
}

/// Replacing the last value of a name that is present.
pub open spec fn replace_last_model(g: Seq<(Seq<u8>, Seq<Seq<u8>>)>, k: Seq<u8>, v: Seq<u8>) -> Seq<
    (Seq<u8>, Seq<Seq<u8>>),
> {
    if has_name(g, k) {
        let vs = g[name_index(g, k)].1;
        g.update(name_index(g, k), (k, vs.update(vs.len() - 1, v)))
    } else {
        g
    }
}

/// The (name, value) pairs of the map in the order of its iterator.
pub open spec fn flatten(g: Seq<(Seq<u8>, Seq<Seq<u8>>)>) -> Seq<(Seq<u8>, Seq<u8>)>
    decreases g.len(),
{
    if g.len() == 0 {
        Seq::empty()
    } else {
        let k = g.last().0;
        flatten(g.drop_last()) + g.last().1.map_values(|v: Seq<u8>| (k, v))
    }
}

/// Whether a map has room for one more name. Before each `insert`, `append`
/// or `entry`, the map may grow its index table, and it panics when the table
/// would pass `MAX_SIZE` (2^15 slots). With n names held, it grows in two
/// ways: to twice the table when n fills three quarters of it, or, after
/// long probe sequences, when 5 * n reaches the table's size. Below 6554
/// names neither way passes 2^15 slots, whatever the map held before.
pub open spec fn room_for_name(g: Seq<(Seq<u8>, Seq<Seq<u8>>)>) -> bool {
    g.len() < 6554
}

/// `HeaderMap::keys_len`: the number of names the map holds.
#[verifier::external_body]
fn header_name_count(m: &HeaderMap<HeaderValue>) -> (r: usize)
    ensures
        r == header_groups(*m).len(),
{
    m.keys_len()
}

/// Whether a map has room for one more name.
pub fn has_room_for_name(m: &HeaderMap<HeaderValue>) -> (r: bool)
    ensures
        r == room_for_name(header_groups(*m)),
{
    header_name_count(m) < 6554
}

/// The bytes of each vector of a list.
pub open spec fn bytes_list(v: Seq<Vec<u8>>) -> Seq<Seq<u8>> {
    Seq::new(v.len(), |i: int| v[i]@)
}

/// The bytes of each pair of vectors of a list.
pub open spec fn pair_list(v: Seq<(Vec<u8>, Vec<u8>)>) -> Seq<(Seq<u8>, Seq<u8>)> {
    Seq::new(v.len(), |i: int| (v[i].0@, v[i].1@))
}

/// A new, empty `HeaderMap` (`HeaderMap::new`).
#[verifier::external_body]
pub fn new_header_map() -> (m: HeaderMap<HeaderValue>)
    ensures
        header_groups(m) == Seq::<(Seq<u8>, Seq<Seq<u8>>)>::empty(),
{
    HeaderMap::new()
}

/// The values of a name (`HeaderMap::get_all`), as bytes.
#[verifier::external_body]
pub fn header_values(m: &HeaderMap<HeaderValue>, name: &[u8]) -> (r: Vec<Vec<u8>>)
    requires
        is_lower_token(name@),
    ensures
        bytes_list(r@) == values_of(header_groups(*m), name@),
        forall|j: int| 0 <= j < r@.len() ==> is_header_value(#[trigger] r@[j]@),
{
    let key = HeaderName::from_bytes(name).expect("a header name in normal form");
    m.get_all(&key).iter().map(|v| v.as_bytes().to_vec()).collect()
}

/// All (name, value) pairs in iteration order (`HeaderMap::iter`).
#[verifier::external_body]
pub fn header_pairs(m: &HeaderMap<HeaderValue>) -> (r: Vec<(Vec<u8>, Vec<u8>)>)
    ensures
        pair_list(r@) == flatten(header_groups(*m)),
{
    m.iter().map(|(k, v)| (k.as_str().as_bytes().to_vec(), v.as_bytes().to_vec())).collect()
}

/// `HeaderMap::insert` of a name in normal form and a valid value.
#[verifier::external_body]
pub fn header_insert(m: &mut HeaderMap<HeaderValue>, name: &[u8], value: &[u8])
    requires
        is_lower_token(name@),
        is_header_value(value@),
        room_for_name(header_groups(*old(m))),
    ensures
        groups_wf(header_groups(*old(m))),
        header_groups(*final(m)) == insert_model(header_groups(*old(m)), name@, value@),
{
    let key = HeaderName::from_bytes(name).expect("a header name in normal form");
    m.insert(key, HeaderValue::from_bytes(value).expect("a valid header value"));
}

/// `HeaderMap::append` of a name in normal form and a valid value.
#[verifier::external_body]
pub fn header_append(m: &mut HeaderMap<HeaderValue>, name: &[u8], value: &[u8])
    requires
        is_lower_token(name@),
        is_header_value(value@),
        room_for_name(header_groups(*old(m))),
    ensures
        groups_wf(header_groups(*old(m))),
        header_groups(*final(m)) == append_model(header_groups(*old(m)), name@, value@),
{
    let key = HeaderName::from_bytes(name).expect("a header name in normal form");
    m.append(key, HeaderValue::from_bytes(value).expect("a valid header value"));
}

/// `HeaderMap::remove` of a name in normal form.
#[verifier::external_body]
pub fn header_remove(m: &mut HeaderMap<HeaderValue>, name: &[u8])
    requires
        is_lower_token(name@),
    ensures
        groups_wf(header_groups(*old(m))),
        header_groups(*final(m)) == remove_model(header_groups(*old(m)), name@),
{
    let key = HeaderName::from_bytes(name).expect("a header name in normal form");
    m.remove(&key);
}

/// Through `HeaderMap::entry`: when the name is present, its last value is
/// replaced by `value`; otherwise the map is left as it is.
#[verifier::external_body]
pub fn header_replace_last(m: &mut HeaderMap<HeaderValue>, name: &[u8], value: &[u8])
    requires
        is_lower_token(name@),
        is_header_value(value@),
        room_for_name(header_groups(*old(m))),
    ensures
        groups_wf(header_groups(*old(m))),
        header_groups(*final(m)) == replace_last_model(header_groups(*old(m)), name@, value@),
{
    let key = HeaderName::from_bytes(name).expect("a header name in normal form");
    if let Entry::Occupied(mut e) = m.entry(key) {
        let last = e.iter_mut().next_back().expect("an occupied entry has a value");
        *last = HeaderValue::from_bytes(value).expect("a valid header value");
    }
}

// ---- facts about the model ----

pub proof fn lemma_values_at(g: Seq<(Seq<u8>, Seq<Seq<u8>>)>, i: int)
    requires
        groups_wf(g),
        0 <= i < g.len(),
    ensures
        has_name(g, g[i].0),
        name_index(g, g[i].0) == i,
        values_of(g, g[i].0) == g[i].1,
{
    assert(has_name(g, g[i].0));
    let j = name_index(g, g[i].0);
    if j != i {
        if j < i {
            assert(g[j].0 != g[i].0);
        } else {
            assert(g[i].0 != g[j].0);
        }
    }
}

/// A valid map has a name's values nonempty exactly when the name is present,
/// and those values are valid header values.
pub proof fn lemma_values_of_wf(g: Seq<(Seq<u8>, Seq<Seq<u8>>)>, k: Seq<u8>)
    requires
        groups_wf(g),
    ensures
        has_name(g, k) <==> values_of(g, k).len() > 0,
        forall|j: int| 0 <= j < values_of(g, k).len() ==> is_header_value(#[trigger] values_of(g, k)[j]),
        has_name(g, k) ==> 0 <= name_index(g, k) < g.len() && g[name_index(g, k)].0 == k,
{
    if has_name(g, k) {
        let i = name_index(g, k);
        assert(g[i].1.len() > 0);
        assert forall|j: int| 0 <= j < values_of(g, k).len() implies is_header_value(
            #[trigger] values_of(g, k)[j],
        ) by {
            assert(is_header_value(g[i].1[j]));
        }
    }
}

pub proof fn lemma_insert(g: Seq<(Seq<u8>, Seq<Seq<u8>>)>, k: Seq<u8>, v: Seq<u8>)
    requires
        groups_wf(g),
        is_lower_token(k),
        is_header_value(v),
    ensures
        groups_wf(insert_model(g, k, v)),
        forall|k2: Seq<u8>|
            #[trigger] values_of(insert_model(g, k, v), k2) == if k2 == k {
                seq![v]
            } else {
                values_of(g, k2)
            },
        insert_model(g, k, v).len() <= g.len() + 1,
{
    let h = insert_model(g, k, v);
    if has_name(g, k) {
        let i = name_index(g, k);
        assert forall|a: int, b: int| 0 <= a < b < h.len() implies #[trigger] h[a].0 != #[trigger] h[b].0 by {
            assert(g[a].0 != g[b].0);
        }
        assert forall|a: int, b: int| 0 <= a < h.len() && 0 <= b < h[a].1.len() implies is_header_value(
            #[trigger] h[a].1[b],
        ) by {
            if a != i {
                assert(is_header_value(g[a].1[b]));
            }
        }
    } else {
        assert forall|a: int, b: int| 0 <= a < b < h.len() implies #[trigger] h[a].0 != #[trigger] h[b].0 by {
            if b < g.len() {
                assert(g[a].0 != g[b].0);
            }
        }
        assert forall|a: int, b: int| 0 <= a < h.len() && 0 <= b < h[a].1.len() implies is_header_value(
            #[trigger] h[a].1[b],
        ) by {
            if a < g.len() {
                assert(is_header_value(g[a].1[b]));
            }
        }
    }
    assert(groups_wf(h));
    assert forall|k2: Seq<u8>| #[trigger] values_of(h, k2) == if k2 == k {
        seq![v]
    } else {
        values_of(g, k2)
    } by {
        lemma_values_of_key(g, h, k, seq![v], k2);
    }
}

/// How `values_of` of a map changes when name `k` alone takes values `vs`,
/// in place or at the end.
proof fn lemma_values_of_key(
    g: Seq<(Seq<u8>, Seq<Seq<u8>>)>,
    h: Seq<(Seq<u8>, Seq<Seq<u8>>)>,
    k: Seq<u8>,
    vs: Seq<Seq<u8>>,
    k2: Seq<u8>,
)
    requires
        groups_wf(g),
        groups_wf(h),
        has_name(g, k) ==> h == g.update(name_index(g, k), (k, vs)),
        !has_name(g, k) ==> h == g.push((k, vs)),
    ensures
        values_of(h, k2) == if k2 == k { vs } else { values_of(g, k2) },
{
    let i = if has_name(g, k) { name_index(g, k) } else { g.len() as int };
    assert(h[i].0 == k && h[i].1 == vs);
    lemma_values_at(h, i);
    if k2 != k {
        if has_name(g, k2) {
            let j = name_index(g, k2);
            assert(j != i);
            assert(h[j] == g[j]);
            lemma_values_at(h, j);
            lemma_values_at(g, j);
        } else {
            if has_name(h, k2) {
                let j = name_index(h, k2);
                assert(j != i);
                assert(g[j].0 == k2);
            }
        }
    }
}

pub proof fn lemma_append(g: Seq<(Seq<u8>, Seq<Seq<u8>>)>, k: Seq<u8>, v: Seq<u8>)
    requires
        groups_wf(g),
        is_lower_token(k),
        is_header_value(v),
    ensures
        groups_wf(append_model(g, k, v)),
        forall|k2: Seq<u8>|
            #[trigger] values_of(append_model(g, k, v), k2) == if k2 == k {
                values_of(g, k).push(v)
            } else {
                values_of(g, k2)
            },
        append_model(g, k, v).len() <= g.len() + 1,
{
    let h = append_model(g, k, v);
    if has_name(g, k) {
        let i = name_index(g, k);
        assert forall|a: int, b: int| 0 <= a < b < h.len() implies #[trigger] h[a].0 != #[trigger] h[b].0 by {
            assert(g[a].0 != g[b].0);
        }
        assert forall|a: int, b: int| 0 <= a < h.len() && 0 <= b < h[a].1.len() implies is_header_value(
            #[trigger] h[a].1[b],
        ) by {
            if a != i || b < g[i].1.len() {
                assert(is_header_value(g[a].1[b]));
            }
        }
    } else {
        assert forall|a: int, b: int| 0 <= a < b < h.len() implies #[trigger] h[a].0 != #[trigger] h[b].0 by {
            if b < g.len() {
                assert(g[a].0 != g[b].0);
            }
        }
        assert forall|a: int, b: int| 0 <= a < h.len() && 0 <= b < h[a].1.len() implies is_header_value(
            #[trigger] h[a].1[b],
        ) by {
            if a < g.len() {
                assert(is_header_value(g[a].1[b]));
            }
        }
    }
    assert(groups_wf(h));
    if has_name(g, k) {
        lemma_values_at(g, name_index(g, k));
    }
    assert forall|k2: Seq<u8>| #[trigger] values_of(h, k2) == if k2 == k {
        values_of(g, k).push(v)
    } else {
        values_of(g, k2)
    } by {
        lemma_values_of_key(g, h, k, values_of(g, k).push(v), k2);
    }
}

pub proof fn lemma_remove(g: Seq<(Seq<u8>, Seq<Seq<u8>>)>, k: Seq<u8>)
    requires
        groups_wf(g),
    ensures
        groups_wf(remove_model(g, k)),
        forall|k2: Seq<u8>|
            #[trigger] values_of(remove_model(g, k), k2) == if k2 == k {
                Seq::<Seq<u8>>::empty()
            } else {
                values_of(g, k2)
            },
        remove_model(g, k).len() <= g.len(),
{
    let h = remove_model(g, k);
    if has_name(g, k) {
        let i = name_index(g, k);
        let n = g.len() - 1;
        // each position of h holds the group of some position of g, other than i
        assert forall|a: int| 0 <= a < h.len() implies h[a] == g[if a == i { n } else { a }] by {}
        assert forall|a: int, b: int| 0 <= a < b < h.len() implies #[trigger] h[a].0 != #[trigger] h[b].0 by {
            let a1 = if a == i { n } else { a };
            let b1 = if b == i { n } else { b };
            if a1 < b1 {
                assert(g[a1].0 != g[b1].0);
            } else {
                assert(g[b1].0 != g[a1].0);
            }
        }
        assert forall|a: int| 0 <= a < h.len() implies (#[trigger] h[a]).1.len() > 0 by {
            let a1 = if a == i { n } else { a };
            assert(g[a1].1.len() > 0);
        }
        assert forall|a: int, b: int| 0 <= a < h.len() && 0 <= b < h[a].1.len() implies is_header_value(
            #[trigger] h[a].1[b],
        ) by {
            let a1 = if a == i { n } else { a };
            assert(is_header_value(g[a1].1[b]));
        }
        assert(groups_wf(h));
        assert forall|k2: Seq<u8>| #[trigger] values_of(h, k2) == if k2 == k {
            Seq::<Seq<u8>>::empty()
        } else {
            values_of(g, k2)
        } by {
            if has_name(h, k2) {
                let j = name_index(h, k2);
                lemma_values_at(h, j);
                let j1 = if j == i { n } else { j };
                lemma_values_at(g, j1);
                lemma_values_at(g, i);
            } else {
                if has_name(g, k2) && k2 != k {
                    let j = name_index(g, k2);
                    lemma_values_at(g, i);
                    if j == n {
                        assert(h[i].0 == k2);
                    } else {
                        assert(h[j].0 == k2);
                    }
                }
            }
        }
    }
}

pub proof fn lemma_replace_last(g: Seq<(Seq<u8>, Seq<Seq<u8>>)>, k: Seq<u8>, v: Seq<u8>)
    requires
        groups_wf(g),
        is_header_value(v),
    ensures
        groups_wf(replace_last_model(g, k, v)),
        forall|k2: Seq<u8>|
            #[trigger] values_of(replace_last_model(g, k, v), k2) == if k2 == k && has_name(g, k) {
                values_of(g, k).update(values_of(g, k).len() - 1, v)
            } else {
                values_of(g, k2)
            },
        replace_last_model(g, k, v).len() == g.len(),
{
    let h = replace_last_model(g, k, v);
    if has_name(g, k) {
        let i = name_index(g, k);
        assert forall|a: int, b: int| 0 <= a < b < h.len() implies #[trigger] h[a].0 != #[trigger] h[b].0 by {
            assert(g[a].0 != g[b].0);
        }
        assert forall|a: int, b: int| 0 <= a < h.len() && 0 <= b < h[a].1.len() implies is_header_value(
            #[trigger] h[a].1[b],
        ) by {
            if a != i || b != g[i].1.len() - 1 {
                assert(is_header_value(g[a].1[b]));
            }
        }
        assert(groups_wf(h));
        assert forall|k2: Seq<u8>| #[trigger] values_of(h, k2) == if k2 == k && has_name(g, k) {
            values_of(g, k).update(values_of(g, k).len() - 1, v)
        } else {
            values_of(g, k2)
        } by {
            if has_name(h, k2) {
                let j = name_index(h, k2);
                lemma_values_at(h, j);
                lemma_values_at(g, j);
            } else {
                if has_name(g, k2) {
                    let j = name_index(g, k2);
                    assert(h[j].0 == k2);
                }
            }
        }
    }
}

} // verus!
