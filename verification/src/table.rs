//! Sorted association tables keyed by strings.
//!
//! A table is a `Vec<(String, V)>` whose keys are strictly increasing in the
//! order of `String` comparison. It stands where an ordered map keyed by
//! strings is needed: each key occurs once and iteration is in key order.

use vstd::prelude::*;
use crate::text::{
    chars_equal, lemma_lex_irreflexive, lemma_lex_total, lemma_lex_transitive, lex_less, lex_lt,
    string_chars,
};

verus! {

/// Keys strictly increase along the table.
pub open spec fn sorted_table<V>(t: Seq<(String, V)>) -> bool {
    forall|i: int, j: int| 0 <= i < j < t.len() ==> lex_lt(#[trigger] t[i].0@, #[trigger] t[j].0@)
}

/// Some entry of the table has key `k`.
pub open spec fn has_key<V>(t: Seq<(String, V)>, k: Seq<char>) -> bool {
    exists|i: int| 0 <= i < t.len() && #[trigger] t[i].0@ == k
}

/// An index whose entry has key `k` (meaningful when [`has_key`] holds).
pub open spec fn key_index<V>(t: Seq<(String, V)>, k: Seq<char>) -> int {
    choose|i: int| 0 <= i < t.len() && #[trigger] t[i].0@ == k
}

/// The value stored under `k` (meaningful when [`has_key`] holds).
pub open spec fn value_of<V>(t: Seq<(String, V)>, k: Seq<char>) -> V {
    t[key_index(t, k)].1
}

/// The table seen as a map.
pub open spec fn table_map<V>(t: Seq<(String, V)>) -> Map<Seq<char>, V> {
    Map::new(|k: Seq<char>| has_key(t, k), |k: Seq<char>| value_of(t, k))
}

/// The keys of the table, in order.
pub open spec fn table_keys<V>(t: Seq<(String, V)>) -> Seq<Seq<char>> {
    t.map_values(|p: (String, V)| p.0@)
}

/// In a sorted table the entry at `i` is the one found under its key.
pub proof fn lemma_value_at<V>(t: Seq<(String, V)>, i: int)
    requires
        sorted_table(t),
        0 <= i < t.len(),
    ensures
        has_key(t, t[i].0@),
        value_of(t, t[i].0@) == t[i].1,
        table_map(t).contains_key(t[i].0@),
        table_map(t)[t[i].0@] == t[i].1,
{
    let k = t[i].0@;
    assert(has_key(t, k));
    let j = key_index(t, k);
    assert(0 <= j < t.len() && t[j].0@ == k);
    if j < i {
        assert(lex_lt(t[j].0@, t[i].0@));
        lemma_lex_irreflexive(k);
    } else if j > i {
        assert(lex_lt(t[i].0@, t[j].0@));
        lemma_lex_irreflexive(k);
    }
}

/// Where `key` is or would be placed: the first index whose key does not sort
/// before `key`, and whether that entry has exactly `key`.
pub fn table_position<V>(t: &Vec<(String, V)>, key: &Vec<char>) -> (r: (usize, bool))
    requires
        sorted_table(t@),
    ensures
        r.0 <= t@.len(),
        forall|j: int| 0 <= j < r.0 ==> lex_lt(#[trigger] t@[j].0@, key@),
        r.1 == (r.0 < t@.len() && t@[r.0 as int].0@ == key@),
        r.0 < t@.len() && !r.1 ==> lex_lt(key@, t@[r.0 as int].0@),
        r.1 == has_key(t@, key@),
{
    let mut i: usize = 0;
    while i < t.len()
        invariant
            i <= t@.len(),
            sorted_table(t@),
            forall|j: int| 0 <= j < i ==> lex_lt(#[trigger] t@[j].0@, key@),
        decreases t.len() - i,
    {
        let k = string_chars(&t[i].0);
        if !lex_less(&k, key) {
            let found = chars_equal(&k, key);
            proof {
                lemma_lex_total(k@, key@);
                if !found {
                    // every later key sorts after `key`, every earlier one before
                    assert forall|j: int| 0 <= j < t@.len() implies #[trigger] t@[j].0@ != key@ by {
                        if j < i {
                            lemma_lex_irreflexive(key@);
                        } else if j > i {
                            assert(lex_lt(t@[i as int].0@, t@[j].0@));
                            lemma_lex_transitive(key@, t@[i as int].0@, t@[j].0@);
                            lemma_lex_irreflexive(key@);
                        } else {
                            lemma_lex_irreflexive(key@);
                        }
                    }
                }
            }
            return (i, found);
        }
        i += 1;
    }
    proof {
        assert forall|j: int| 0 <= j < t@.len() implies #[trigger] t@[j].0@ != key@ by {
            lemma_lex_irreflexive(key@);
        }
    }
    (i, false)
}

/// Index of the entry with key `key`, if any.
pub fn table_find<V>(t: &Vec<(String, V)>, key: &Vec<char>) -> (r: Option<usize>)
    requires
        sorted_table(t@),
    ensures
        r is Some <==> table_map(t@).contains_key(key@),
        match r {
            Some(i) => i < t@.len() && t@[i as int].0@ == key@ && table_map(t@)[key@] == t@[i as int].1,
            None => true,
        },
{
    let (i, found) = table_position(t, key);
    if found {
        proof {
            lemma_value_at(t@, i as int);
        }
        Some(i)
    } else {
        None
    }
}

/// Stores `val` under `key`, replacing a value already stored there.
pub fn table_insert<V>(t: &mut Vec<(String, V)>, key: String, val: V)
    requires
        sorted_table(old(t)@),
    ensures
        sorted_table(final(t)@),
        table_map(final(t)@) == table_map(old(t)@).insert(key@, val),
        forall|i: int|
            0 <= i < final(t)@.len() ==> #[trigger] final(t)@[i] == (key, val) || old(t)@.contains(
                final(t)@[i],
            ),
{
    let kc = string_chars(&key);
    let (p, found) = table_position(t, &kc);
    let ghost old_t = t@;
    if found {
        let _ = t.remove(p);
        t.insert(p, (key, val));
        proof {
            assert(t@ =~= old_t.update(p as int, (key, val)));
            assert forall|i: int, j: int| 0 <= i < j < t@.len() implies lex_lt(
                #[trigger] t@[i].0@,
                #[trigger] t@[j].0@,
            ) by {
                assert(old_t[i].0@ == t@[i].0@);
                assert(old_t[j].0@ == t@[j].0@);
            }
        }
    } else {
        t.insert(p, (key, val));
        proof {
            assert(t@ =~= old_t.insert(p as int, (key, val)));
            assert forall|i: int, j: int| 0 <= i < j < t@.len() implies lex_lt(
                #[trigger] t@[i].0@,
                #[trigger] t@[j].0@,
            ) by {
                if j < p {
                    assert(lex_lt(old_t[i].0@, old_t[j].0@));
                } else if j == p {
                    assert(lex_lt(old_t[i].0@, key@));
                } else if i == p {
                    assert(t@[j].0@ == old_t[j - 1].0@);
                    if j - 1 > p {
                        assert(lex_lt(old_t[p as int].0@, old_t[j - 1].0@));
                        lemma_lex_transitive(key@, old_t[p as int].0@, old_t[j - 1].0@);
                    }
                } else if i < p {
                    assert(t@[j].0@ == old_t[j - 1].0@);
                    assert(lex_lt(old_t[i].0@, old_t[p as int].0@) || p == j - 1);
                    assert(lex_lt(old_t[i].0@, old_t[j - 1].0@));
                } else {
                    assert(lex_lt(old_t[i - 1].0@, old_t[j - 1].0@));
                }
            }
        }
    }
    proof {
        let ghost nt = t@;
        assert forall|i: int| 0 <= i < nt.len() implies #[trigger] nt[i] == (key, val)
            || old_t.contains(nt[i]) by {
            if i != p {
                if found || i < p {
                    assert(nt[i] == old_t[i]);
                } else {
                    assert(nt[i] == old_t[i - 1]);
                }
            }
        }
        assert(nt[p as int].0@ == key@ && nt[p as int].1 == val);
        lemma_value_at(nt, p as int);
        assert forall|k: Seq<char>| #[trigger] has_key(nt, k) == (has_key(old_t, k) || k == key@)
            by {
            if has_key(nt, k) {
                let i = choose|i: int| 0 <= i < nt.len() && #[trigger] nt[i].0@ == k;
                if k != key@ {
                    if found {
                        assert(old_t[i].0@ == k);
                    } else if i < p {
                        assert(old_t[i].0@ == k);
                    } else {
                        assert(i != p);
                        assert(old_t[i - 1].0@ == k);
                    }
                }
            }
            if has_key(old_t, k) {
                let i = choose|i: int| 0 <= i < old_t.len() && #[trigger] old_t[i].0@ == k;
                if found {
                    if i == p {
                        assert(nt[p as int].0@ == k);
                    } else {
                        assert(nt[i].0@ == k);
                    }
                } else if i < p {
                    assert(nt[i].0@ == k);
                } else {
                    assert(nt[i + 1].0@ == k);
                }
            }
        }
        assert forall|k: Seq<char>| has_key(nt, k) && k != key@ implies #[trigger] value_of(nt, k)
            == value_of(old_t, k) by {
            let i = choose|i: int| 0 <= i < old_t.len() && #[trigger] old_t[i].0@ == k;
            lemma_value_at(old_t, i);
            if found {
                assert(i != p);
                assert(nt[i] == old_t[i]);
                lemma_value_at(nt, i);
            } else if i < p {
                assert(nt[i] == old_t[i]);
                lemma_value_at(nt, i);
            } else {
                assert(nt[i + 1] == old_t[i]);
                lemma_value_at(nt, i + 1);
            }
        }
        assert(table_map(nt) =~= table_map(old_t).insert(key@, val));
    }
}

/// Removes the entry stored under `key`, if any.
pub fn table_remove<V>(t: &mut Vec<(String, V)>, key: &Vec<char>)
    requires
        sorted_table(old(t)@),
    ensures
        sorted_table(final(t)@),
        table_map(final(t)@) == table_map(old(t)@).remove(key@),
        forall|i: int| 0 <= i < final(t)@.len() ==> old(t)@.contains(#[trigger] final(t)@[i]),
{
    let (p, found) = table_position(t, key);
    let ghost old_t = t@;
    if found {
        let _ = t.remove(p);
        proof {
            let nt = t@;
            assert(nt =~= old_t.remove(p as int));
            assert forall|i: int, j: int| 0 <= i < j < nt.len() implies lex_lt(
                #[trigger] nt[i].0@,
                #[trigger] nt[j].0@,
            ) by {
                let oi = if i < p { i } else { i + 1 };
                let oj = if j < p { j } else { j + 1 };
                assert(nt[i] == old_t[oi] && nt[j] == old_t[oj]);
            }
            assert forall|k: Seq<char>| #[trigger] has_key(nt, k) == (has_key(old_t, k) && k
                != key@) by {
                if has_key(nt, k) {
                    let i = choose|i: int| 0 <= i < nt.len() && #[trigger] nt[i].0@ == k;
                    let oi = if i < p { i } else { i + 1 };
                    assert(old_t[oi].0@ == k);
                    if k == key@ {
                        lemma_value_at(old_t, oi);
                        lemma_value_at(old_t, p as int);
                        assert(oi != p);
                        if oi < p {
                            assert(lex_lt(old_t[oi].0@, old_t[p as int].0@));
                        } else {
                            assert(lex_lt(old_t[p as int].0@, old_t[oi].0@));
                        }
                        lemma_lex_irreflexive(k);
                    }
                }
                if has_key(old_t, k) && k != key@ {
                    let i = choose|i: int| 0 <= i < old_t.len() && #[trigger] old_t[i].0@ == k;
                    assert(i != p);
                    if i < p {
                        assert(nt[i].0@ == k);
                    } else {
                        assert(nt[i - 1].0@ == k);
                    }
                }
            }
            assert forall|k: Seq<char>| has_key(nt, k) implies #[trigger] value_of(nt, k)
                == value_of(old_t, k) by {
                let i = choose|i: int| 0 <= i < nt.len() && #[trigger] nt[i].0@ == k;
                let oi = if i < p { i } else { i + 1 };
                lemma_value_at(nt, i);
                lemma_value_at(old_t, oi);
            }
            assert(table_map(nt) =~= table_map(old_t).remove(key@));
            assert forall|i: int| 0 <= i < nt.len() implies old_t.contains(#[trigger] nt[i]) by {
                let oi = if i < p { i } else { i + 1 };
                assert(nt[i] == old_t[oi]);
            }
        }
    } else {
        proof {
            assert(table_map(old_t) =~= table_map(old_t).remove(key@));
        }
    }
}

/// A table's map is empty exactly when the table is.
pub proof fn lemma_table_map_empty<V>(t: Seq<(String, V)>)
    ensures
        (table_map(t) == Map::<Seq<char>, V>::empty()) == (t.len() == 0),
{
    if t.len() == 0 {
        assert(table_map(t) =~= Map::<Seq<char>, V>::empty());
    } else {
        assert(has_key(t, t[0].0@));
        assert(table_map(t).contains_key(t[0].0@));
    }
}

/// The map of a sorted table grows one entry at a time along the table.
pub proof fn lemma_table_map_prefix<V>(t: Seq<(String, V)>, k: int)
    requires
        sorted_table(t),
        0 <= k < t.len(),
    ensures
        table_map(t.take(k + 1)) == table_map(t.take(k)).insert(t[k].0@, t[k].1),
{
    let a = t.take(k + 1);
    let b = t.take(k);
    assert(sorted_table(a));
    assert(sorted_table(b));
    let m = table_map(b).insert(t[k].0@, t[k].1);
    assert forall|x: Seq<char>| #[trigger] table_map(a).contains_key(x) == m.contains_key(x) && (
    table_map(a).contains_key(x) ==> table_map(a)[x] == m[x]) by {
        if x == t[k].0@ {
            assert(a[k] == t[k]);
            lemma_value_at(a, k);
        } else {
            if has_key(a, x) {
                let i = key_index(a, x);
                assert(i != k);
                assert(b[i] == a[i]);
                lemma_value_at(a, i);
                lemma_value_at(b, i);
            }
            if has_key(b, x) {
                let i = key_index(b, x);
                assert(a[i] == b[i]);
                lemma_value_at(a, i);
                lemma_value_at(b, i);
            }
        }
    }
    assert(table_map(a) =~= m);
}

} // verus!
