//! Name-keyed ordering and normalization.
//!
//! Tags, baggage items and log fields are all values carrying a string name.
//! Collections of such values are normalized to a canonical form: sorted by
//! name, with exactly one entry per distinct name, where of several entries
//! sharing a name the last one added survives.
use vstd::prelude::*;

verus! {

use vstd::pervasive::VecAdditionalExecFns;

proof fn lemma_char_code_inj(a: char, b: char)
    requires
        a as u32 == b as u32,
    ensures
        a == b,
{
}

/// Lexicographic order on character sequences, by code point.
pub open spec fn lex_lt(a: Seq<char>, b: Seq<char>) -> bool
    decreases a.len(),
{
    if b.len() == 0 {
        false
    } else if a.len() == 0 {
        true
    } else if (a[0] as u32) < (b[0] as u32) {
        true
    } else if (b[0] as u32) < (a[0] as u32) {
        false
    } else {
        lex_lt(a.drop_first(), b.drop_first())
    }
}

/// `lex_lt` is a strict total order: any two sequences are related one way,
/// the other way, or equal.
pub proof fn lemma_lex_lt_trichotomy(a: Seq<char>, b: Seq<char>)
    ensures
        lex_lt(a, b) || lex_lt(b, a) || a == b,
        !(lex_lt(a, b) && lex_lt(b, a)),
        lex_lt(a, b) ==> a != b,
        lex_lt(b, a) ==> a != b,
    decreases a.len(),
{
    if a.len() == 0 || b.len() == 0 {
        if a.len() == 0 && b.len() == 0 {
            assert(a =~= b);
        }
    } else {
        if (a[0] as u32) == (b[0] as u32) {
            lemma_lex_lt_trichotomy(a.drop_first(), b.drop_first());
            if a.drop_first() == b.drop_first() {
                assert(a.len() == b.len());
                assert forall|i: int| 0 <= i < a.len() implies a[i] == b[i] by {
                    if i > 0 {
                        assert(a.drop_first()[i - 1] == b.drop_first()[i - 1]);
                    } else {
                        lemma_char_code_inj(a[0], b[0]);
                    }
                }
                assert(a =~= b);
            }
            if a == b {
                assert(a.drop_first() =~= b.drop_first());
            }
        } else {
            assert(a[0] != b[0]);
            assert(a != b) by {
                if a == b {
                    assert(a[0] == b[0]);
                }
            }
        }
    }
}

/// `lex_lt` is transitive.
pub proof fn lemma_lex_lt_trans(a: Seq<char>, b: Seq<char>, c: Seq<char>)
    requires
        lex_lt(a, b),
        lex_lt(b, c),
    ensures
        lex_lt(a, c),
    decreases a.len(),
{
    if a.len() == 0 {
    } else {
        if (a[0] as u32) == (b[0] as u32) && (b[0] as u32) == (c[0] as u32) {
            lemma_lex_lt_trans(a.drop_first(), b.drop_first(), c.drop_first());
        }
    }
}

/// A value carrying a string name that identifies it within a collection.
pub trait NamedItem: Sized {
    /// The name, as a sequence of characters.
    spec fn key(&self) -> Seq<char>;

    /// Returns the name.
    fn key_ref(&self) -> (s: &str)
        ensures
            s@ == self.key(),
    ;
}

/// Whether the sequence is strictly sorted by name (which also makes every
/// name unique).
pub open spec fn sorted_unique<T: NamedItem>(s: Seq<T>) -> bool {
    forall|i: int, j: int|
        0 <= i < j < s.len() ==> lex_lt(#[trigger] s[i].key(), #[trigger] s[j].key())
}

/// Insertion of `x` into `s`, replacing an entry with the same name and
/// otherwise keeping the name order.
pub open spec fn insert_named<T: NamedItem>(s: Seq<T>, x: T) -> Seq<T>
    decreases s.len(),
{
    if s.len() == 0 {
        seq![x]
    } else if lex_lt(x.key(), s[0].key()) {
        seq![x] + s
    } else if x.key() == s[0].key() {
        seq![x] + s.drop_first()
    } else {
        seq![s[0]] + insert_named(s.drop_first(), x)
    }
}

/// The canonical form of `s`: every entry inserted in order, so that names
/// are sorted and unique and the last entry added for a name survives.
pub open spec fn normalized<T: NamedItem>(s: Seq<T>) -> Seq<T>
    decreases s.len(),
{
    if s.len() == 0 {
        Seq::<T>::empty()
    } else {
        insert_named(normalized(s.drop_last()), s.last())
    }
}

/// The first entry of `s` named `k`, if any.
pub open spec fn first_entry<T: NamedItem>(s: Seq<T>, k: Seq<char>) -> Option<T>
    decreases s.len(),
{
    if s.len() == 0 {
        None
    } else if s[0].key() == k {
        Some(s[0])
    } else {
        first_entry(s.drop_first(), k)
    }
}

/// The last entry of `s` named `k`, if any.
pub open spec fn last_entry<T: NamedItem>(s: Seq<T>, k: Seq<char>) -> Option<T>
    decreases s.len(),
{
    if s.len() == 0 {
        None
    } else if s.last().key() == k {
        Some(s.last())
    } else {
        last_entry(s.drop_last(), k)
    }
}

/// Whether some entry of `s` is named `k`.
pub open spec fn contains_key<T: NamedItem>(s: Seq<T>, k: Seq<char>) -> bool {
    exists|i: int| 0 <= i < s.len() && #[trigger] s[i].key() == k
}

/// A name has a first entry exactly when some entry carries it.
pub proof fn lemma_first_entry_some<T: NamedItem>(s: Seq<T>, k: Seq<char>)
    ensures
        first_entry(s, k) is Some <==> contains_key(s, k),
        first_entry(s, k) matches Some(t) ==> t.key() == k,
        first_entry(s, k) matches Some(t) ==> exists|i: int|
            0 <= i < s.len() && s[i] == t && #[trigger] s[i].key() == k,
    decreases s.len(),
{
    if s.len() == 0 {
    } else if s[0].key() == k {
    } else {
        lemma_first_entry_some(s.drop_first(), k);
        if contains_key(s, k) {
            let i = choose|i: int| 0 <= i < s.len() && #[trigger] s[i].key() == k;
            assert(s.drop_first()[i - 1].key() == k);
        }
        if contains_key(s.drop_first(), k) {
            let i = choose|i: int|
                0 <= i < s.drop_first().len() && #[trigger] s.drop_first()[i].key() == k;
            assert(s[i + 1].key() == k);
        }
        match first_entry(s.drop_first(), k) {
            Some(t) => {
                let i = choose|i: int|
                    0 <= i < s.drop_first().len() && s.drop_first()[i] == t
                        && #[trigger] s.drop_first()[i].key() == k;
                assert(s[i + 1] == t && s[i + 1].key() == k);
            },
            None => {},
        }
    }
}

/// Properties of a single insertion into a sorted collection: sortedness is
/// kept, the inserted name maps to the inserted entry, and every other name
/// keeps its entry.
pub proof fn lemma_insert_named<T: NamedItem>(s: Seq<T>, x: T)
    requires
        sorted_unique(s),
    ensures
        sorted_unique(insert_named(s, x)),
        first_entry(insert_named(s, x), x.key()) == Some(x),
        forall|k: Seq<char>| k != x.key() ==> first_entry(insert_named(s, x), k) == first_entry(s, k),
        forall|k: Seq<char>| contains_key(insert_named(s, x), k) <==> (contains_key(s, k) || k == x.key()),
    decreases s.len(),
{
    let r = insert_named(s, x);
    if s.len() == 0 {
        assert(r =~= seq![x]);
        assert forall|k: Seq<char>| k != x.key() implies first_entry(r, k) == first_entry(s, k) by {
            assert(r[0] == x);
            assert(r[0].key() != k);
            assert(r.drop_first() =~= Seq::<T>::empty());
            assert(first_entry(r, k) == first_entry(r.drop_first(), k));
            assert(first_entry(r.drop_first(), k) is None);
            assert(first_entry(s, k) is None);
        }
        assert forall|k: Seq<char>| contains_key(r, k) implies (contains_key(s, k) || k == x.key()) by {
            let i = choose|i: int| 0 <= i < r.len() && #[trigger] r[i].key() == k;
        }
        assert(r[0].key() == x.key());
    } else if lex_lt(x.key(), s[0].key()) {
        assert(r =~= seq![x] + s);
        assert(r.drop_first() =~= s);
        assert(sorted_unique(r)) by {
            assert forall|i: int, j: int| 0 <= i < j < r.len() implies lex_lt(
                #[trigger] r[i].key(),
                #[trigger] r[j].key(),
            ) by {
                if i == 0 {
                    assert(r[j] == s[j - 1]);
                    if j > 1 {
                        assert(lex_lt(s[0].key(), s[j - 1].key()));
                        lemma_lex_lt_trans(x.key(), s[0].key(), s[j - 1].key());
                    }
                } else {
                    assert(r[i] == s[i - 1] && r[j] == s[j - 1]);
                }
            }
        }
        assert forall|k: Seq<char>| k != x.key() implies first_entry(r, k) == first_entry(s, k) by {
            assert(r[0] == x);
            assert(r[0].key() != k);
            assert(first_entry(r, k) == first_entry(r.drop_first(), k));
            assert(r.drop_first() == s);
        }
        assert forall|k: Seq<char>| contains_key(r, k) implies (contains_key(s, k) || k == x.key()) by {
            let i = choose|i: int| 0 <= i < r.len() && #[trigger] r[i].key() == k;
            if i > 0 {
                assert(s[i - 1].key() == k);
            } else {
                assert(r[0] == x);
            }
        }
        assert forall|k: Seq<char>| (contains_key(s, k) || k == x.key()) implies contains_key(r, k) by {
            if contains_key(s, k) {
                let i = choose|i: int| 0 <= i < s.len() && #[trigger] s[i].key() == k;
                assert(r[i + 1].key() == k);
            } else {
                assert(r[0].key() == k);
            }
        }
    } else if x.key() == s[0].key() {
        assert(r =~= seq![x] + s.drop_first());
        assert(r.drop_first() =~= s.drop_first());
        assert(sorted_unique(r)) by {
            assert forall|i: int, j: int| 0 <= i < j < r.len() implies lex_lt(
                #[trigger] r[i].key(),
                #[trigger] r[j].key(),
            ) by {
                if i == 0 {
                    assert(r[j] == s[j]);
                    assert(lex_lt(s[0].key(), s[j].key()));
                } else {
                    assert(r[i] == s[i] && r[j] == s[j]);
                }
            }
        }
        assert forall|k: Seq<char>| k != x.key() implies first_entry(r, k) == first_entry(s, k) by {
            assert(first_entry(r, k) == first_entry(s.drop_first(), k));
        }
        assert forall|k: Seq<char>| contains_key(r, k) implies (contains_key(s, k) || k == x.key()) by {
            let i = choose|i: int| 0 <= i < r.len() && #[trigger] r[i].key() == k;
            if i > 0 {
                assert(s[i].key() == k);
            }
        }
        assert forall|k: Seq<char>| (contains_key(s, k) || k == x.key()) implies contains_key(r, k) by {
            if k == x.key() {
                assert(r[0].key() == k);
            } else if contains_key(s, k) {
                let i = choose|i: int| 0 <= i < s.len() && #[trigger] s[i].key() == k;
                assert(i > 0);
                assert(r[i].key() == k);
            }
        }
    } else {
        lemma_lex_lt_trichotomy(x.key(), s[0].key());
        assert(lex_lt(s[0].key(), x.key()));
        assert(sorted_unique(s.drop_first())) by {
            assert forall|i: int, j: int| 0 <= i < j < s.drop_first().len() implies lex_lt(
                #[trigger] s.drop_first()[i].key(),
                #[trigger] s.drop_first()[j].key(),
            ) by {
                assert(s.drop_first()[i] == s[i + 1] && s.drop_first()[j] == s[j + 1]);
            }
        }
        lemma_insert_named(s.drop_first(), x);
        let rr = insert_named(s.drop_first(), x);
        assert(r =~= seq![s[0]] + rr);
        assert(r.drop_first() =~= rr);
        assert(sorted_unique(r)) by {
            assert forall|i: int, j: int| 0 <= i < j < r.len() implies lex_lt(
                #[trigger] r[i].key(),
                #[trigger] r[j].key(),
            ) by {
                if i == 0 {
                    assert(r[j] == rr[j - 1]);
                    // every entry of rr is either x or an entry of s.drop_first()
                    lemma_first_entry_some(rr, rr[j - 1].key());
                    assert(contains_key(rr, rr[j - 1].key()));
                    if rr[j - 1].key() == x.key() {
                        assert(lex_lt(s[0].key(), x.key()));
                    } else {
                        assert(contains_key(s.drop_first(), rr[j - 1].key()));
                        let m = choose|m: int|
                            0 <= m < s.drop_first().len() && #[trigger] s.drop_first()[m].key()
                                == rr[j - 1].key();
                        assert(s.drop_first()[m] == s[m + 1]);
                        assert(lex_lt(s[0].key(), s[m + 1].key()));
                    }
                } else {
                    assert(r[i] == rr[i - 1] && r[j] == rr[j - 1]);
                }
            }
        }
        assert(s[0].key() != x.key());
        assert(first_entry(r, x.key()) == first_entry(rr, x.key()));
        assert forall|k: Seq<char>| k != x.key() implies first_entry(r, k) == first_entry(s, k) by {
            if s[0].key() == k {
            } else {
                assert(first_entry(r, k) == first_entry(rr, k));
                assert(first_entry(s, k) == first_entry(s.drop_first(), k));
            }
        }
        assert forall|k: Seq<char>| contains_key(r, k) implies (contains_key(s, k) || k == x.key()) by {
            let i = choose|i: int| 0 <= i < r.len() && #[trigger] r[i].key() == k;
            if i == 0 {
                assert(s[0].key() == k);
            } else {
                assert(r[i] == rr[i - 1]);
                assert(rr[i - 1].key() == k);
                assert(contains_key(rr, k));
                if k != x.key() {
                    assert(contains_key(s.drop_first(), k));
                    let m = choose|m: int|
                        0 <= m < s.drop_first().len() && #[trigger] s.drop_first()[m].key() == k;
                    assert(s[m + 1].key() == k);
                }
            }
        }
        assert forall|k: Seq<char>| (contains_key(s, k) || k == x.key()) implies contains_key(r, k) by {
            if k == x.key() {
                assert(first_entry(rr, k) == Some(x));
                lemma_first_entry_some(rr, k);
                assert(contains_key(rr, k));
                let m = choose|m: int| 0 <= m < rr.len() && #[trigger] rr[m].key() == k;
                assert(r[m + 1].key() == k);
            } else if contains_key(s, k) {
                let i = choose|i: int| 0 <= i < s.len() && #[trigger] s[i].key() == k;
                if i == 0 {
                    assert(r[0].key() == k);
                } else {
                    assert(s.drop_first()[i - 1].key() == k);
                    assert(contains_key(s.drop_first(), k));
                    lemma_first_entry_some(s.drop_first(), k);
                    assert(first_entry(rr, k) == first_entry(s.drop_first(), k));
                    lemma_first_entry_some(rr, k);
                    assert(contains_key(rr, k));
                    let m = choose|m: int| 0 <= m < rr.len() && #[trigger] rr[m].key() == k;
                    assert(r[m + 1].key() == k);
                }
            }
        }
    }
}

/// Properties of the canonical form: it is sorted with unique names, it has
/// exactly the names of the input, and each name keeps the value of the last
/// input entry carrying it.
pub proof fn lemma_normalized<T: NamedItem>(s: Seq<T>)
    ensures
        sorted_unique(normalized(s)),
        forall|k: Seq<char>| #[trigger] first_entry(normalized(s), k) == last_entry(s, k),
        forall|k: Seq<char>| #[trigger] contains_key(normalized(s), k) <==> contains_key(s, k),
    decreases s.len(),
{
    if s.len() == 0 {
        assert forall|k: Seq<char>| !(#[trigger] contains_key(s, k)) by {
            if contains_key(s, k) {
                let i = choose|i: int| 0 <= i < s.len() && #[trigger] s[i].key() == k;
            }
        }
    } else {
        let t = s.drop_last();
        let x = s.last();
        lemma_normalized(t);
        lemma_insert_named(normalized(t), x);
        assert(normalized(s) == insert_named(normalized(t), x));
        assert forall|k: Seq<char>| #[trigger] first_entry(normalized(s), k) == last_entry(s, k) by {
            if k == x.key() {
                assert(first_entry(insert_named(normalized(t), x), x.key()) == Some(x));
            } else {
                assert(first_entry(insert_named(normalized(t), x), k) == first_entry(
                    normalized(t),
                    k,
                ));
                assert(first_entry(normalized(t), k) == last_entry(t, k));
                assert(last_entry(s, k) == last_entry(t, k));
            }
        }
        assert forall|k: Seq<char>| #[trigger] contains_key(normalized(s), k) <==> contains_key(s, k) by {
            assert(contains_key(insert_named(normalized(t), x), k) <==> (contains_key(
                normalized(t),
                k,
            ) || k == x.key()));
            assert(contains_key(normalized(t), k) <==> contains_key(t, k));
            if contains_key(s, k) {
                let i = choose|i: int| 0 <= i < s.len() && #[trigger] s[i].key() == k;
                if i < s.len() - 1 {
                    assert(t[i].key() == k);
                    assert(contains_key(t, k));
                } else {
                    assert(k == x.key());
                }
            }
            if contains_key(t, k) {
                let i = choose|i: int| 0 <= i < t.len() && #[trigger] t[i].key() == k;
                assert(s[i].key() == k);
            }
            if k == x.key() {
                assert(s[s.len() - 1].key() == k);
            }
        }
    }
}

/// Whether every name in the sequence is unique.
pub open spec fn unique_keys<T: NamedItem>(s: Seq<T>) -> bool {
    forall|i: int, j: int|
        0 <= i < j < s.len() ==> (#[trigger] s[i].key()) != (#[trigger] s[j].key())
}

/// A sorted sequence has unique names.
pub proof fn lemma_sorted_unique_keys<T: NamedItem>(s: Seq<T>)
    requires
        sorted_unique(s),
    ensures
        unique_keys(s),
{
    assert forall|i: int, j: int| 0 <= i < j < s.len() implies (#[trigger] s[i].key()) != (
    #[trigger] s[j].key()) by {
        lemma_lex_lt_trichotomy(s[i].key(), s[j].key());
    }
}

/// Normalization leaves an already canonical sequence unchanged.
pub proof fn lemma_normalized_of_sorted<T: NamedItem>(s: Seq<T>)
    requires
        sorted_unique(s),
    ensures
        normalized(s) == s,
    decreases s.len(),
{
    if s.len() == 0 {
        assert(normalized(s) =~= s);
    } else {
        let t = s.drop_last();
        let x = s.last();
        assert(sorted_unique(t)) by {
            assert forall|i: int, j: int| 0 <= i < j < t.len() implies lex_lt(
                #[trigger] t[i].key(),
                #[trigger] t[j].key(),
            ) by {
                assert(t[i] == s[i] && t[j] == s[j]);
            }
        }
        lemma_normalized_of_sorted(t);
        assert forall|i: int| 0 <= i < t.len() implies lex_lt(#[trigger] t[i].key(), x.key()) by {
            assert(t[i] == s[i]);
            assert(lex_lt(s[i].key(), s[s.len() - 1].key()));
        }
        lemma_insert_at(t, x, t.len() as int);
        assert(t.len() == s.len() - 1 || t[t.len() as int].key() != x.key());
        assert(normalized(s) == t.take(t.len() as int) + seq![x] + t.skip(t.len() as int));
        assert(t.take(t.len() as int) + seq![x] + t.skip(t.len() as int) =~= s);
    }
}

/// Removal of every entry named `k`.
pub open spec fn remove_key<T: NamedItem>(s: Seq<T>, k: Seq<char>) -> Seq<T>
    decreases s.len(),
{
    if s.len() == 0 {
        Seq::<T>::empty()
    } else if s[0].key() == k {
        remove_key(s.drop_first(), k)
    } else {
        seq![s[0]] + remove_key(s.drop_first(), k)
    }
}

/// Replacement of the entry named like `x` by `x`, placed last: the effect
/// of setting one tag on an open span.
pub open spec fn set_key<T: NamedItem>(s: Seq<T>, x: T) -> Seq<T> {
    remove_key(s, x.key()).push(x)
}

/// Properties of `remove_key`: no entry named `k` remains, every other name
/// keeps its first entry, and uniqueness of names is kept.
pub proof fn lemma_remove_key<T: NamedItem>(s: Seq<T>, k: Seq<char>)
    ensures
        !contains_key(remove_key(s, k), k),
        forall|k2: Seq<char>| k2 != k ==> #[trigger] first_entry(remove_key(s, k), k2)
            == first_entry(s, k2),
        forall|k2: Seq<char>| k2 != k ==> (#[trigger] contains_key(remove_key(s, k), k2)
            <==> contains_key(s, k2)),
        unique_keys(s) ==> unique_keys(remove_key(s, k)),
        remove_key(s, k).len() <= s.len(),
        forall|i: int| 0 <= i < remove_key(s, k).len() ==> contains_key(
            s,
            (#[trigger] remove_key(s, k)[i]).key(),
        ),
    decreases s.len(),
{
    let r = remove_key(s, k);
    if s.len() == 0 {
        assert forall|k2: Seq<char>| !(#[trigger] contains_key(r, k2)) by {
            if contains_key(r, k2) {
                let i = choose|i: int| 0 <= i < r.len() && #[trigger] r[i].key() == k2;
            }
        }
        assert forall|k2: Seq<char>| k2 != k && #[trigger] contains_key(s, k2) implies contains_key(
            r,
            k2,
        ) by {
            let i = choose|i: int| 0 <= i < s.len() && #[trigger] s[i].key() == k2;
        }
    } else {
        let t = s.drop_first();
        assert(unique_keys(s) ==> unique_keys(t)) by {
            if unique_keys(s) {
                assert forall|i: int, j: int| 0 <= i < j < t.len() implies (
                #[trigger] t[i].key()) != (#[trigger] t[j].key()) by {
                    assert(t[i] == s[i + 1] && t[j] == s[j + 1]);
                }
            }
        }
        lemma_remove_key(t, k);
        assert forall|k2: Seq<char>| k2 != k && #[trigger] contains_key(s, k2) implies contains_key(
            t,
            k2,
        ) || s[0].key() == k2 by {
            let i = choose|i: int| 0 <= i < s.len() && #[trigger] s[i].key() == k2;
            if i > 0 {
                assert(t[i - 1].key() == k2);
            }
        }
        assert forall|k2: Seq<char>| #[trigger] contains_key(t, k2) implies contains_key(s, k2) by {
            let i = choose|i: int| 0 <= i < t.len() && #[trigger] t[i].key() == k2;
            assert(s[i + 1].key() == k2);
        }
        if s[0].key() == k {
            assert(r == remove_key(t, k));
        } else {
            assert(r == seq![s[0]] + remove_key(t, k));
            let rt = remove_key(t, k);
            assert(r.drop_first() =~= rt);
            assert(r[0] == s[0]);
            assert(!contains_key(r, k)) by {
                if contains_key(r, k) {
                    let i = choose|i: int| 0 <= i < r.len() && #[trigger] r[i].key() == k;
                    if i > 0 {
                        assert(rt[i - 1].key() == k);
                        assert(contains_key(rt, k));
                    }
                }
            }
            assert forall|k2: Seq<char>| k2 != k implies #[trigger] first_entry(r, k2)
                == first_entry(s, k2) by {
                assert(first_entry(r, k2) == if r[0].key() == k2 {
                    Some(r[0])
                } else {
                    first_entry(rt, k2)
                });
            }
            assert forall|k2: Seq<char>| k2 != k && #[trigger] contains_key(r, k2) implies
            contains_key(s, k2) by {
                let i = choose|i: int| 0 <= i < r.len() && #[trigger] r[i].key() == k2;
                if i > 0 {
                    assert(rt[i - 1].key() == k2);
                    assert(contains_key(rt, k2));
                }
            }
            assert forall|k2: Seq<char>| k2 != k && #[trigger] contains_key(s, k2) implies
            contains_key(r, k2) by {
                if s[0].key() == k2 {
                    assert(r[0].key() == k2);
                } else {
                    assert(contains_key(t, k2));
                    assert(contains_key(rt, k2));
                    let m = choose|m: int| 0 <= m < rt.len() && #[trigger] rt[m].key() == k2;
                    assert(r[m + 1].key() == k2);
                }
            }
            if unique_keys(s) {
                assert forall|i: int, j: int| 0 <= i < j < r.len() implies (
                #[trigger] r[i].key()) != (#[trigger] r[j].key()) by {
                    if i == 0 {
                        assert(r[j] == rt[j - 1]);
                        assert(contains_key(t, rt[j - 1].key())) by {
                            assert(contains_key(s, rt[j - 1].key()) || rt[j - 1].key() == k);
                            if rt[j - 1].key() != k {
                                assert(contains_key(t, rt[j - 1].key()));
                            } else {
                                assert(contains_key(rt, k));
                            }
                        }
                        let m = choose|m: int| 0 <= m < t.len() && #[trigger] t[m].key() == rt[j
                            - 1].key();
                        assert(t[m] == s[m + 1]);
                        assert(s[0].key() != s[m + 1].key());
                    } else {
                        assert(r[i] == rt[i - 1] && r[j] == rt[j - 1]);
                    }
                }
            }
            assert forall|i: int| 0 <= i < r.len() implies contains_key(
                s,
                (#[trigger] r[i]).key(),
            ) by {
                if i == 0 {
                    assert(s[0].key() == r[0].key());
                } else {
                    assert(r[i] == rt[i - 1]);
                    assert(contains_key(t, rt[i - 1].key()) || rt[i - 1].key() == k) by {
                        if rt[i - 1].key() == k {
                            assert(contains_key(rt, k));
                        }
                    }
                }
            }
        }
    }
}

/// If the only entry named `k` sits at position `i`, removal of `k` removes
/// exactly that position.
pub proof fn lemma_remove_key_at<T: NamedItem>(s: Seq<T>, k: Seq<char>, i: int)
    requires
        0 <= i < s.len(),
        s[i].key() == k,
        forall|j: int| 0 <= j < s.len() && j != i ==> (#[trigger] s[j].key()) != k,
    ensures
        remove_key(s, k) == s.remove(i),
    decreases i,
{
    if i == 0 {
        assert(remove_key(s, k) == remove_key(s.drop_first(), k));
        lemma_remove_key_absent(s.drop_first(), k);
        assert(s.drop_first() =~= s.remove(0));
    } else {
        assert(s[0].key() != k);
        let t = s.drop_first();
        assert(t[i - 1].key() == k);
        assert forall|j: int| 0 <= j < t.len() && j != i - 1 implies (#[trigger] t[j].key())
            != k by {
            assert(t[j] == s[j + 1]);
        }
        lemma_remove_key_at(t, k, i - 1);
        assert(remove_key(s, k) == seq![s[0]] + t.remove(i - 1));
        assert(seq![s[0]] + t.remove(i - 1) =~= s.remove(i));
    }
}

/// Removal of a name that no entry carries changes nothing.
pub proof fn lemma_remove_key_absent<T: NamedItem>(s: Seq<T>, k: Seq<char>)
    requires
        forall|j: int| 0 <= j < s.len() ==> (#[trigger] s[j].key()) != k,
    ensures
        remove_key(s, k) == s,
    decreases s.len(),
{
    if s.len() == 0 {
        assert(remove_key(s, k) =~= s);
    } else {
        let t = s.drop_first();
        assert forall|j: int| 0 <= j < t.len() implies (#[trigger] t[j].key()) != k by {
            assert(t[j] == s[j + 1]);
        }
        lemma_remove_key_absent(t, k);
        assert(seq![s[0]] + t =~= s);
    }
}

/// Properties of setting one entry: names stay unique, the set name maps to
/// the new entry, every other name keeps its first entry.
pub proof fn lemma_set_key<T: NamedItem>(s: Seq<T>, x: T)
    requires
        unique_keys(s),
    ensures
        unique_keys(set_key(s, x)),
        first_entry(set_key(s, x), x.key()) == Some(x),
        forall|k: Seq<char>| k != x.key() ==> #[trigger] first_entry(set_key(s, x), k)
            == first_entry(s, k),
        forall|k: Seq<char>| #[trigger] contains_key(set_key(s, x), k) <==> (contains_key(s, k)
            || k == x.key()),
{
    let rm = remove_key(s, x.key());
    let r = set_key(s, x);
    lemma_remove_key(s, x.key());
    assert(r == rm.push(x));
    assert(r.drop_last() =~= rm);
    assert(unique_keys(r)) by {
        assert forall|i: int, j: int| 0 <= i < j < r.len() implies (#[trigger] r[i].key()) != (
        #[trigger] r[j].key()) by {
            if j == r.len() - 1 {
                assert(r[i] == rm[i]);
                assert(rm[i].key() != x.key()) by {
                    if rm[i].key() == x.key() {
                        assert(contains_key(rm, x.key()));
                    }
                }
            } else {
                assert(r[i] == rm[i] && r[j] == rm[j]);
            }
        }
    }
    lemma_first_entry_push(rm, x, x.key());
    assert forall|k: Seq<char>| k != x.key() implies #[trigger] first_entry(r, k) == first_entry(
        s,
        k,
    ) by {
        lemma_first_entry_push(rm, x, k);
        lemma_first_entry_some(rm, k);
        lemma_first_entry_some(s, k);
    }
    assert forall|k: Seq<char>| #[trigger] contains_key(r, k) implies (contains_key(s, k) || k
        == x.key()) by {
        let i = choose|i: int| 0 <= i < r.len() && #[trigger] r[i].key() == k;
        if i < r.len() - 1 {
            assert(rm[i].key() == k);
            assert(contains_key(rm, k));
            if k != x.key() {
                assert(contains_key(s, k));
            } else {
                assert(!contains_key(rm, x.key()));
            }
        }
    }
    assert forall|k: Seq<char>| (contains_key(s, k) || k == x.key()) implies #[trigger]
    contains_key(r, k) by {
        if k == x.key() {
            assert(r[r.len() - 1].key() == k);
        } else {
            assert(contains_key(rm, k));
            let i = choose|i: int| 0 <= i < rm.len() && #[trigger] rm[i].key() == k;
            assert(r[i].key() == k);
        }
    }
}

/// The first entry of a pushed sequence: the pushed entry only answers for
/// its own name where no earlier entry has it.
pub proof fn lemma_first_entry_push<T: NamedItem>(s: Seq<T>, x: T, k: Seq<char>)
    ensures
        first_entry(s.push(x), k) == if contains_key(s, k) {
            first_entry(s, k)
        } else if x.key() == k {
            Some(x)
        } else {
            None::<T>
        },
    decreases s.len(),
{
    let r = s.push(x);
    if s.len() == 0 {
        assert(r[0] == x);
        assert(r.drop_first() =~= Seq::<T>::empty());
        assert forall|k2: Seq<char>| !(#[trigger] contains_key(s, k2)) by {
            if contains_key(s, k2) {
                let i = choose|i: int| 0 <= i < s.len() && #[trigger] s[i].key() == k2;
            }
        }
        if x.key() != k {
            assert(first_entry(r, k) == first_entry(r.drop_first(), k));
        }
    } else {
        assert(r[0] == s[0]);
        assert(r.drop_first() =~= s.drop_first().push(x));
        lemma_first_entry_push(s.drop_first(), x, k);
        if s[0].key() == k {
            assert(contains_key(s, k)) by {
                assert(s[0].key() == k);
            }
        } else {
            assert(first_entry(r, k) == first_entry(s.drop_first().push(x), k));
            assert(contains_key(s, k) <==> contains_key(s.drop_first(), k)) by {
                if contains_key(s, k) {
                    let i = choose|i: int| 0 <= i < s.len() && #[trigger] s[i].key() == k;
                    assert(i > 0);
                    assert(s.drop_first()[i - 1].key() == k);
                }
                if contains_key(s.drop_first(), k) {
                    let i = choose|i: int|
                        0 <= i < s.drop_first().len() && #[trigger] s.drop_first()[i].key() == k;
                    assert(s[i + 1].key() == k);
                }
            }
        }
    }
}

/// Sets `x` in `items`: the entry sharing its name, if any, is removed and
/// `x` is appended.
pub fn set_in_place<T: NamedItem>(items: &mut Vec<T>, x: T)
    requires
        unique_keys(old(items)@),
    ensures
        final(items)@ == set_key(old(items)@, x),
        unique_keys(final(items)@),
{
    let ghost s = old(items)@;
    let n = items.len();
    let mut i: usize = 0;
    loop
        invariant_except_break
            items@ == s,
            n == s.len(),
            i <= n,
            forall|j: int| 0 <= j < i ==> (#[trigger] s[j].key()) != x.key(),
        ensures
            items@ == s,
            n == s.len(),
            i <= n,
            forall|j: int| 0 <= j < i ==> (#[trigger] s[j].key()) != x.key(),
            i < n ==> s[i as int].key() == x.key(),
        decreases n - i,
    {
        if i == n {
            break;
        }
        if name_eq(items[i].key_ref(), x.key_ref()) {
            break;
        }
        i = i + 1;
    }
    if i < n {
        proof {
            assert forall|j: int| 0 <= j < s.len() && j != i implies (#[trigger] s[j].key())
                != x.key() by {
                if j > i {
                    assert(s[i as int].key() != s[j].key());
                }
            }
            lemma_remove_key_at(s, x.key(), i as int);
        }
        items.remove(i);
    } else {
        proof {
            lemma_remove_key_absent(s, x.key());
        }
    }
    proof {
        lemma_set_key(s, x);
    }
    items.push(x);
}

/// Setting entries one after the other, each replacing the entry of its
/// name.
pub open spec fn set_all<T: NamedItem>(s: Seq<T>, xs: Seq<T>) -> Seq<T>
    decreases xs.len(),
{
    if xs.len() == 0 {
        s
    } else {
        set_key(set_all(s, xs.drop_last()), xs.last())
    }
}

/// For any sequence of set operations on a collection with unique names:
/// names stay unique; a name that the operations touched maps to the last
/// entry set for it; every other name keeps its first entry.
pub proof fn lemma_set_all_last_write_wins<T: NamedItem>(s: Seq<T>, xs: Seq<T>)
    requires
        unique_keys(s),
    ensures
        unique_keys(set_all(s, xs)),
        forall|k: Seq<char>| contains_key(xs, k) ==> #[trigger] first_entry(set_all(s, xs), k)
            == last_entry(xs, k),
        forall|k: Seq<char>| !contains_key(xs, k) ==> #[trigger] first_entry(set_all(s, xs), k)
            == first_entry(s, k),
        forall|k: Seq<char>| #[trigger] contains_key(set_all(s, xs), k) <==> (contains_key(s, k)
            || contains_key(xs, k)),
    decreases xs.len(),
{
    if xs.len() == 0 {
        assert forall|k: Seq<char>| !(#[trigger] contains_key(xs, k)) by {
            if contains_key(xs, k) {
                let i = choose|i: int| 0 <= i < xs.len() && #[trigger] xs[i].key() == k;
            }
        }
    } else {
        let t = xs.drop_last();
        let x = xs.last();
        lemma_set_all_last_write_wins(s, t);
        lemma_set_key(set_all(s, t), x);
        assert(set_all(s, xs) == set_key(set_all(s, t), x));
        assert forall|k: Seq<char>| #[trigger] contains_key(xs, k) implies (contains_key(t, k) || k
            == x.key()) by {
            let i = choose|i: int| 0 <= i < xs.len() && #[trigger] xs[i].key() == k;
            if i < xs.len() - 1 {
                assert(t[i].key() == k);
            }
        }
        assert forall|k: Seq<char>| #[trigger] contains_key(t, k) implies contains_key(xs, k) by {
            let i = choose|i: int| 0 <= i < t.len() && #[trigger] t[i].key() == k;
            assert(xs[i].key() == k);
        }
        assert forall|k: Seq<char>| k == x.key() implies #[trigger] contains_key(xs, k) by {
            assert(xs[xs.len() - 1].key() == k);
        }
        assert forall|k: Seq<char>| contains_key(xs, k) implies #[trigger] first_entry(
            set_all(s, xs),
            k,
        ) == last_entry(xs, k) by {
            if k == x.key() {
                assert(last_entry(xs, k) == Some(x));
            } else {
                assert(last_entry(xs, k) == last_entry(t, k));
                assert(contains_key(t, k));
            }
        }
    }
}

/// Finds the first entry named `k`, if any.
pub fn find_by_key<'a, T: NamedItem>(items: &'a [T], k: &str) -> (r: Option<&'a T>)
    ensures
        match r {
            Some(t) => first_entry(items@, k@) == Some(*t),
            None => first_entry(items@, k@) is None,
        },
{
    let ghost s = items@;
    let n = items.len();
    let mut i: usize = 0;
    proof {
        assert(s.skip(0) =~= s);
    }
    while i < n
        invariant
            i <= n,
            n == s.len(),
            items@ == s,
            first_entry(s, k@) == first_entry(s.skip(i as int), k@),
        decreases n - i,
    {
        proof {
            assert(s.skip(i as int)[0] == s[i as int]);
        }
        if name_eq(items[i].key_ref(), k) {
            return Some(&items[i]);
        }
        proof {
            assert(s.skip(i as int).drop_first() =~= s.skip(i + 1));
        }
        i = i + 1;
    }
    proof {
        assert(s.skip(n as int).len() == 0);
    }
    None
}

/// Compares two names for equality.
pub fn name_eq(a: &str, b: &str) -> (r: bool)
    ensures
        r == (a@ == b@),
{
    let la = a.unicode_len();
    let lb = b.unicode_len();
    if la != lb {
        proof {
            if a@ == b@ {
                assert(a@.len() == b@.len());
            }
        }
        return false;
    }
    let mut i: usize = 0;
    while i < la
        invariant
            i <= la,
            la == a@.len(),
            la == b@.len(),
            forall|j: int| 0 <= j < i ==> a@[j] == b@[j],
        decreases la - i,
    {
        let ca = a.get_char(i);
        let cb = b.get_char(i);
        if ca != cb {
            proof {
                if a@ == b@ {
                    assert(a@[i as int] == b@[i as int]);
                }
            }
            return false;
        }
        i = i + 1;
    }
    proof {
        assert(a@ =~= b@);
    }
    true
}

/// Compares two names in the lexicographic order.
pub fn name_lt(a: &str, b: &str) -> (r: bool)
    ensures
        r == lex_lt(a@, b@),
{
    let la = a.unicode_len();
    let lb = b.unicode_len();
    let mut i: usize = 0;
    proof {
        assert(a@.skip(0) =~= a@);
        assert(b@.skip(0) =~= b@);
    }
    loop
        invariant
            i <= la,
            i <= lb,
            la == a@.len(),
            lb == b@.len(),
            lex_lt(a@, b@) == lex_lt(a@.skip(i as int), b@.skip(i as int)),
        decreases la + lb - 2 * i,
    {
        proof {
            assert(a@.skip(i as int).len() == la - i);
            assert(b@.skip(i as int).len() == lb - i);
        }
        if i == lb {
            return false;
        }
        if i == la {
            return true;
        }
        let ca = a.get_char(i);
        let cb = b.get_char(i);
        proof {
            assert(a@.skip(i as int)[0] == a@[i as int]);
            assert(b@.skip(i as int)[0] == b@[i as int]);
        }
        if (ca as u32) < (cb as u32) {
            return true;
        }
        if (cb as u32) < (ca as u32) {
            return false;
        }
        proof {
            assert(a@.skip(i as int).drop_first() =~= a@.skip(i + 1));
            assert(b@.skip(i as int).drop_first() =~= b@.skip(i + 1));
        }
        i = i + 1;
    }
}

/// Inserts `x` into the sorted collection `items`, replacing the entry with
/// the same name if there is one.
pub fn insert_sorted<T: NamedItem>(items: &mut Vec<T>, x: T)
    requires
        sorted_unique(old(items)@),
    ensures
        final(items)@ == insert_named(old(items)@, x),
{
    let ghost s = items@;
    let mut j: usize = 0;
    loop
        invariant_except_break
            items@ == s,
            sorted_unique(s),
            j <= s.len(),
            forall|i: int| 0 <= i < j ==> lex_lt(#[trigger] s[i].key(), x.key()),
        ensures
            items@ == s,
            j <= s.len(),
            forall|i: int| 0 <= i < j ==> lex_lt(#[trigger] s[i].key(), x.key()),
            j < s.len() ==> !lex_lt(s[j as int].key(), x.key()),
        decreases s.len() - j,
    {
        if j == items.len() {
            break;
        }
        if !name_lt(items[j].key_ref(), x.key_ref()) {
            break;
        }
        j = j + 1;
    }
    if j < items.len() && name_eq(items[j].key_ref(), x.key_ref()) {
        items.set(j, x);
        proof {
            lemma_insert_at(s, x, j as int);
        }
    } else {
        proof {
            if j < s.len() {
                lemma_lex_lt_trichotomy(x.key(), s[j as int].key());
            }
            lemma_insert_at(s, x, j as int);
        }
        items.insert(j, x);
        proof {
            assert(items@ =~= s.take(j as int) + seq![x] + s.skip(j as int));
        }
    }
}

/// The closed form of `insert_named` at the insertion point `j`.
proof fn lemma_insert_at<T: NamedItem>(s: Seq<T>, x: T, j: int)
    requires
        sorted_unique(s),
        0 <= j <= s.len(),
        forall|i: int| 0 <= i < j ==> lex_lt(#[trigger] s[i].key(), x.key()),
        j < s.len() ==> !lex_lt(s[j].key(), x.key()),
    ensures
        j < s.len() && s[j].key() == x.key() ==> insert_named(s, x) == s.update(j, x),
        (j == s.len() || s[j].key() != x.key()) ==> insert_named(s, x) == s.take(j) + seq![x]
            + s.skip(j),
    decreases j,
{
    if j == 0 {
        if s.len() == 0 {
            assert(insert_named(s, x) =~= s.take(0) + seq![x] + s.skip(0));
        } else if s[0].key() == x.key() {
            assert(insert_named(s, x) == seq![x] + s.drop_first());
            assert(seq![x] + s.drop_first() =~= s.update(0, x));
        } else {
            lemma_lex_lt_trichotomy(x.key(), s[0].key());
            assert(lex_lt(x.key(), s[0].key()));
            assert(insert_named(s, x) == seq![x] + s);
            assert(seq![x] + s =~= s.take(0) + seq![x] + s.skip(0));
        }
    } else {
        assert(lex_lt(s[0].key(), x.key()));
        lemma_lex_lt_trichotomy(x.key(), s[0].key());
        let t = s.drop_first();
        assert(sorted_unique(t)) by {
            assert forall|p: int, q: int| 0 <= p < q < t.len() implies lex_lt(
                #[trigger] t[p].key(),
                #[trigger] t[q].key(),
            ) by {
                assert(t[p] == s[p + 1] && t[q] == s[q + 1]);
            }
        }
        assert forall|i: int| 0 <= i < j - 1 implies lex_lt(#[trigger] t[i].key(), x.key()) by {
            assert(t[i] == s[i + 1]);
        }
        assert(j - 1 < t.len() ==> !lex_lt(t[j - 1].key(), x.key())) by {
            if j - 1 < t.len() {
                assert(t[j - 1] == s[j]);
            }
        }
        lemma_insert_at(t, x, j - 1);
        assert(insert_named(s, x) == seq![s[0]] + insert_named(t, x));
        if j < s.len() && s[j].key() == x.key() {
            assert(t[j - 1].key() == x.key());
            assert(insert_named(t, x) == t.update(j - 1, x));
            assert(seq![s[0]] + t.update(j - 1, x) =~= s.update(j, x));
        } else {
            assert(j - 1 == t.len() || t[j - 1].key() != x.key()) by {
                if j - 1 < t.len() {
                    assert(t[j - 1] == s[j]);
                }
            }
            assert(insert_named(t, x) == t.take(j - 1) + seq![x] + t.skip(j - 1));
            assert(seq![s[0]] + (t.take(j - 1) + seq![x] + t.skip(j - 1)) =~= s.take(j) + seq![x]
                + s.skip(j));
        }
    }
}

/// Normalizes `items`: sorted by name, unique names, last entry added for a
/// name wins.
pub fn normalize_by_name<T: NamedItem>(items: Vec<T>) -> (r: Vec<T>)
    ensures
        r@ == normalized(items@),
        sorted_unique(r@),
{
    let ghost s = items@;
    let mut out: Vec<T> = Vec::new();
    let mut rest = items;
    let ghost mut i: int = 0;
    proof {
        assert(s.take(0) =~= Seq::<T>::empty());
        assert(s.skip(0) =~= s);
    }
    while rest.len() > 0
        invariant
            0 <= i <= s.len(),
            rest@ == s.skip(i),
            out@ == normalized(s.take(i)),
            sorted_unique(out@),
        decreases rest.len(),
    {
        let ghost prefix = s.take(i);
        let x = rest.remove(0);
        proof {
            assert(x == s[i]);
            assert(rest@ =~= s.skip(i + 1));
            assert(s.take(i + 1).drop_last() =~= prefix);
            assert(s.take(i + 1).last() == s[i]);
            lemma_insert_named(normalized(prefix), s[i]);
        }
        insert_sorted(&mut out, x);
        proof {
            i = i + 1;
        }
    }
    proof {
        assert(s.take(s.len() as int) =~= s);
        assert(i == s.len());
    }
    out
}

} // verus!
