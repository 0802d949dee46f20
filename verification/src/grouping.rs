//! Grouping of arrivals: the distinct lines serving a stop, and for
//! each line the sorted, duplicate-free list of platform names drawn
//! from its arrivals.

use vstd::prelude::*;

use crate::model::Arrival;
use crate::order::{
    lex_lt, lemma_lex_lt_asymmetric, lemma_lex_lt_irreflexive, lemma_lex_lt_total,
    lemma_lex_lt_transitive, str_eq, str_lt,
};

verus! {

/// The distinct line identifiers of an arrivals list, in order of
/// first appearance.
pub open spec fn line_ids(arr: Seq<Arrival>) -> Seq<Seq<char>>
    decreases arr.len(),
{
    if arr.len() == 0 {
        Seq::empty()
    } else {
        let prev = line_ids(arr.drop_last());
        if prev.contains(arr.last().lineId@) {
            prev
        } else {
            prev.push(arr.last().lineId@)
        }
    }
}

/// Insertion into a sorted sequence, skipping a value already present.
pub open spec fn sorted_insert(s: Seq<Seq<char>>, x: Seq<char>) -> Seq<Seq<char>>
    decreases s.len(),
{
    if s.len() == 0 {
        seq![x]
    } else if lex_lt(x, s[0]) {
        seq![x] + s
    } else if x == s[0] {
        s
    } else {
        seq![s[0]] + sorted_insert(s.skip(1), x)
    }
}

/// The platform names of the arrivals on `line`, sorted and unique.
pub open spec fn platforms_for(arr: Seq<Arrival>, line: Seq<char>) -> Seq<Seq<char>>
    decreases arr.len(),
{
    if arr.len() == 0 {
        Seq::empty()
    } else {
        let prev = platforms_for(arr.drop_last(), line);
        if arr.last().lineId@ == line {
            sorted_insert(prev, arr.last().platformName@)
        } else {
            prev
        }
    }
}

/// Strictly ascending in lexicographic order; implies freedom from
/// duplicates.
pub open spec fn strictly_sorted(s: Seq<Seq<char>>) -> bool {
    forall|i: int, j: int| 0 <= i < j < s.len() ==> lex_lt(s[i], s[j])
}

/// The set of line identifiers appearing in an arrivals list.
pub open spec fn all_line_ids(arr: Seq<Arrival>) -> Set<Seq<char>> {
    Set::new(|l: Seq<char>| exists|i: int| 0 <= i < arr.len() && arr[i].lineId@ == l)
}

/// The set of platform names appearing in the arrivals on `line`.
pub open spec fn platform_names(arr: Seq<Arrival>, line: Seq<char>) -> Set<Seq<char>> {
    Set::new(
        |p: Seq<char>|
            exists|i: int|
                0 <= i < arr.len() && arr[i].lineId@ == line && arr[i].platformName@ == p,
    )
}

/// The set of platform names appearing anywhere in an arrivals list.
pub open spec fn all_platform_names(arr: Seq<Arrival>) -> Set<Seq<char>> {
    Set::new(|p: Seq<char>| exists|i: int| 0 <= i < arr.len() && arr[i].platformName@ == p)
}

/// Inserting gathers exactly the old contents plus the new value.
pub proof fn lemma_sorted_insert_to_set(s: Seq<Seq<char>>, x: Seq<char>)
    ensures
        sorted_insert(s, x).to_set() =~= s.to_set().insert(x),
    decreases s.len(),
{
    if s.len() == 0 {
        assert(sorted_insert(s, x) =~= seq![x]);
        assert(seq![x][0] == x);
        assert(seq![x].contains(x));
    } else if lex_lt(x, s[0]) {
        let r = seq![x] + s;
        assert forall|e: Seq<char>| r.to_set().contains(e) implies s.to_set().insert(x).contains(
            e,
        ) by {
            let k = choose|k: int| 0 <= k < r.len() && r[k] == e;
            if k > 0 {
                assert(s[k - 1] == e);
            }
        }
        assert forall|e: Seq<char>| s.to_set().insert(x).contains(e) implies r.to_set().contains(
            e,
        ) by {
            if e == x {
                assert(r[0] == x);
            } else {
                let k = choose|k: int| 0 <= k < s.len() && s[k] == e;
                assert(r[k + 1] == e);
            }
        }
    } else if x == s[0] {
        assert(s.to_set().contains(x)) by {
            assert(s[0] == x);
        }
        assert(s.to_set().insert(x) =~= s.to_set());
    } else {
        lemma_sorted_insert_to_set(s.skip(1), x);
        let tail = sorted_insert(s.skip(1), x);
        let r = seq![s[0]] + tail;
        assert forall|e: Seq<char>| r.to_set().contains(e) implies s.to_set().insert(x).contains(
            e,
        ) by {
            let k = choose|k: int| 0 <= k < r.len() && r[k] == e;
            if k == 0 {
                assert(s[0] == e);
            } else {
                assert(tail[k - 1] == e);
                assert(tail.to_set().contains(e));
                if e != x {
                    let m = choose|m: int| 0 <= m < s.skip(1).len() && s.skip(1)[m] == e;
                    assert(s[m + 1] == e);
                }
            }
        }
        assert forall|e: Seq<char>| s.to_set().insert(x).contains(e) implies r.to_set().contains(
            e,
        ) by {
            if e == x {
                assert(tail.to_set().contains(e));
                let m = choose|m: int| 0 <= m < tail.len() && tail[m] == e;
                assert(r[m + 1] == e);
            } else {
                let k = choose|k: int| 0 <= k < s.len() && s[k] == e;
                if k == 0 {
                    assert(r[0] == e);
                } else {
                    assert(s.skip(1)[k - 1] == e);
                    assert(s.skip(1).to_set().contains(e));
                    assert(tail.to_set().contains(e));
                    let m = choose|m: int| 0 <= m < tail.len() && tail[m] == e;
                    assert(r[m + 1] == e);
                }
            }
        }
    }
}

/// Inserting into a strictly sorted sequence keeps it strictly sorted.
pub proof fn lemma_sorted_insert_sorted(s: Seq<Seq<char>>, x: Seq<char>)
    requires
        strictly_sorted(s),
    ensures
        strictly_sorted(sorted_insert(s, x)),
    decreases s.len(),
{
    if s.len() == 0 {
    } else if lex_lt(x, s[0]) {
        let r = seq![x] + s;
        assert forall|i: int, j: int| 0 <= i < j < r.len() implies lex_lt(r[i], r[j]) by {
            if i == 0 {
                if j > 1 {
                    lemma_lex_lt_transitive(x, s[0], s[j - 1]);
                }
            } else {
                assert(lex_lt(s[i - 1], s[j - 1]));
            }
        }
    } else if x == s[0] {
    } else {
        lemma_lex_lt_total(x, s[0]);
        assert(lex_lt(s[0], x));
        assert(strictly_sorted(s.skip(1))) by {
            assert(forall|i: int, j: int|
                0 <= i < j < s.skip(1).len() ==> lex_lt(
                    #[trigger] s.skip(1)[i],
                    #[trigger] s.skip(1)[j],
                ));
        }
        lemma_sorted_insert_sorted(s.skip(1), x);
        lemma_sorted_insert_to_set(s.skip(1), x);
        let tail = sorted_insert(s.skip(1), x);
        let r = seq![s[0]] + tail;
        assert forall|i: int, j: int| 0 <= i < j < r.len() implies lex_lt(r[i], r[j]) by {
            if i == 0 {
                let e = tail[j - 1];
                assert(tail.to_set().contains(e));
                if e == x {
                    assert(lex_lt(s[0], x));
                } else {
                    assert(s.skip(1).to_set().contains(e));
                    let m = choose|m: int| 0 <= m < s.skip(1).len() && s.skip(1)[m] == e;
                    assert(s[m + 1] == e);
                    assert(lex_lt(s[0], s[m + 1]));
                }
            } else {
                assert(lex_lt(tail[i - 1], tail[j - 1]));
            }
        }
    }
}

/// A strictly sorted sequence has no repeated entries.
pub proof fn lemma_strictly_sorted_unique(s: Seq<Seq<char>>)
    requires
        strictly_sorted(s),
    ensures
        forall|i: int, j: int| 0 <= i < j < s.len() ==> s[i] != s[j],
{
    assert forall|i: int, j: int| 0 <= i < j < s.len() implies s[i] != s[j] by {
        assert(lex_lt(s[i], s[j]));
        lemma_lex_lt_asymmetric(s[i], s[j]);
    }
}

/// When every entry before `i` precedes `x`, insertion leaves that
/// prefix alone.
pub proof fn lemma_sorted_insert_prefix(s: Seq<Seq<char>>, x: Seq<char>, i: int)
    requires
        0 <= i <= s.len(),
        forall|j: int| 0 <= j < i ==> lex_lt(#[trigger] s[j], x),
    ensures
        sorted_insert(s, x) == s.take(i) + sorted_insert(s.skip(i), x),
    decreases i,
{
    if i == 0 {
        assert(s.skip(0) =~= s);
        assert(s.take(0) + sorted_insert(s, x) =~= sorted_insert(s, x));
    } else {
        assert(lex_lt(s[0], x));
        lemma_lex_lt_asymmetric(s[0], x);
        assert(sorted_insert(s, x) == seq![s[0]] + sorted_insert(s.skip(1), x));
        assert(forall|j: int| 0 <= j < i - 1 ==> lex_lt(#[trigger] s.skip(1)[j], x)) by {
            assert(forall|j: int| 0 <= j < i - 1 ==> s.skip(1)[j] == s[j + 1]);
        }
        lemma_sorted_insert_prefix(s.skip(1), x, i - 1);
        assert(s.skip(1).skip(i - 1) =~= s.skip(i));
        assert(seq![s[0]] + (s.skip(1).take(i - 1) + sorted_insert(s.skip(i), x)) =~= s.take(i)
            + sorted_insert(s.skip(i), x)) by {
            assert(forall|j: int| 0 <= j < i - 1 ==> #[trigger] s.skip(1).take(i - 1)[j] == s[j
                + 1]);
            assert(forall|j: int| 0 <= j < i ==> #[trigger] s.take(i)[j] == s[j]);
        }
    }
}

/// True when some entry of `v` holds the characters of `s`.
pub fn contains_string(v: &Vec<String>, s: &str) -> (r: bool)
    ensures
        r == v.deep_view().contains(s@),
{
    let mut i: usize = 0;
    while i < v.len()
        invariant
            i <= v.len(),
            forall|j: int| 0 <= j < i ==> v.deep_view()[j] != s@,
        decreases v.len() - i,
    {
        if str_eq(v[i].as_str(), s) {
            proof {
                assert(v.deep_view()[i as int] == s@);
            }
            return true;
        }
        i = i + 1;
    }
    false
}

/// The distinct line identifiers of `arrivals`, in order of first
/// appearance.
pub fn unique_line_ids(arrivals: &Vec<Arrival>) -> (r: Vec<String>)
    ensures
        r.deep_view() == line_ids(arrivals@),
{
    let mut r: Vec<String> = Vec::new();
    let mut i: usize = 0;
    proof {
        assert(arrivals@.take(0) =~= Seq::<Arrival>::empty());
    }
    while i < arrivals.len()
        invariant
            i <= arrivals.len(),
            r.deep_view() == line_ids(arrivals@.take(i as int)),
        decreases arrivals.len() - i,
    {
        let ghost prefix = arrivals@.take(i as int);
        let ghost next = arrivals@.take(i + 1);
        proof {
            assert(next.drop_last() =~= prefix);
            assert(next.last() == arrivals@[i as int]);
        }
        if !contains_string(&r, arrivals[i].lineId.as_str()) {
            let ghost old_r = r.deep_view();
            r.push(arrivals[i].lineId.clone());
            proof {
                assert(r.deep_view() =~= old_r.push(arrivals@[i as int].lineId@));
            }
        }
        i = i + 1;
    }
    proof {
        assert(arrivals@.take(arrivals@.len() as int) =~= arrivals@);
    }
    r
}

/// Inserts a platform name in sorted position, unless already present.
fn insert_sorted_string(v: &mut Vec<String>, x: String)
    ensures
        final(v).deep_view() == sorted_insert(old(v).deep_view(), x@),
{
    let ghost s = v.deep_view();
    let mut i: usize = 0;
    while i < v.len()
        invariant_except_break
            i <= v.len(),
            s == v.deep_view(),
            forall|j: int| 0 <= j < i ==> lex_lt(#[trigger] s[j], x@),
        ensures
            i <= v.len(),
            s == v.deep_view(),
            forall|j: int| 0 <= j < i ==> lex_lt(#[trigger] s[j], x@),
            i < v.len() ==> !lex_lt(s[i as int], x@),
        decreases v.len() - i,
    {
        if str_lt(v[i].as_str(), x.as_str()) {
            i = i + 1;
        } else {
            break ;
        }
    }
    proof {
        lemma_sorted_insert_prefix(s, x@, i as int);
    }
    if i < v.len() {
        if str_eq(v[i].as_str(), x.as_str()) {
            proof {
                assert(s.skip(i as int)[0] == s[i as int]);
                assert(s[i as int] == x@);
                lemma_lex_lt_irreflexive(x@);
                assert(sorted_insert(s.skip(i as int), x@) == s.skip(i as int));
                assert(s.take(i as int) + s.skip(i as int) =~= s);
            }
            return ;
        }
        proof {
            assert(s.skip(i as int)[0] == s[i as int]);
            lemma_lex_lt_total(x@, s[i as int]);
            assert(lex_lt(x@, s[i as int]));
            assert(sorted_insert(s.skip(i as int), x@) == seq![x@] + s.skip(i as int));
        }
        let ghost xv = x@;
        v.insert(i, x);
        proof {
            assert(v.deep_view() =~= s.take(i as int) + (seq![xv] + s.skip(i as int))) by {
                assert(v@ == old(v)@.insert(i as int, x));
                assert(forall|j: int|
                    0 <= j < i ==> v.deep_view()[j] == s.take(i as int)[j]);
                assert(v.deep_view()[i as int] == xv);
                assert(forall|j: int|
                    i < j < v@.len() ==> v.deep_view()[j] == s.skip(i as int)[j - i - 1]);
            }
        }
    } else {
        proof {
            assert(s.skip(i as int).len() == 0);
            assert(sorted_insert(s.skip(i as int), x@) =~= seq![x@]);
        }
        let ghost xv = x@;
        v.push(x);
        proof {
            assert(v.deep_view() =~= s.take(i as int) + seq![xv]) by {
                assert(s.take(i as int) =~= s);
            }
        }
    }
}

/// The sorted, duplicate-free platform names of the arrivals on `line`.
pub fn platforms_for_line(arrivals: &Vec<Arrival>, line: &str) -> (r: Vec<String>)
    ensures
        r.deep_view() == platforms_for(arrivals@, line@),
{
    let mut r: Vec<String> = Vec::new();
    let mut i: usize = 0;
    proof {
        assert(arrivals@.take(0) =~= Seq::<Arrival>::empty());
    }
    while i < arrivals.len()
        invariant
            i <= arrivals.len(),
            r.deep_view() == platforms_for(arrivals@.take(i as int), line@),
        decreases arrivals.len() - i,
    {
        let ghost prefix = arrivals@.take(i as int);
        let ghost next = arrivals@.take(i + 1);
        proof {
            assert(next.drop_last() =~= prefix);
            assert(next.last() == arrivals@[i as int]);
        }
        if str_eq(arrivals[i].lineId.as_str(), line) {
            insert_sorted_string(&mut r, arrivals[i].platformName.clone());
        }
        i = i + 1;
    }
    proof {
        assert(arrivals@.take(arrivals@.len() as int) =~= arrivals@);
    }
    r
}

} // verus!
