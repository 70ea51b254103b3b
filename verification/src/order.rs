//! Lexicographic order on strings, and the sorted presentations the
//! configuration commands show to the user.

use vstd::prelude::*;
use vstd::multiset::Multiset;

verus! {

/// Lexicographic order on character sequences, by Unicode scalar value:
/// the order in which profile names and option keys are presented.
pub open spec fn lex_le(a: Seq<char>, b: Seq<char>) -> bool
    decreases a.len(),
{
    if a.len() == 0 {
        true
    } else if b.len() == 0 {
        false
    } else if (a[0] as u32) < (b[0] as u32) {
        true
    } else if (a[0] as u32) > (b[0] as u32) {
        false
    } else {
        lex_le(a.skip(1), b.skip(1))
    }
}

/// Whether two strings are equal, decided character by character.
pub fn str_eq(a: &str, b: &str) -> (r: bool)
    ensures
        r == (a@ == b@),
{
    let a_len = a.unicode_len();
    let b_len = b.unicode_len();
    if a_len != b_len {
        assert(a@ != b@);
        return false;
    }
    let mut i: usize = 0;
    while i < a_len
        invariant
            i <= a_len,
            a_len == a@.len(),
            a_len == b@.len(),
            forall|j: int| 0 <= j < i ==> a@[j] == b@[j],
        decreases a_len - i,
    {
        if a.get_char(i) != b.get_char(i) {
            assert(a@ != b@);
            return false;
        }
        i = i + 1;
    }
    assert(a@ =~= b@);
    true
}

/// Whether `a` comes at or before `b` in lexicographic order.
pub fn str_le(a: &str, b: &str) -> (r: bool)
    ensures
        r == lex_le(a@, b@),
{
    let a_len = a.unicode_len();
    let b_len = b.unicode_len();
    let mut i: usize = 0;
    assert(a@.skip(0) =~= a@);
    assert(b@.skip(0) =~= b@);
    loop
        invariant
            i <= a_len,
            i <= b_len,
            a_len == a@.len(),
            b_len == b@.len(),
            lex_le(a@, b@) == lex_le(a@.skip(i as int), b@.skip(i as int)),
            forall|j: int| 0 <= j < i ==> a@[j] == b@[j],
        decreases a_len - i,
    {
        if i >= a_len {
            assert(a@.skip(i as int).len() == 0);
            return true;
        }
        if i >= b_len {
            assert(b@.skip(i as int).len() == 0);
            assert(a@.skip(i as int).len() > 0);
            return false;
        }
        let ca = a.get_char(i);
        let cb = b.get_char(i);
        assert(a@.skip(i as int)[0] == a@[i as int]);
        assert(b@.skip(i as int)[0] == b@[i as int]);
        if (ca as u32) < (cb as u32) {
            return true;
        }
        if (ca as u32) > (cb as u32) {
            return false;
        }
        assert(a@.skip(i as int).skip(1) =~= a@.skip(i + 1));
        assert(b@.skip(i as int).skip(1) =~= b@.skip(i + 1));
        i = i + 1;
    }
}

/// The order is total: any two strings are comparable.
pub proof fn lemma_lex_le_total(a: Seq<char>, b: Seq<char>)
    ensures
        lex_le(a, b) || lex_le(b, a),
    decreases a.len(),
{
    if a.len() > 0 && b.len() > 0 && (a[0] as u32) == (b[0] as u32) {
        lemma_lex_le_total(a.skip(1), b.skip(1));
    }
}

/// The order is reflexive.
pub proof fn lemma_lex_le_refl(a: Seq<char>)
    ensures
        lex_le(a, a),
    decreases a.len(),
{
    if a.len() > 0 {
        lemma_lex_le_refl(a.skip(1));
    }
}

/// The order is transitive.
pub proof fn lemma_lex_le_trans(a: Seq<char>, b: Seq<char>, c: Seq<char>)
    requires
        lex_le(a, b),
        lex_le(b, c),
    ensures
        lex_le(a, c),
    decreases a.len(),
{
    if a.len() > 0 && b.len() > 0 && c.len() > 0 {
        if (a[0] as u32) == (b[0] as u32) && (b[0] as u32) == (c[0] as u32) {
            lemma_lex_le_trans(a.skip(1), b.skip(1), c.skip(1));
        }
    }
}

/// A sequence of strings in ascending lexicographic order.
pub open spec fn sorted(s: Seq<Seq<char>>) -> bool {
    forall|i: int, j: int| 0 <= i < j < s.len() ==> lex_le(s[i], s[j])
}

/// The names of `v`, in ascending lexicographic order: the same strings,
/// none lost, none added.
pub fn sort_strings(v: &Vec<String>) -> (r: Vec<String>)
    ensures
        sorted(r.deep_view()),
        r.deep_view().to_multiset() == v.deep_view().to_multiset(),
{
    broadcast use vstd::seq_lib::group_to_multiset_ensures;
    broadcast use vstd::multiset::group_multiset_axioms;

    let ghost total = v.deep_view().to_multiset();
    let mut work: Vec<String> = Vec::new();
    let mut i: usize = 0;
    while i < v.len()
        invariant
            i <= v@.len(),
            work.deep_view() =~~= v.deep_view().take(i as int),
        decreases v@.len() - i,
    {
        let ghost prev = work.deep_view();
        work.push(v[i].clone());
        proof {
            assert(prev.len() == i as int);
            assert forall|k: int| 0 <= k < i + 1 implies work.deep_view()[k] == v.deep_view().take(
                i + 1,
            )[k] by {
                if k < i {
                    assert(work.deep_view()[k] == prev[k]);
                } else {
                    assert(work.deep_view()[k] == v@[k]@);
                }
            }
            assert(work.deep_view() =~~= v.deep_view().take(i + 1));
        }
        i = i + 1;
    }
    proof {
        assert(v.deep_view().take(v@.len() as int) =~= v.deep_view());
    }
    let mut out: Vec<String> = Vec::new();
    while work.len() > 0
        invariant
            out.deep_view().to_multiset().add(work.deep_view().to_multiset()) == total,
            sorted(out.deep_view()),
            forall|x: int, y: int|
                0 <= x < out.deep_view().len() && 0 <= y < work.deep_view().len() ==> lex_le(
                    out.deep_view()[x],
                    work.deep_view()[y],
                ),
        decreases work@.len(),
    {
        let mut mi: usize = 0;
        let mut k: usize = 1;
        proof {
            lemma_lex_le_refl(work.deep_view()[0]);
        }
        while k < work.len()
            invariant
                mi < k <= work@.len(),
                work@.len() > 0,
                forall|j: int|
                    0 <= j < k ==> lex_le(work.deep_view()[mi as int], work.deep_view()[j]),
            decreases work@.len() - k,
        {
            if !str_le(work[mi].as_str(), work[k].as_str()) {
                proof {
                    lemma_lex_le_total(work.deep_view()[mi as int], work.deep_view()[k as int]);
                    assert forall|j: int| 0 <= j < k + 1 implies lex_le(
                        work.deep_view()[k as int],
                        work.deep_view()[j],
                    ) by {
                        if j < k {
                            lemma_lex_le_trans(
                                work.deep_view()[k as int],
                                work.deep_view()[mi as int],
                                work.deep_view()[j],
                            );
                        } else {
                            lemma_lex_le_refl(work.deep_view()[k as int]);
                        }
                    }
                }
                mi = k;
            }
            k = k + 1;
        }
        let ghost before = work@;
        let ghost wprev = work.deep_view();
        let ghost oprev = out.deep_view();
        let m = work.remove(mi);
        out.push(m);
        proof {
            assert(m@ == wprev[mi as int]);
            before.remove_ensures(mi as int);
            wprev.remove_ensures(mi as int);
            assert forall|k2: int| 0 <= k2 < wprev.len() - 1 implies work.deep_view()[k2]
                == wprev.remove(mi as int)[k2] by {
                if k2 < mi {
                    assert(before.remove(mi as int)[k2] == before[k2]);
                    assert(wprev.remove(mi as int)[k2] == wprev[k2]);
                    assert(work.deep_view()[k2] == work@[k2]@);
                } else {
                    assert(before.remove(mi as int)[k2] == before[k2 + 1]);
                    assert(wprev.remove(mi as int)[k2] == wprev[k2 + 1]);
                    assert(work.deep_view()[k2] == work@[k2]@);
                }
            }
            assert(work.deep_view() =~~= wprev.remove(mi as int));
            assert(out.deep_view() =~~= oprev.push(m@));
            wprev.to_multiset_ensures();
            oprev.to_multiset_ensures();
            assert forall|x: int, y: int|
                0 <= x < out.deep_view().len() && 0 <= y < work.deep_view().len() implies lex_le(
                out.deep_view()[x],
                work.deep_view()[y],
            ) by {
                assert(lex_le(m@, work.deep_view()[y]));
                if x < oprev.len() {
                    assert(out.deep_view()[x] == oprev[x]);
                } else {
                    assert(out.deep_view()[x] == m@);
                }
            }
            assert forall|x: int, y: int|
                0 <= x < y < out.deep_view().len() implies lex_le(
                out.deep_view()[x],
                out.deep_view()[y],
            ) by {
                if y < oprev.len() {
                } else {
                    assert(out.deep_view()[y] == m@);
                    assert(lex_le(oprev[x], m@));
                }
            }
            assert(wprev.remove(mi as int).to_multiset() == wprev.to_multiset().remove(
                wprev[mi as int],
            ));
            assert(wprev.to_multiset().contains(wprev[mi as int]));
            assert(out.deep_view().to_multiset().add(work.deep_view().to_multiset()) =~= total);
        }
    }
    proof {
        assert(work.deep_view().to_multiset() =~= Multiset::empty());
        assert(out.deep_view().to_multiset() =~= total);
    }
    out
}

/// A sequence of key/value pairs in ascending lexicographic order of key.
pub open spec fn sorted_by_key(s: Seq<(Seq<char>, Seq<char>)>) -> bool {
    forall|i: int, j: int| 0 <= i < j < s.len() ==> lex_le(s[i].0, s[j].0)
}

/// The entries of an option mapping in ascending order of key: the same
/// pairs, none lost, none added — the order they are displayed in.
pub fn ordered_entries(options: &Vec<(String, String)>) -> (r: Vec<(String, String)>)
    ensures
        sorted_by_key(r.deep_view()),
        r.deep_view().to_multiset() == options.deep_view().to_multiset(),
{
    broadcast use vstd::seq_lib::group_to_multiset_ensures;
    broadcast use vstd::multiset::group_multiset_axioms;

    let ghost total = options.deep_view().to_multiset();
    let mut work: Vec<(String, String)> = Vec::new();
    let mut i: usize = 0;
    while i < options.len()
        invariant
            i <= options@.len(),
            work.deep_view() =~~= options.deep_view().take(i as int),
        decreases options@.len() - i,
    {
        let ghost prev = work.deep_view();
        work.push((options[i].0.clone(), options[i].1.clone()));
        proof {
            assert(prev.len() == i as int);
            assert forall|k: int| 0 <= k < i + 1 implies work.deep_view()[k]
                == options.deep_view().take(i + 1)[k] by {
                if k < i {
                    assert(work.deep_view()[k] == prev[k]);
                } else {
                    assert(work.deep_view()[k] == (options@[k].0@, options@[k].1@));
                }
            }
            assert(work.deep_view() =~~= options.deep_view().take(i + 1));
        }
        i = i + 1;
    }
    proof {
        assert(options.deep_view().take(options@.len() as int) =~= options.deep_view());
    }
    let mut out: Vec<(String, String)> = Vec::new();
    while work.len() > 0
        invariant
            out.deep_view().to_multiset().add(work.deep_view().to_multiset()) == total,
            sorted_by_key(out.deep_view()),
            forall|x: int, y: int|
                0 <= x < out.deep_view().len() && 0 <= y < work.deep_view().len() ==> lex_le(
                    out.deep_view()[x].0,
                    work.deep_view()[y].0,
                ),
        decreases work@.len(),
    {
        let mut mi: usize = 0;
        let mut k: usize = 1;
        proof {
            lemma_lex_le_refl(work.deep_view()[0].0);
        }
        while k < work.len()
            invariant
                mi < k <= work@.len(),
                work@.len() > 0,
                forall|j: int|
                    0 <= j < k ==> lex_le(work.deep_view()[mi as int].0, work.deep_view()[j].0),
            decreases work@.len() - k,
        {
            if !str_le(work[mi].0.as_str(), work[k].0.as_str()) {
                proof {
                    lemma_lex_le_total(work.deep_view()[mi as int].0, work.deep_view()[k as int].0);
                    assert forall|j: int| 0 <= j < k + 1 implies lex_le(
                        work.deep_view()[k as int].0,
                        work.deep_view()[j].0,
                    ) by {
                        if j < k {
                            lemma_lex_le_trans(
                                work.deep_view()[k as int].0,
                                work.deep_view()[mi as int].0,
                                work.deep_view()[j].0,
                            );
                        } else {
                            lemma_lex_le_refl(work.deep_view()[k as int].0);
                        }
                    }
                }
                mi = k;
            }
            k = k + 1;
        }
        let ghost before = work@;
        let ghost wprev = work.deep_view();
        let ghost oprev = out.deep_view();
        let m = work.remove(mi);
        out.push(m);
        proof {
            assert((m.0@, m.1@) == wprev[mi as int]);
            before.remove_ensures(mi as int);
            wprev.remove_ensures(mi as int);
            assert forall|k2: int| 0 <= k2 < wprev.len() - 1 implies work.deep_view()[k2]
                == wprev.remove(mi as int)[k2] by {
                if k2 < mi {
                    assert(before.remove(mi as int)[k2] == before[k2]);
                    assert(wprev.remove(mi as int)[k2] == wprev[k2]);
                    assert(work.deep_view()[k2] == (work@[k2].0@, work@[k2].1@));
                } else {
                    assert(before.remove(mi as int)[k2] == before[k2 + 1]);
                    assert(wprev.remove(mi as int)[k2] == wprev[k2 + 1]);
                    assert(work.deep_view()[k2] == (work@[k2].0@, work@[k2].1@));
                }
            }
            assert(work.deep_view() =~~= wprev.remove(mi as int));
            assert(out.deep_view() =~~= oprev.push((m.0@, m.1@)));
            wprev.to_multiset_ensures();
            oprev.to_multiset_ensures();
            assert forall|x: int, y: int|
                0 <= x < out.deep_view().len() && 0 <= y < work.deep_view().len() implies lex_le(
                out.deep_view()[x].0,
                work.deep_view()[y].0,
            ) by {
                assert(lex_le(m.0@, work.deep_view()[y].0));
                if x < oprev.len() {
                    assert(out.deep_view()[x] == oprev[x]);
                } else {
                    assert(out.deep_view()[x] == (m.0@, m.1@));
                }
            }
            assert forall|x: int, y: int|
                0 <= x < y < out.deep_view().len() implies lex_le(
                out.deep_view()[x].0,
                out.deep_view()[y].0,
            ) by {
                if y < oprev.len() {
                } else {
                    assert(out.deep_view()[y] == (m.0@, m.1@));
                    assert(lex_le(oprev[x].0, m.0@));
                }
            }
            assert(wprev.remove(mi as int).to_multiset() == wprev.to_multiset().remove(
                wprev[mi as int],
            ));
            assert(wprev.to_multiset().contains(wprev[mi as int]));
            assert(out.deep_view().to_multiset().add(work.deep_view().to_multiset()) =~= total);
        }
    }
    proof {
        assert(work.deep_view().to_multiset() =~= Multiset::empty());
        assert(out.deep_view().to_multiset() =~= total);
    }
    out
}

} // verus!
