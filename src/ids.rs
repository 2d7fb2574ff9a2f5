use vstd::prelude::*;

verus! {

/// The identifiers held in `v`.
pub open spec fn id_set(v: Seq<String>) -> Set<Seq<char>> {
    Set::new(|s: Seq<char>| exists|i: int| 0 <= i < v.len() && #[trigger] v[i]@ == s)
}

/// No identifier occurs twice in `v`.
pub open spec fn distinct(v: Seq<String>) -> bool {
    forall|i: int, j: int| 0 <= i < v.len() && 0 <= j < v.len() && i != j ==> v[i]@ != v[j]@
}

/// Whether `v` holds the identifier `s`.
pub fn holds_id(v: &Vec<String>, s: &String) -> (r: bool)
    ensures
        r == id_set(v@).contains(s@),
{
    let mut i: usize = 0;
    while i < v.len()
        invariant
            i <= v@.len(),
            forall|k: int| 0 <= k < i ==> v@[k]@ != s@,
        decreases v@.len() - i,
    {
        if v[i] == *s {
            assert(v@[i as int]@ == s@);
            return true;
        }
        i = i + 1;
    }
    false
}

/// The identifiers of `v`, each once, in order of first occurrence.
pub fn distinct_ids(v: &Vec<String>) -> (r: Vec<String>)
    ensures
        distinct(r@),
        id_set(r@) == id_set(v@),
{
    let mut out: Vec<String> = Vec::new();
    let mut i: usize = 0;
    while i < v.len()
        invariant
            i <= v@.len(),
            distinct(out@),
            id_set(out@) == id_set(v@.take(i as int)),
        decreases v@.len() - i,
    {
        let ghost before = out@;
        if !holds_id(&out, &v[i]) {
            out.push(v[i].clone());
            assert(out@[before.len() as int]@ == v@[i as int]@);
        }
        assert(id_set(out@) =~= id_set(v@.take(i + 1))) by {
            assert forall|s: Seq<char>| id_set(v@.take(i + 1)).contains(s) implies id_set(out@).contains(s) by {
                let k = choose|k: int| 0 <= k < i + 1 && #[trigger] v@.take(i + 1)[k]@ == s;
                if k < i {
                    assert(v@.take(i as int)[k]@ == s);
                    assert(id_set(before).contains(s));
                    let m = choose|m: int| 0 <= m < before.len() && #[trigger] before[m]@ == s;
                    assert(out@[m]@ == s);
                }
            }
            assert forall|s: Seq<char>| id_set(out@).contains(s) implies id_set(v@.take(i + 1)).contains(s) by {
                let m = choose|m: int| 0 <= m < out@.len() && #[trigger] out@[m]@ == s;
                if m < before.len() {
                    assert(id_set(before).contains(s));
                    let k = choose|k: int| 0 <= k < i && #[trigger] v@.take(i as int)[k]@ == s;
                    assert(v@.take(i + 1)[k]@ == s);
                } else {
                    assert(v@.take(i + 1)[i as int]@ == s);
                }
            }
        }
        i = i + 1;
    }
    assert(v@.take(v@.len() as int) =~= v@);
    out
}

/// The identifiers of `v` that `keep` also holds, in the order of `v`.
pub fn retain_held(v: &Vec<String>, keep: &Vec<String>) -> (r: Vec<String>)
    requires
        distinct(v@),
    ensures
        distinct(r@),
        id_set(r@) == id_set(v@).intersect(id_set(keep@)),
{
    let mut out: Vec<String> = Vec::new();
    let mut i: usize = 0;
    while i < v.len()
        invariant
            i <= v@.len(),
            distinct(v@),
            distinct(out@),
            id_set(out@) == id_set(v@.take(i as int)).intersect(id_set(keep@)),
        decreases v@.len() - i,
    {
        let ghost before = out@;
        let ghost target = id_set(v@.take(i + 1)).intersect(id_set(keep@));
        let held = holds_id(keep, &v[i]);
        if held {
            assert forall|m: int| 0 <= m < before.len() implies before[m]@ != v@[i as int]@ by {
                assert(id_set(before).contains(before[m]@));
                let k = choose|k: int| 0 <= k < i && #[trigger] v@.take(i as int)[k]@ == before[m]@;
                assert(v@[k]@ == before[m]@);
            }
            out.push(v[i].clone());
            assert(out@[before.len() as int]@ == v@[i as int]@);
        }
        assert(id_set(out@) =~= target) by {
            assert forall|s: Seq<char>| target.contains(s) implies id_set(out@).contains(s) by {
                let k = choose|k: int| 0 <= k < i + 1 && #[trigger] v@.take(i + 1)[k]@ == s;
                if k < i {
                    assert(v@.take(i as int)[k]@ == s);
                    assert(id_set(before).contains(s));
                    let m = choose|m: int| 0 <= m < before.len() && #[trigger] before[m]@ == s;
                    assert(out@[m]@ == s);
                } else {
                    assert(out@[before.len() as int]@ == s);
                }
            }
            assert forall|s: Seq<char>| id_set(out@).contains(s) implies target.contains(s) by {
                let m = choose|m: int| 0 <= m < out@.len() && #[trigger] out@[m]@ == s;
                if m < before.len() {
                    assert(id_set(before).contains(s));
                    let k = choose|k: int| 0 <= k < i && #[trigger] v@.take(i as int)[k]@ == s;
                    assert(v@.take(i + 1)[k]@ == s);
                } else {
                    assert(v@.take(i + 1)[i as int]@ == s);
                }
            }
        }
        i = i + 1;
    }
    assert(v@.take(v@.len() as int) =~= v@);
    out
}

/// `v` without the identifier `s`.
pub fn without(v: &Vec<String>, s: &String) -> (r: Vec<String>)
    requires
        distinct(v@),
    ensures
        distinct(r@),
        id_set(r@) == id_set(v@).remove(s@),
{
    let mut out: Vec<String> = Vec::new();
    let mut i: usize = 0;
    while i < v.len()
        invariant
            i <= v@.len(),
            distinct(v@),
            distinct(out@),
            id_set(out@) == id_set(v@.take(i as int)).remove(s@),
        decreases v@.len() - i,
    {
        let ghost before = out@;
        let ghost target = id_set(v@.take(i + 1)).remove(s@);
        if v[i] != *s {
            assert forall|m: int| 0 <= m < before.len() implies before[m]@ != v@[i as int]@ by {
                assert(id_set(before).contains(before[m]@));
                let k = choose|k: int| 0 <= k < i && #[trigger] v@.take(i as int)[k]@ == before[m]@;
                assert(v@[k]@ == before[m]@);
            }
            out.push(v[i].clone());
            assert(out@[before.len() as int]@ == v@[i as int]@);
        }
        assert(id_set(out@) =~= target) by {
            assert forall|t: Seq<char>| target.contains(t) implies id_set(out@).contains(t) by {
                let k = choose|k: int| 0 <= k < i + 1 && #[trigger] v@.take(i + 1)[k]@ == t;
                if k < i {
                    assert(v@.take(i as int)[k]@ == t);
                    assert(id_set(before).contains(t));
                    let m = choose|m: int| 0 <= m < before.len() && #[trigger] before[m]@ == t;
                    assert(out@[m]@ == t);
                } else {
                    assert(out@[before.len() as int]@ == t);
                }
            }
            assert forall|t: Seq<char>| id_set(out@).contains(t) implies target.contains(t) by {
                let m = choose|m: int| 0 <= m < out@.len() && #[trigger] out@[m]@ == t;
                if m < before.len() {
                    assert(id_set(before).contains(t));
                    let k = choose|k: int| 0 <= k < i && #[trigger] v@.take(i as int)[k]@ == t;
                    assert(v@.take(i + 1)[k]@ == t);
                } else {
                    assert(v@.take(i + 1)[i as int]@ == t);
                }
            }
        }
        i = i + 1;
    }
    assert(v@.take(v@.len() as int) =~= v@);
    out
}

} // verus!
