use vstd::prelude::*;

use crate::ids::{holds_id, id_set};
use crate::text::{chars_of, contains, occurs};

verus! {

/// One entry of the package catalog.
#[derive(Clone, Debug, PartialEq, Eq)]
pub struct PackageInfo {
    pub id: String,
    /// The list the package belongs to.
    pub list: Option<String>,
    pub description: Option<String>,
    pub dependencies: Option<Vec<String>>,
    pub needed_by: Option<Vec<String>>,
    pub labels: Option<Vec<String>>,
    /// How safe removal is judged to be.
    pub removal: Option<String>,
}

/// What `str::to_lowercase` makes of `s`.
pub uninterp spec fn lower_of(s: Seq<char>) -> Seq<char>;

/// Relies on str::to_lowercase: the result depends on the characters alone,
/// and the empty string stays empty.
#[verifier::external_body]
fn lowercase(s: &str) -> (r: String)
    ensures
        r@ == lower_of(s@),
        s@.len() == 0 ==> r@.len() == 0,
{
    s.to_lowercase()
}

/// The choice of a filter that lets every package through.
pub open spec fn any_choice() -> Seq<char> {
    "All"@
}

/// Whether a package's field passes the filter `choice`.
pub open spec fn passes(field: Option<String>, choice: Seq<char>) -> bool {
    choice == any_choice() || (field is Some && field->Some_0@ == choice)
}

/// Whether `info` is listed, given the lowered forms of its identifier and
/// of the search text.
pub open spec fn shown(
    info: PackageInfo,
    installed: Set<Seq<char>>,
    lowered_id: Seq<char>,
    lowered_query: Seq<char>,
    list_choice: Seq<char>,
    removal_choice: Seq<char>,
) -> bool {
    &&& installed.contains(info.id@)
    &&& contains(lowered_id, lowered_query)
    &&& passes(info.list, list_choice)
    &&& passes(info.removal, removal_choice)
}

fn passes_choice(field: &Option<String>, choice: &String) -> (r: bool)
    ensures
        r == passes(*field, choice@),
{
    let all = String::from_str("All");
    if *choice == all {
        return true;
    }
    match field {
        Some(v) => *v == *choice,
        None => false,
    }
}

/// Decides whether `info` is listed: it is installed, its lowered identifier
/// holds the lowered search text, and it passes both filters.
pub fn is_shown(
    info: &PackageInfo,
    installed: &Vec<String>,
    lowered_id: &str,
    lowered_query: &str,
    list_choice: &String,
    removal_choice: &String,
) -> (r: bool)
    ensures
        r == shown(
            *info,
            id_set(installed@),
            lowered_id@,
            lowered_query@,
            list_choice@,
            removal_choice@,
        ),
{
    if !holds_id(installed, &info.id) {
        return false;
    }
    let hay = chars_of(lowered_id);
    let needle = chars_of(lowered_query);
    occurs(&hay, &needle) && passes_choice(&info.list, list_choice) && passes_choice(
        &info.removal,
        removal_choice,
    )
}

/// The indices of the shown entries of `catalog`, ascending.
pub open spec fn shown_indices(
    catalog: Seq<PackageInfo>,
    installed: Set<Seq<char>>,
    query: Seq<char>,
    list_choice: Seq<char>,
    removal_choice: Seq<char>,
) -> Seq<int>
    decreases catalog.len(),
{
    if catalog.len() == 0 {
        Seq::empty()
    } else {
        let prev = shown_indices(catalog.drop_last(), installed, query, list_choice, removal_choice);
        let info = catalog.last();
        if shown(info, installed, lower_of(info.id@), lower_of(query), list_choice, removal_choice) {
            prev.push(catalog.len() - 1)
        } else {
            prev
        }
    }
}

/// The catalog entries to list: installed ones whose identifier holds the
/// search text, ignoring case, and that pass the list and removal filters.
pub fn visible_packages(
    catalog: &Vec<PackageInfo>,
    installed: &Vec<String>,
    query: &str,
    list_choice: &String,
    removal_choice: &String,
) -> (r: Vec<usize>)
    ensures
        r@.len() == shown_indices(catalog@, id_set(installed@), query@, list_choice@, removal_choice@).len(),
        forall|k: int|
            0 <= k < r@.len() ==> #[trigger] r@[k] as int == shown_indices(
                catalog@,
                id_set(installed@),
                query@,
                list_choice@,
                removal_choice@,
            )[k],
{
    let ghost set = id_set(installed@);
    let lowered_query = lowercase(query);
    let mut out: Vec<usize> = Vec::new();
    let mut i: usize = 0;
    while i < catalog.len()
        invariant
            i <= catalog@.len(),
            lowered_query@ == lower_of(query@),
            set == id_set(installed@),
            out@.len() == shown_indices(catalog@.take(i as int), set, query@, list_choice@, removal_choice@).len(),
            forall|k: int|
                0 <= k < out@.len() ==> #[trigger] out@[k] as int == shown_indices(
                    catalog@.take(i as int),
                    set,
                    query@,
                    list_choice@,
                    removal_choice@,
                )[k],
        decreases catalog@.len() - i,
    {
        assert(catalog@.take(i + 1).drop_last() =~= catalog@.take(i as int));
        let info = &catalog[i];
        let lowered_id = lowercase(info.id.as_str());
        if is_shown(info, installed, lowered_id.as_str(), lowered_query.as_str(), list_choice, removal_choice) {
            out.push(i);
        }
        i = i + 1;
    }
    assert(catalog@.take(catalog@.len() as int) =~= catalog@);
    out
}

/// The order of `String`: lexicographic over the characters.
pub open spec fn lex_lt(a: Seq<char>, b: Seq<char>) -> bool
    decreases a.len(),
{
    if a.len() == 0 {
        b.len() > 0
    } else if b.len() == 0 {
        false
    } else if a[0] != b[0] {
        a[0] < b[0]
    } else {
        lex_lt(a.drop_first(), b.drop_first())
    }
}

proof fn lemma_lex_order(a: Seq<char>, b: Seq<char>, c: Seq<char>)
    ensures
        lex_lt(a, b) ==> !lex_lt(b, a) && a != b,
        a != b ==> lex_lt(a, b) || lex_lt(b, a),
        lex_lt(a, b) && lex_lt(b, c) ==> lex_lt(a, c),
    decreases a.len(),
{
    if a.len() > 0 && b.len() > 0 && c.len() > 0 {
        lemma_lex_order(a.drop_first(), b.drop_first(), c.drop_first());
        if a.drop_first() == b.drop_first() && a[0] == b[0] {
            assert(a =~= seq![a[0]] + a.drop_first());
            assert(b =~= seq![b[0]] + b.drop_first());
        }
    } else if a.len() > 0 && b.len() > 0 {
        lemma_lex_order(a.drop_first(), b.drop_first(), c);
        if a.drop_first() == b.drop_first() && a[0] == b[0] {
            assert(a =~= seq![a[0]] + a.drop_first());
            assert(b =~= seq![b[0]] + b.drop_first());
        }
    } else if a.len() == 0 && b.len() == 0 {
        assert(a =~= b);
    }
}

/// Whether `a` comes before `b` in the order of `String`.
fn precedes(a: &Vec<char>, b: &Vec<char>) -> (r: bool)
    ensures
        r == lex_lt(a@, b@),
{
    let mut i: usize = 0;
    assert(a@.subrange(0, a@.len() as int) =~= a@);
    assert(b@.subrange(0, b@.len() as int) =~= b@);
    while i < a.len() && i < b.len() && a[i] == b[i]
        invariant
            i <= a@.len(),
            i <= b@.len(),
            lex_lt(a@, b@) == lex_lt(a@.subrange(i as int, a@.len() as int), b@.subrange(i as int, b@.len() as int)),
        decreases a@.len() - i,
    {
        assert(a@.subrange(i as int, a@.len() as int).drop_first() =~= a@.subrange(i + 1, a@.len() as int));
        assert(b@.subrange(i as int, b@.len() as int).drop_first() =~= b@.subrange(i + 1, b@.len() as int));
        i = i + 1;
    }
    if i == a.len() {
        i < b.len()
    } else if i == b.len() {
        false
    } else {
        a[i] < b[i]
    }
}

/// The values that some entry of `values` holds.
pub open spec fn held_values(values: Seq<Option<String>>) -> Set<Seq<char>> {
    Set::new(|s: Seq<char>| exists|k: int| 0 <= k < values.len() && #[trigger] values[k] is Some && values[k]->Some_0@ == s)
}

/// The choices of a filter: "All", then each value that some entry holds,
/// once, in ascending order.
pub fn filter_choices(values: &Vec<Option<String>>) -> (r: Vec<String>)
    ensures
        r@.len() >= 1,
        r@[0]@ == any_choice(),
        id_set(r@.drop_first()) == held_values(values@),
        forall|i: int, j: int| 1 <= i < j < r@.len() ==> lex_lt(#[trigger] r@[i]@, #[trigger] r@[j]@),
{
    let mut sorted: Vec<String> = Vec::new();
    let mut keys: Vec<Vec<char>> = Vec::new();
    let mut k: usize = 0;
    while k < values.len()
        invariant
            k <= values@.len(),
            keys@.len() == sorted@.len(),
            forall|i: int| 0 <= i < keys@.len() ==> #[trigger] keys@[i]@ == sorted@[i]@,
            forall|i: int, j: int| 0 <= i < j < sorted@.len() ==> lex_lt(#[trigger] sorted@[i]@, #[trigger] sorted@[j]@),
            id_set(sorted@) == held_values(values@.take(k as int)),
        decreases values@.len() - k,
    {
        let ghost before = sorted@;
        let ghost target = held_values(values@.take(k + 1));
        assert forall|s: Seq<char>| target.contains(s) <==> (held_values(values@.take(k as int)).contains(s) || (values@[k as int] is Some && values@[k as int]->Some_0@ == s)) by {
            if target.contains(s) {
                let m = choose|m: int| 0 <= m < k + 1 && #[trigger] values@.take(k + 1)[m] is Some && values@.take(k + 1)[m]->Some_0@ == s;
                if m < k {
                    assert(values@.take(k as int)[m] == values@.take(k + 1)[m]);
                }
            }
            if held_values(values@.take(k as int)).contains(s) {
                let m = choose|m: int| 0 <= m < k && #[trigger] values@.take(k as int)[m] is Some && values@.take(k as int)[m]->Some_0@ == s;
                assert(values@.take(k + 1)[m] == values@.take(k as int)[m]);
            }
            if values@[k as int] is Some && values@[k as int]->Some_0@ == s {
                assert(values@.take(k + 1)[k as int] == values@[k as int]);
            }
        }
        match &values[k] {
            None => {
                assert(id_set(sorted@) =~= target);
            },
            Some(v) => {
                let key = chars_of(v.as_str());
                let mut p: usize = 0;
                while p < keys.len() && precedes(&keys[p], &key)
                    invariant
                        p <= keys@.len() == sorted@.len(),
                        forall|i: int| 0 <= i < keys@.len() ==> #[trigger] keys@[i]@ == sorted@[i]@,
                        forall|i: int| 0 <= i < p ==> lex_lt(#[trigger] sorted@[i]@, key@),
                    decreases keys@.len() - p,
                {
                    p = p + 1;
                }
                if p < keys.len() && !precedes(&key, &keys[p]) {
                    proof {
                        lemma_lex_order(sorted@[p as int]@, key@, key@);
                    }
                    assert(keys@[p as int]@ == key@);
                    assert(id_set(sorted@) =~= target) by {
                        assert(id_set(sorted@).contains(key@));
                    }
                } else {
                    proof {
                        if p < keys@.len() {
                            assert(keys@[p as int]@ != key@);
                            lemma_lex_order(sorted@[p as int]@, key@, key@);
                            assert(lex_lt(key@, sorted@[p as int]@));
                            assert forall|j: int| p < j < sorted@.len() implies lex_lt(key@, #[trigger] sorted@[j]@) by {
                                lemma_lex_order(key@, sorted@[p as int]@, sorted@[j]@);
                            }
                        }
                    }
                    let ghost keys_before = keys@;
                    assert(forall|i: int| 0 <= i < keys_before.len() ==> #[trigger] keys_before[i]@ == before[i]@);
                    sorted.insert(p, v.clone());
                    keys.insert(p, key);
                    assert forall|i: int| 0 <= i < keys@.len() implies #[trigger] keys@[i]@ == sorted@[i]@ by {
                        if i < p {
                        } else if i == p {
                        } else {
                            assert(keys@[i] == keys_before[i - 1] && sorted@[i] == before[i - 1]);
                        }
                    }
                    assert forall|i: int, j: int| 0 <= i < j < sorted@.len() implies lex_lt(#[trigger] sorted@[i]@, #[trigger] sorted@[j]@) by {
                        if j < p {
                            assert(sorted@[i] == before[i] && sorted@[j] == before[j]);
                        } else if j == p {
                            assert(sorted@[i] == before[i]);
                        } else if i < p {
                            assert(sorted@[i] == before[i] && sorted@[j] == before[j - 1]);
                        } else if i == p {
                            assert(sorted@[j] == before[j - 1]);
                        } else {
                            assert(sorted@[i] == before[i - 1] && sorted@[j] == before[j - 1]);
                        }
                    }
                    assert(id_set(sorted@) =~= target) by {
                        assert forall|s: Seq<char>| id_set(sorted@).contains(s) implies target.contains(s) by {
                            let m = choose|m: int| 0 <= m < sorted@.len() && #[trigger] sorted@[m]@ == s;
                            if m < p {
                                assert(sorted@[m] == before[m]);
                                assert(id_set(before).contains(s));
                            } else if m > p {
                                assert(sorted@[m] == before[m - 1]);
                                assert(id_set(before).contains(s));
                            }
                        }
                        assert forall|s: Seq<char>| target.contains(s) implies id_set(sorted@).contains(s) by {
                            if id_set(before).contains(s) {
                                let m = choose|m: int| 0 <= m < before.len() && #[trigger] before[m]@ == s;
                                if m < p {
                                    assert(sorted@[m] == before[m]);
                                } else {
                                    assert(sorted@[m + 1] == before[m]);
                                }
                            } else {
                                assert(sorted@[p as int]@ == s);
                            }
                        }
                    }
                }
            },
        }
        k = k + 1;
    }
    assert(values@.take(values@.len() as int) =~= values@);
    let mut r: Vec<String> = Vec::new();
    r.push(String::from_str("All"));
    let mut i: usize = 0;
    while i < sorted.len()
        invariant
            i <= sorted@.len(),
            r@.len() == i + 1,
            r@[0]@ == any_choice(),
            forall|m: int| 0 <= m < i ==> #[trigger] r@[m + 1] == sorted@[m],
        decreases sorted@.len() - i,
    {
        r.push(sorted[i].clone());
        i = i + 1;
    }
    assert(r@.drop_first() =~= sorted@);
    assert forall|i: int, j: int| 1 <= i < j < r@.len() implies lex_lt(#[trigger] r@[i]@, #[trigger] r@[j]@) by {
        assert(r@[i] == sorted@[i - 1] && r@[j] == sorted@[j - 1]);
    }
    r
}

} // verus!
