use vstd::prelude::*;

use crate::text::{chars_of, push_char};

verus! {

/// The name of the tool's executable on the target platform.
pub open spec fn executable_name(windows: bool) -> Seq<char> {
    if windows {
        "adb.exe"@
    } else {
        "adb"@
    }
}

pub open spec fn is_separator(c: char, windows: bool) -> bool {
    c == '/' || (windows && c == '\\')
}

/// `dir` joined with the relative `name`: a separator goes between them
/// unless `dir` is empty or already ends with one.
pub open spec fn join_path(dir: Seq<char>, name: Seq<char>, windows: bool) -> Seq<char> {
    if dir.len() == 0 || is_separator(dir.last(), windows) {
        dir + name
    } else {
        dir.push(if windows {
            '\\'
        } else {
            '/'
        }) + name
    }
}

/// Where the tool's executable lies once the bundled files have been
/// extracted into `tool_dir`.
pub fn adb_path(tool_dir: &str, windows: bool) -> (r: String)
    ensures
        r@ == join_path(tool_dir@, executable_name(windows), windows),
{
    let mut r = String::from_str(tool_dir);
    let cs = chars_of(tool_dir);
    let n = cs.len();
    if n > 0 && !(cs[n - 1] == '/' || (windows && cs[n - 1] == '\\')) {
        push_char(&mut r, if windows { '\\' } else { '/' });
    }
    if windows {
        r.append("adb.exe");
    } else {
        r.append("adb");
    }
    r
}

/// Whether an extracted file must be marked executable: on POSIX-like
/// targets, the tool itself is.
pub fn needs_exec_mode(file_name: &str, unix: bool) -> (r: bool)
    ensures
        r == (unix && file_name@ == "adb"@),
{
    let adb = String::from_str("adb");
    let name = String::from_str(file_name);
    unix && name == adb
}

/// The indices at which `present` is false, ascending.
pub open spec fn missing(present: Seq<bool>) -> Seq<int>
    decreases present.len(),
{
    if present.len() == 0 {
        Seq::empty()
    } else {
        let prev = missing(present.drop_last());
        if present.last() {
            prev
        } else {
            prev.push(present.len() - 1)
        }
    }
}

/// Which bundled files are to be written: those not already present in the
/// target directory, each once, in bundle order.
pub fn files_to_write(present: &Vec<bool>) -> (r: Vec<usize>)
    ensures
        r@.len() == missing(present@).len(),
        forall|k: int| 0 <= k < r@.len() ==> #[trigger] r@[k] as int == missing(present@)[k],
{
    let mut out: Vec<usize> = Vec::new();
    let mut i: usize = 0;
    while i < present.len()
        invariant
            i <= present@.len(),
            out@.len() == missing(present@.take(i as int)).len(),
            forall|k: int| 0 <= k < out@.len() ==> #[trigger] out@[k] as int == missing(present@.take(i as int))[k],
        decreases present@.len() - i,
    {
        assert(present@.take(i + 1).drop_last() =~= present@.take(i as int));
        if !present[i] {
            out.push(i);
        }
        i = i + 1;
    }
    assert(present@.take(present@.len() as int) =~= present@);
    out
}

/// What is present after the files at `written` have been written.
pub open spec fn after_writes(present: Seq<bool>, written: Seq<int>) -> Seq<bool> {
    Seq::new(present.len(), |i: int| present[i] || written.contains(i))
}

proof fn lemma_missing(present: Seq<bool>)
    ensures
        forall|i: int| 0 <= i < present.len() ==> (missing(present).contains(i) <==> !present[i]),
        forall|k: int| 0 <= k < missing(present).len() ==> 0 <= #[trigger] missing(present)[k] < present.len(),
        forall|j: int, k: int| 0 <= j < k < missing(present).len() ==> missing(present)[j] < missing(present)[k],
    decreases present.len(),
{
    if present.len() > 0 {
        let prev = present.drop_last();
        lemma_missing(prev);
        assert forall|i: int| 0 <= i < present.len() implies (missing(present).contains(i) <==> !present[i]) by {
            if i < present.len() - 1 {
                assert(prev[i] == present[i]);
                if missing(present).contains(i) {
                    let k = choose|k: int| 0 <= k < missing(present).len() && missing(present)[k] == i;
                    if k < missing(prev).len() {
                        assert(missing(prev).contains(i));
                    }
                }
                if missing(prev).contains(i) {
                    let k = choose|k: int| 0 <= k < missing(prev).len() && missing(prev)[k] == i;
                    assert(missing(present)[k] == i);
                }
            } else {
                if missing(present).contains(i) {
                    let k = choose|k: int| 0 <= k < missing(present).len() && missing(present)[k] == i;
                    if k < missing(prev).len() {
                        assert(missing(prev)[k] < prev.len());
                    }
                }
                if !present[i] {
                    assert(missing(present).last() == i);
                }
            }
        }
    }
}

/// Extracting twice into one directory writes each bundled file at most once:
/// after the first pass every file is present, so the second writes nothing.
pub proof fn extract_twice_writes_once(present: Seq<bool>)
    ensures
        ({
            let first = missing(present);
            let second = missing(after_writes(present, first));
            &&& second.len() == 0
            &&& forall|i: int| 0 <= i < present.len() ==> #[trigger] after_writes(present, first)[i]
            &&& forall|j: int, k: int| 0 <= j < k < first.len() ==> first[j] != first[k]
        }),
{
    let first = missing(present);
    let after = after_writes(present, first);
    lemma_missing(present);
    lemma_missing(after);
    assert forall|i: int| 0 <= i < present.len() implies #[trigger] after[i] by {
        if !present[i] {
            assert(first.contains(i));
        }
    }
    let second = missing(after);
    if second.len() > 0 {
        assert(second.contains(second[0]));
        assert(!after[second[0] as int]);
    }
}

} // verus!
