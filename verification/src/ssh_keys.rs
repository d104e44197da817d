//! Which SSH private key files to report for a user.
//!
//! The files looked for are four fixed names under the `.ssh` directory of
//! the user's home directory. Whether a file exists is not decided here: the
//! caller looks each candidate up and hands in one flag per candidate.

use crate::paths::{absolute, join, joined, lemma_joined_injective};
use vstd::prelude::*;

verus! {

/// The directory under the home directory in which key files are kept.
pub const SSH_DIR_NAME: &'static str = ".ssh";

/// How many key file names are looked for.
pub const KEY_FILE_COUNT: usize = 4;

/// The key file names, in the order in which they are looked for and
/// reported: RSA, Ed25519, ECDSA, DSA.
pub open spec fn key_file_names() -> Seq<Seq<char>> {
    seq!["id_rsa"@, "id_ed25519"@, "id_ecdsa"@, "id_dsa"@]
}

/// The path that a home directory setting stands for. A missing setting
/// counts as the empty path, so that what is built on it is relative to the
/// working directory.
pub open spec fn home_base(home: Option<&str>) -> Seq<char> {
    match home {
        Some(dir) => dir@,
        None => Seq::empty(),
    }
}

/// The SSH directory under `home`.
pub open spec fn ssh_dir_under(home: Seq<char>) -> Seq<char> {
    joined(home, SSH_DIR_NAME@)
}

/// The full paths of the key files under `home`, in the order of their names.
pub open spec fn candidate_paths(home: Seq<char>) -> Seq<Seq<char>> {
    key_file_names().map_values(|name: Seq<char>| joined(ssh_dir_under(home), name))
}

/// Of the first `n` items, those whose flag is set, in their order.
pub open spec fn present_among<T>(items: Seq<T>, present: Seq<bool>, n: int) -> Seq<T>
    decreases n,
{
    if n <= 0 {
        Seq::empty()
    } else {
        let earlier = present_among(items, present, n - 1);
        if present[n - 1] {
            earlier.push(items[n - 1])
        } else {
            earlier
        }
    }
}

/// How many of the first `n` flags are set.
pub open spec fn count_present(present: Seq<bool>, n: int) -> int
    decreases n,
{
    if n <= 0 {
        0
    } else if present[n - 1] {
        count_present(present, n - 1) + 1
    } else {
        count_present(present, n - 1)
    }
}

/// The index of the item that takes place `k` among those selected from
/// the first `n`: its flag is set, and `k` flags are set before it. Where
/// fewer than `k + 1` flags are set there is no such item, and the result is
/// negative.
pub open spec fn source_of(present: Seq<bool>, n: int, k: int) -> int
    decreases n,
{
    if n <= 0 {
        -1
    } else if present[n - 1] && count_present(present, n - 1) == k {
        n - 1
    } else {
        source_of(present, n - 1, k)
    }
}

/// The key files reported for `home` when `present` tells, name by name,
/// which of the candidates exist.
pub open spec fn detected(home: Seq<char>, present: Seq<bool>) -> Seq<Seq<char>> {
    present_among(candidate_paths(home), present, KEY_FILE_COUNT as int)
}

/// The name of the key file at `index` in the order of lookup, if there is one.
pub fn key_file_name(index: usize) -> (name: Option<&'static str>)
    ensures
        name is Some <==> index < KEY_FILE_COUNT,
        name matches Some(n) ==> n@ == key_file_names()[index as int],
{
    match index {
        0 => Some("id_rsa"),
        1 => Some("id_ed25519"),
        2 => Some("id_ecdsa"),
        3 => Some("id_dsa"),
        _ => None,
    }
}

/// The SSH directory for a home directory setting.
pub fn ssh_dir(home: Option<&str>) -> (dir: String)
    ensures
        dir@ == ssh_dir_under(home_base(home)),
{
    match home {
        Some(base) => join(base, SSH_DIR_NAME),
        None => {
            proof {
                reveal_strlit("");
            }
            join("", SSH_DIR_NAME)
        },
    }
}

/// The paths whose existence decides what `detect_ssh_keys` reports: one per
/// key file name, in the order of lookup.
pub fn candidate_key_paths(home: Option<&str>) -> (paths: Vec<String>)
    ensures
        paths.deep_view() == candidate_paths(home_base(home)),
{
    let dir = ssh_dir(home);
    let mut paths: Vec<String> = Vec::new();
    let mut index: usize = 0;
    while index < KEY_FILE_COUNT
        invariant
            index <= KEY_FILE_COUNT,
            dir@ == ssh_dir_under(home_base(home)),
            paths.deep_view() =~= candidate_paths(home_base(home)).take(index as int),
        decreases KEY_FILE_COUNT - index,
    {
        let ghost earlier = paths.deep_view();
        if let Some(name) = key_file_name(index) {
            let path = join(dir.as_str(), name);
            let ghost added = path@;
            paths.push(path);
            assert(paths.deep_view() =~= earlier.push(added));
        }
        index += 1;
    }
    paths
}

/// Reports the key files of a user: the candidates under the SSH directory of
/// `home` whose flag in `present` is set, in the order of lookup.
pub fn detect_ssh_keys(home: Option<&str>, present: &[bool; KEY_FILE_COUNT]) -> (found: Vec<
    String,
>)
    ensures
        found.deep_view() == detected(home_base(home), present@),
        (forall|i: int| 0 <= i < KEY_FILE_COUNT ==> !present@[i]) ==> found@.len() == 0,
{
    let candidates = candidate_key_paths(home);
    assert(candidates@.len() == candidates.deep_view().len());
    let mut found: Vec<String> = Vec::new();
    let mut index: usize = 0;
    while index < KEY_FILE_COUNT
        invariant
            index <= KEY_FILE_COUNT,
            candidates@.len() == KEY_FILE_COUNT,
            candidates.deep_view() == candidate_paths(home_base(home)),
            found.deep_view() =~= present_among(
                candidate_paths(home_base(home)),
                present@,
                index as int,
            ),
        decreases KEY_FILE_COUNT - index,
    {
        let ghost earlier = found.deep_view();
        if present[index] {
            let path = candidates[index].clone();
            assert(path@ == candidates.deep_view()[index as int]);
            found.push(path);
            assert(found.deep_view() =~= earlier.push(candidates.deep_view()[index as int]));
        }
        index += 1;
    }
    proof {
        lemma_none_present(candidate_paths(home_base(home)), present@, KEY_FILE_COUNT as int);
    }
    found
}

/// Where no flag is set, nothing is reported.
pub proof fn lemma_none_present<T>(items: Seq<T>, present: Seq<bool>, n: int)
    ensures
        (forall|i: int| 0 <= i < n ==> !present[i]) ==> present_among(items, present, n).len() == 0,
    decreases n,
{
    if n > 0 {
        lemma_none_present(items, present, n - 1);
    }
}

/// Counting further flags never lowers the count, and passing a set flag
/// raises it.
pub proof fn lemma_count_present_grows(present: Seq<bool>, i: int, j: int)
    requires
        0 <= i <= j,
    ensures
        0 <= count_present(present, i) <= count_present(present, j),
        i < j && present[i] ==> count_present(present, i) < count_present(present, j),
    decreases j,
{
    if i < j {
        lemma_count_present_grows(present, i, j - 1);
    } else if j > 0 {
        lemma_count_present_grows(present, 0, j - 1);
    }
}

/// Where each item stands among those selected: as many are selected as
/// flags are set, an item whose flag is set stands behind exactly the
/// selected items before it, and every place is taken by such an item.
pub proof fn lemma_present_among_places<T>(items: Seq<T>, present: Seq<bool>, n: int)
    requires
        0 <= n,
    ensures
        present_among(items, present, n).len() == count_present(present, n),
        forall|i: int|
            0 <= i < n && present[i] ==> {
                &&& 0 <= #[trigger] count_present(present, i) < count_present(present, n)
                &&& present_among(items, present, n)[count_present(present, i)] == items[i]
            },
        forall|k: int|
            #![trigger source_of(present, n, k)]
            #![trigger present_among(items, present, n)[k]]
            0 <= k < count_present(present, n) ==> {
                &&& 0 <= source_of(present, n, k) < n
                &&& present[source_of(present, n, k)]
                &&& count_present(present, source_of(present, n, k)) == k
                &&& present_among(items, present, n)[k] == items[source_of(present, n, k)]
            },
    decreases n,
{
    if n > 0 {
        lemma_present_among_places(items, present, n - 1);
        lemma_count_present_grows(present, 0, n - 1);
        let selected = present_among(items, present, n);
        let earlier = present_among(items, present, n - 1);
        assert forall|i: int| 0 <= i < n && present[i] implies {
            &&& 0 <= #[trigger] count_present(present, i) < count_present(present, n)
            &&& selected[count_present(present, i)] == items[i]
        } by {
            lemma_count_present_grows(present, i, n);
            lemma_count_present_grows(present, 0, i);
        }
        assert forall|k: int|
            #![trigger source_of(present, n, k)]
            #![trigger selected[k]]
            0 <= k < count_present(present, n) implies {
            &&& 0 <= source_of(present, n, k) < n
            &&& present[source_of(present, n, k)]
            &&& count_present(present, source_of(present, n, k)) == k
            &&& selected[k] == items[source_of(present, n, k)]
        } by {
            if !(present[n - 1] && count_present(present, n - 1) == k) {
                assert(selected[k] == earlier[k]);
            }
        }
    }
}

/// The four key file names differ, and none of them is an absolute path.
pub proof fn lemma_key_file_names_differ()
    ensures
        key_file_names().len() == KEY_FILE_COUNT,
        forall|i: int| 0 <= i < KEY_FILE_COUNT ==> !absolute(#[trigger] key_file_names()[i]),
        forall|i: int, j: int|
            0 <= i < j < KEY_FILE_COUNT ==> #[trigger] key_file_names()[i]
                != #[trigger] key_file_names()[j],
{
    reveal_strlit("id_rsa");
    reveal_strlit("id_ed25519");
    reveal_strlit("id_ecdsa");
    reveal_strlit("id_dsa");
    let names = key_file_names();
    assert(names[0][3] != names[3][3]);
    assert(names[0].len() != names[1].len());
    assert(names[0].len() != names[2].len());
    assert(names[1].len() != names[2].len());
    assert(names[1].len() != names[3].len());
    assert(names[2].len() != names[3].len());
}

/// No two candidates under one home directory are the same path.
pub proof fn lemma_candidate_paths_differ(home: Seq<char>)
    ensures
        candidate_paths(home).len() == KEY_FILE_COUNT,
        forall|i: int, j: int|
            0 <= i < KEY_FILE_COUNT && 0 <= j < KEY_FILE_COUNT && i != j
                ==> #[trigger] candidate_paths(home)[i] != #[trigger] candidate_paths(home)[j],
{
    lemma_key_file_names_differ();
    let names = key_file_names();
    let dir = ssh_dir_under(home);
    assert forall|i: int, j: int|
        0 <= i < KEY_FILE_COUNT && 0 <= j < KEY_FILE_COUNT && i != j implies #[trigger] candidate_paths(
        home,
    )[i] != #[trigger] candidate_paths(home)[j] by {
        if i < j {
            assert(names[i] != names[j]);
        } else {
            assert(names[j] != names[i]);
        }
        if joined(dir, names[i]) == joined(dir, names[j]) {
            lemma_joined_injective(dir, names[i], names[j]);
        }
    }
}

/// What is reported is exactly what exists, in the order of lookup: a
/// candidate is reported if and only if its flag is set, nothing else is
/// reported, nothing is reported twice, and of two reported paths the one
/// looked up first comes first.
pub proof fn lemma_detected_exactly_present(home: Seq<char>, present: Seq<bool>)
    requires
        present.len() == KEY_FILE_COUNT,
    ensures
        forall|i: int|
            0 <= i < KEY_FILE_COUNT ==> (detected(home, present).contains(
                #[trigger] candidate_paths(home)[i],
            ) <==> present[i]),
        forall|k: int|
            0 <= k < detected(home, present).len() ==> candidate_paths(home).contains(
                #[trigger] detected(home, present)[k],
            ),
        detected(home, present).no_duplicates(),
        forall|k: int, l: int, i: int, j: int|
            0 <= k < l < detected(home, present).len() && 0 <= i < KEY_FILE_COUNT && 0 <= j
                < KEY_FILE_COUNT && #[trigger] detected(home, present)[k]
                == #[trigger] candidate_paths(home)[i] && #[trigger] detected(home, present)[l]
                == #[trigger] candidate_paths(home)[j] ==> i < j,
{
    let candidates = candidate_paths(home);
    let found = detected(home, present);
    let n = KEY_FILE_COUNT as int;
    lemma_candidate_paths_differ(home);
    lemma_present_among_places(candidates, present, n);
    assert forall|i: int| 0 <= i < n implies (found.contains(#[trigger] candidates[i])
        <==> present[i]) by {
        if present[i] {
            assert(found[count_present(present, i)] == candidates[i]);
        }
        if found.contains(candidates[i]) {
            let k = choose|k: int| 0 <= k < found.len() && found[k] == candidates[i];
            assert(candidates[source_of(present, n, k)] == candidates[i]);
        }
    }
    assert forall|k: int| 0 <= k < found.len() implies candidates.contains(
        #[trigger] found[k],
    ) by {
        assert(candidates[source_of(present, n, k)] == found[k]);
    }
    assert forall|k: int, l: int, i: int, j: int|
        0 <= k < l < found.len() && 0 <= i < n && 0 <= j < n && #[trigger] found[k]
            == #[trigger] candidates[i] && #[trigger] found[l]
            == #[trigger] candidates[j] implies i < j by {
        assert(candidates[source_of(present, n, k)] == candidates[i]);
        assert(candidates[source_of(present, n, l)] == candidates[j]);
        if j <= i {
            lemma_count_present_grows(present, j, i);
        }
    }
    assert forall|k: int, l: int|
        0 <= k < found.len() && 0 <= l < found.len() && k != l implies found[k] != found[l] by {
        assert(candidates[source_of(present, n, k)] != candidates[source_of(present, n, l)]);
    }
}

} // verus!
