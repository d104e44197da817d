//! Path strings whose components are separated by `/`.
//!
//! A path is modelled as its sequence of characters. Joining follows the
//! convention of POSIX path handling: an absolute right-hand side replaces
//! the left-hand side, otherwise exactly one separator stands between the
//! two unless the left-hand side is empty or already ends in one.

use vstd::prelude::*;

verus! {

/// The character that separates the components of a path.
pub const SEPARATOR: char = '/';

/// A path is absolute when it starts at the root, that is with a separator.
pub open spec fn absolute(path: Seq<char>) -> bool {
    path.len() > 0 && path[0] == SEPARATOR
}

/// Whether a separator has to be written after `base` before a further
/// component can follow: `base` is not empty and does not end in one.
pub open spec fn wants_separator(base: Seq<char>) -> bool {
    base.len() > 0 && base.last() != SEPARATOR
}

/// `base` extended by `name`.
pub open spec fn joined(base: Seq<char>, name: Seq<char>) -> Seq<char> {
    if absolute(name) {
        name
    } else if wants_separator(base) {
        base.push(SEPARATOR) + name
    } else {
        base + name
    }
}

/// A single component: a run of characters that holds no separator.
pub open spec fn is_component(name: Seq<char>) -> bool {
    forall|i: int| 0 <= i < name.len() ==> name[i] != SEPARATOR
}

/// What follows the last separator of `path`; all of `path` if it has none.
pub open spec fn final_component(path: Seq<char>) -> Seq<char>
    decreases path.len(),
{
    if path.len() == 0 || path.last() == SEPARATOR {
        Seq::empty()
    } else {
        final_component(path.drop_last()).push(path.last())
    }
}

/// Decides whether `path` is absolute.
pub fn is_absolute(path: &str) -> (r: bool)
    ensures
        r == absolute(path@),
{
    !path.is_empty() && path.get_char(0) == SEPARATOR
}

/// Decides whether `base` must be followed by a separator before a further
/// component is appended.
pub fn needs_separator(base: &str) -> (r: bool)
    ensures
        r == wants_separator(base@),
{
    let len: usize = base.unicode_len();
    len > 0 && base.get_char(len - 1) != SEPARATOR
}

/// Extends `base` by `name`.
pub fn join(base: &str, name: &str) -> (path: String)
    ensures
        path@ == joined(base@, name@),
{
    if is_absolute(name) {
        return name.to_owned();
    }
    let mut path = base.to_owned();
    if needs_separator(base) {
        proof {
            reveal_strlit("/");
        }
        path.append("/");
        assert(path@ =~= base@.push(SEPARATOR));
    }
    path.append(name);
    path
}

/// A component without separators comes out unchanged as the final
/// component of every path it is appended to.
pub proof fn lemma_final_component_of_joined(base: Seq<char>, name: Seq<char>)
    requires
        is_component(name),
    ensures
        final_component(joined(base, name)) == name,
    decreases name.len(),
{
    let path = joined(base, name);
    if name.len() == 0 {
        assert(path =~= if wants_separator(base) { base.push(SEPARATOR) } else { base });
    } else {
        let shorter = name.drop_last();
        lemma_final_component_of_joined(base, shorter);
        assert(path.drop_last() =~= joined(base, shorter));
        assert(path.last() == name.last());
        assert(name =~= shorter.push(name.last()));
    }
}

/// Joining onto one base keeps different relative names apart.
pub proof fn lemma_joined_injective(base: Seq<char>, first: Seq<char>, second: Seq<char>)
    requires
        !absolute(first),
        !absolute(second),
        joined(base, first) == joined(base, second),
    ensures
        first == second,
{
    let prefix = if wants_separator(base) { base.push(SEPARATOR) } else { base };
    assert(joined(base, first) == prefix + first);
    assert(joined(base, second) == prefix + second);
    assert(first.len() == second.len());
    assert forall|i: int| 0 <= i < first.len() implies first[i] == second[i] by {
        assert((prefix + first)[prefix.len() + i] == first[i]);
        assert((prefix + second)[prefix.len() + i] == second[i]);
    }
    assert(first =~= second);
}

} // verus!
