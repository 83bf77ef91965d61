//! The file-ownership query: which record's install location contains a
//! given target path. Both sides are canonical absolute paths, handed in by
//! the caller as plain strings.

use vstd::prelude::*;

use crate::strutil::{str_eq, views_of};

verus! {

/// A canonical absolute path `base` owns `target` when the two are equal,
/// or `target` continues `base` at a component boundary. The filesystem
/// root owns every absolute path.
pub open spec fn path_owns(base: Seq<char>, target: Seq<char>) -> bool {
    if base == "/"@ {
        target.len() >= 1 && target[0] == '/'
    } else {
        target == base || (target.len() > base.len() && target.take(base.len() as int) == base
            && target[base.len() as int] == '/')
    }
}

/// Does `base` own `target`? (see [`path_owns`])
pub fn path_owns_exec(base: &str, target: &str) -> (r: bool)
    ensures
        r == path_owns(base@, target@),
{
    if str_eq(base, "/") {
        return target.unicode_len() >= 1 && target.get_char(0) == '/';
    }
    if str_eq(base, target) {
        return true;
    }
    let bl = base.unicode_len();
    let tl = target.unicode_len();
    if tl > bl {
        let prefix = target.substring_char(0, bl);
        proof {
            assert(target@.subrange(0, bl as int) =~= target@.take(bl as int));
        }
        str_eq(prefix, base) && target.get_char(bl) == '/'
    } else {
        false
    }
}

/// Index of the first location owning the target, if any.
pub open spec fn first_owner(locs: Seq<Seq<char>>, target: Seq<char>) -> Option<int>
    decreases locs.len(),
{
    if locs.len() == 0 {
        None
    } else if path_owns(locs[0], target) {
        Some(0)
    } else {
        match first_owner(locs.skip(1), target) {
            None => None,
            Some(i) => Some(i + 1),
        }
    }
}

/// `first_owner` returns the first owning index, or `None` when no location
/// owns the target.
pub proof fn lemma_first_owner(locs: Seq<Seq<char>>, target: Seq<char>)
    ensures
        match first_owner(locs, target) {
            Some(i) => 0 <= i < locs.len() && path_owns(locs[i], target) && (forall|j: int|
                0 <= j < i ==> !path_owns(locs[j], target)),
            None => forall|j: int| 0 <= j < locs.len() ==> !path_owns(locs[j], target),
        },
    decreases locs.len(),
{
    if locs.len() > 0 && !path_owns(locs[0], target) {
        lemma_first_owner(locs.skip(1), target);
        match first_owner(locs.skip(1), target) {
            None => {
                assert forall|j: int| 0 <= j < locs.len() implies !path_owns(locs[j], target) by {
                    if j > 0 {
                        assert(locs.skip(1)[j - 1] == locs[j]);
                    }
                }
            },
            Some(i) => {
                assert(locs.skip(1)[i] == locs[i + 1]);
                assert forall|j: int| 0 <= j < i + 1 implies !path_owns(locs[j], target) by {
                    if j > 0 {
                        assert(locs.skip(1)[j - 1] == locs[j]);
                    }
                }
            },
        }
    }
}

/// Find the record owning the target file: the first index whose canonical
/// install location contains the canonical target path, or `None` when no
/// location does.
#[verifier::loop_isolation(false)]
pub fn is_owned_by(locations: &Vec<String>, target: &str) -> (r: Option<usize>)
    ensures
        r is Some ==> first_owner(views_of(locations@), target@) == Some(r->0 as int),
        r is None ==> first_owner(views_of(locations@), target@) is None,
{
    let n = locations.len();
    let ghost lv = views_of(locations@);
    let mut i: usize = 0;
    while i < n
        invariant
            i <= n,
            forall|j: int| 0 <= j < i ==> !path_owns(lv[j], target@),
        decreases n - i,
    {
        if path_owns_exec(locations[i].as_str(), target) {
            proof {
                lemma_first_owner_is(lv, target@, i as int);
            }
            return Some(i);
        }
        i += 1;
    }
    proof {
        lemma_first_owner(lv, target@);
        if let Some(k) = first_owner(lv, target@) {
            assert(!path_owns(lv[k], target@));
        }
    }
    None
}

/// A first owning location seen directly determines `first_owner`.
pub proof fn lemma_first_owner_is(locs: Seq<Seq<char>>, target: Seq<char>, i: int)
    requires
        0 <= i < locs.len(),
        path_owns(locs[i], target),
        forall|j: int| 0 <= j < i ==> !path_owns(locs[j], target),
    ensures
        first_owner(locs, target) == Some(i),
{
    lemma_first_owner(locs, target);
    match first_owner(locs, target) {
        None => {
            assert(!path_owns(locs[i], target));
        },
        Some(k) => {
            if k < i {
                assert(!path_owns(locs[k], target));
            } else if k > i {
                assert(!path_owns(locs[i], target));
            }
        },
    }
}

} // verus!
