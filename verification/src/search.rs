//! The search engine: case-insensitive substring matching over record
//! fields, returning a sorted, duplicate-free set of store indices.

use vstd::prelude::*;

use crate::meta::FlatpakMeta;
use crate::record::FlatpakApp;
use crate::strutil::{contains_str, is_substring};
use crate::textops::{lower_of, lowercase};

verus! {

/// An empty term list, or one whose first entry is empty, means "no filter":
/// every record matches.
pub open spec fn no_filter(terms: Seq<&str>) -> bool {
    terms.len() == 0 || terms[0]@.len() == 0
}

/// One lowercased term occurs in the record's identifier or name.
pub open spec fn term_matches_basic(a: FlatpakApp, term: Seq<char>) -> bool {
    is_substring(lower_of(a.extid@), term) || is_substring(lower_of(a.name@), term)
}

/// Some term matches the record's identifier or name.
pub open spec fn app_matches_basic(a: FlatpakApp, terms: Seq<&str>) -> bool {
    exists|t: int| 0 <= t < terms.len() && term_matches_basic(a, lower_of(#[trigger] terms[t]@))
}

/// One lowercased term occurs in the record's identifier, name, description
/// or origin.
pub open spec fn term_matches_ext(a: FlatpakApp, term: Seq<char>) -> bool {
    ||| is_substring(lower_of(a.extid@), term)
    ||| is_substring(lower_of(a.name@), term)
    ||| is_substring(lower_of(a.description@), term)
    ||| is_substring(lower_of(a.origin@), term)
}

/// Some term matches the record's identifier, name, description or origin.
pub open spec fn app_matches_ext(a: FlatpakApp, terms: Seq<&str>) -> bool {
    exists|t: int| 0 <= t < terms.len() && term_matches_ext(a, lower_of(#[trigger] terms[t]@))
}

/// Pushing onto a sequence extends what it contains by the new element.
proof fn lemma_push_contains_all(s: Seq<usize>, x: usize)
    ensures
        forall|y: usize| #[trigger] s.push(x).contains(y) <==> (s.contains(y) || y == x),
{
    assert forall|y: usize| #[trigger] s.push(x).contains(y) implies (s.contains(y) || y == x) by {
        let i = choose|i: int| 0 <= i < s.push(x).len() && s.push(x)[i] == y;
        if i < s.len() {
            assert(s[i] == y);
        }
    }
    assert forall|y: usize| (s.contains(y) || y == x) implies #[trigger] s.push(x).contains(y) by {
        if s.contains(y) {
            let i = choose|i: int| 0 <= i < s.len() && s[i] == y;
            assert(s.push(x)[i] == y);
        } else {
            assert(s.push(x)[s.len() as int] == y);
        }
    }
}

/// Lowercase every search term once.
#[verifier::loop_isolation(false)]
fn lower_terms(input: &Vec<&str>) -> (r: Vec<String>)
    ensures
        r@.len() == input@.len(),
        forall|t: int| 0 <= t < input@.len() ==> #[trigger] r@[t]@ == lower_of(input@[t]@),
{
    let mut r: Vec<String> = Vec::new();
    let n = input.len();
    let mut t: usize = 0;
    while t < n
        invariant
            t <= n,
            r@.len() == t,
            forall|j: int| 0 <= j < t ==> #[trigger] r@[j]@ == lower_of(input@[j]@),
        decreases n - t,
    {
        r.push(lowercase(input[t]));
        t += 1;
    }
    r
}

/// Does some term occur in the record's lowercased identifier or name?
#[verifier::loop_isolation(false)]
fn matches_any_basic(a: &FlatpakApp, input: &Vec<&str>, lowered: &Vec<String>) -> (r: bool)
    requires
        lowered@.len() == input@.len(),
        forall|t: int| 0 <= t < input@.len() ==> #[trigger] lowered@[t]@ == lower_of(input@[t]@),
    ensures
        r == app_matches_basic(*a, input@),
{
    let lex = lowercase(a.extid.as_str());
    let lname = lowercase(a.name.as_str());
    let m = lowered.len();
    let mut t: usize = 0;
    while t < m
        invariant
            t <= m,
            forall|j: int| 0 <= j < t ==> !term_matches_basic(*a, lower_of(#[trigger] input@[j]@)),
        decreases m - t,
    {
        if contains_str(lex.as_str(), lowered[t].as_str()) || contains_str(
            lname.as_str(),
            lowered[t].as_str(),
        ) {
            return true;
        }
        t += 1;
    }
    false
}

/// Does some term occur in one of the four extended-search fields?
#[verifier::loop_isolation(false)]
fn matches_any_ext(a: &FlatpakApp, input: &Vec<&str>, lowered: &Vec<String>) -> (r: bool)
    requires
        lowered@.len() == input@.len(),
        forall|t: int| 0 <= t < input@.len() ==> #[trigger] lowered@[t]@ == lower_of(input@[t]@),
    ensures
        r == app_matches_ext(*a, input@),
{
    let lex = lowercase(a.extid.as_str());
    let lname = lowercase(a.name.as_str());
    let ldesc = lowercase(a.description.as_str());
    let lorigin = lowercase(a.origin.as_str());
    let m = lowered.len();
    let mut t: usize = 0;
    while t < m
        invariant
            t <= m,
            forall|j: int| 0 <= j < t ==> !term_matches_ext(*a, lower_of(#[trigger] input@[j]@)),
        decreases m - t,
    {
        if contains_str(lex.as_str(), lowered[t].as_str()) || contains_str(
            lname.as_str(),
            lowered[t].as_str(),
        ) || contains_str(ldesc.as_str(), lowered[t].as_str()) || contains_str(
            lorigin.as_str(),
            lowered[t].as_str(),
        ) {
            return true;
        }
        t += 1;
    }
    false
}

impl FlatpakMeta {
    /// Search the store for records whose identifier or name contains one of
    /// the given terms, case-insensitively. The result is the sorted,
    /// duplicate-free list of matching indices; an empty term list (or one
    /// whose first entry is empty) matches every record, so all indices come
    /// back in ascending order.
    #[verifier::loop_isolation(false)]
    pub fn search_apps(&mut self, input: &Vec<&str>) -> (r: Vec<usize>)
        ensures
            *final(self) == *old(self),
            forall|k1: int, k2: int| 0 <= k1 < k2 < r@.len() ==> r@[k1] < r@[k2],
            forall|k: int| 0 <= k < r@.len() ==> (#[trigger] r@[k]) < old(self).apps@.len(),
            no_filter(input@) ==> r@ =~= Seq::new(old(self).apps@.len(), |i: int| i as usize),
            !no_filter(input@) ==> forall|x: usize|
                #[trigger] r@.contains(x) <==> (x < old(self).apps@.len() && app_matches_basic(
                    old(self).apps@[x as int],
                    input@,
                )),
    {
        let mut out: Vec<usize> = Vec::new();
        let n = self.apps.len();
        if input.len() > 0 && !input[0].is_empty() {
            let lowered = lower_terms(input);
            let mut idx: usize = 0;
            while idx < n
                invariant
                    idx <= n,
                    forall|k1: int, k2: int| 0 <= k1 < k2 < out@.len() ==> out@[k1] < out@[k2],
                    forall|k: int| 0 <= k < out@.len() ==> (#[trigger] out@[k]) < idx,
                    forall|x: usize|
                        #[trigger] out@.contains(x) <==> (x < idx && app_matches_basic(
                            self.apps@[x as int],
                            input@,
                        )),
                decreases n - idx,
            {
                if matches_any_basic(&self.apps[idx], input, &lowered) {
                    proof {
                        lemma_push_contains_all(out@, idx);
                    }
                    out.push(idx);
                }
                idx += 1;
            }
        } else {
            let mut idx: usize = 0;
            while idx < n
                invariant
                    idx <= n,
                    out@.len() == idx,
                    forall|j: int| 0 <= j < idx ==> (#[trigger] out@[j]) == j as usize,
                decreases n - idx,
            {
                out.push(idx);
                idx += 1;
            }
            proof {
                assert(out@ =~= Seq::new(old(self).apps@.len(), |i: int| i as usize));
            }
        }
        out
    }

    /// Like [`Self::search_apps`], but the terms are also matched against
    /// each record's description and origin. Records missing those fields
    /// must be hydrated first (see [`Self::needs_full_info`]); this method
    /// itself performs no hydration.
    #[verifier::loop_isolation(false)]
    pub fn search_apps_desc(&mut self, input: &Vec<&str>) -> (r: Vec<usize>)
        ensures
            *final(self) == *old(self),
            forall|k1: int, k2: int| 0 <= k1 < k2 < r@.len() ==> r@[k1] < r@[k2],
            forall|k: int| 0 <= k < r@.len() ==> (#[trigger] r@[k]) < old(self).apps@.len(),
            no_filter(input@) ==> r@ =~= Seq::new(old(self).apps@.len(), |i: int| i as usize),
            !no_filter(input@) ==> forall|x: usize|
                #[trigger] r@.contains(x) <==> (x < old(self).apps@.len() && app_matches_ext(
                    old(self).apps@[x as int],
                    input@,
                )),
    {
        let mut out: Vec<usize> = Vec::new();
        let n = self.apps.len();
        if input.len() > 0 && !input[0].is_empty() {
            let lowered = lower_terms(input);
            let mut idx: usize = 0;
            while idx < n
                invariant
                    idx <= n,
                    forall|k1: int, k2: int| 0 <= k1 < k2 < out@.len() ==> out@[k1] < out@[k2],
                    forall|k: int| 0 <= k < out@.len() ==> (#[trigger] out@[k]) < idx,
                    forall|x: usize|
                        #[trigger] out@.contains(x) <==> (x < idx && app_matches_ext(
                            self.apps@[x as int],
                            input@,
                        )),
                decreases n - idx,
            {
                if matches_any_ext(&self.apps[idx], input, &lowered) {
                    proof {
                        lemma_push_contains_all(out@, idx);
                    }
                    out.push(idx);
                }
                idx += 1;
            }
        } else {
            let mut idx: usize = 0;
            while idx < n
                invariant
                    idx <= n,
                    out@.len() == idx,
                    forall|j: int| 0 <= j < idx ==> (#[trigger] out@[j]) == j as usize,
                decreases n - idx,
            {
                out.push(idx);
                idx += 1;
            }
            proof {
                assert(out@ =~= Seq::new(old(self).apps@.len(), |i: int| i as usize));
            }
        }
        out
    }

    /// Whether an extended search must hydrate this record first: its
    /// description, origin or branch has never been fetched.
    pub fn needs_full_info(&self, idx: usize) -> (r: bool)
        requires
            idx < self.apps@.len(),
        ensures
            r == (self.apps@[idx as int].description@.len() == 0 || self.apps@[
                idx as int
            ].origin@.len() == 0 || self.apps@[idx as int].branch@.len() == 0),
    {
        let a = &self.apps[idx];
        a.description.as_str().is_empty() || a.origin.as_str().is_empty()
            || a.branch.as_str().is_empty()
    }
}

} // verus!
