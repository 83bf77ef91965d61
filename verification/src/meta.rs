//! The record store: the current snapshot of known application records,
//! together with the short-list parser that populates it wholesale and the
//! cached full-list output used for lazy hydration.

use vstd::prelude::*;

use crate::record::{extid_of, make_extid, FlatpakApp};
use crate::strutil::{
    contains_str, is_substring, lines_of, lines_vec, split_on, split_str, trim_end_spec,
    trim_end_str, views_of,
};

verus! {

/// Houses all application metadata for one process run.
#[derive(Clone)]
pub struct FlatpakMeta {
    /// information for all known apps
    pub apps: Vec<FlatpakApp>,
    /// output of the basic list invocation (four columns)
    pub list_small: String,
    /// cached output of the extended list invocation (six columns); the
    /// empty string means "not yet fetched"
    pub list_full: String,
}

impl Default for FlatpakMeta {
    /// An empty store with both list caches unfetched.
    fn default() -> (r: Self)
        ensures
            r.apps@.len() == 0,
            r.list_small@.len() == 0,
            r.list_full@.len() == 0,
    {
        FlatpakMeta { apps: Vec::new(), list_small: String::new(), list_full: String::new() }
    }
}

/// The four fields a well-formed short-list line carries.
pub struct ShortRec {
    pub id: Seq<char>,
    pub arch: Seq<char>,
    pub branch: Seq<char>,
    pub origin: Seq<char>,
}

/// The records described by short-list lines: one per line with exactly four
/// tab-separated columns; all other lines are dropped.
pub open spec fn short_records(ls: Seq<Seq<char>>) -> Seq<ShortRec>
    decreases ls.len(),
{
    if ls.len() == 0 {
        Seq::empty()
    } else {
        let rest = short_records(ls.drop_last());
        let cols = split_on(ls.last(), '\t');
        if cols.len() == 4 {
            rest.push(ShortRec { id: cols[0], arch: cols[1], branch: cols[2], origin: cols[3] })
        } else {
            rest
        }
    }
}

/// A freshly built record carries exactly a short-list line's four fields,
/// the extended identifier derived from them, and nothing else.
pub open spec fn models_short_rec(a: FlatpakApp, r: ShortRec) -> bool {
    &&& a.id@ == r.id
    &&& a.arch@ == r.arch
    &&& a.branch@ == r.branch
    &&& a.origin@ == r.origin
    &&& a.extid@ == extid_of(r.id, r.arch, r.branch)
    &&& a.name@.len() == 0
    &&& a.description@.len() == 0
    &&& a.version@.len() == 0
    &&& a.license@.len() == 0
    &&& a.collection@.len() == 0
    &&& a.installation@.len() == 0
    &&& a.install_size@.len() == 0
    &&& a.runtime@.len() == 0
    &&& a.sdk@.len() == 0
    &&& a.commit@.len() == 0
    &&& a.parent@.len() == 0
    &&& a.subject@.len() == 0
    &&& a.build_date@.len() == 0
    &&& a.install_date@.len() == 0
    &&& a.location@.len() == 0
    &&& a.url@.len() == 0
    &&& a.provides@.len() == 0
    &&& a.packager@.len() == 0
    &&& a.depends@.len() == 0
}

/// The store holds one record per well-formed line, in line order.
pub open spec fn models_short_records(apps: Seq<FlatpakApp>, recs: Seq<ShortRec>) -> bool {
    &&& apps.len() == recs.len()
    &&& forall|i: int| 0 <= i < recs.len() ==> models_short_rec(#[trigger] apps[i], recs[i])
}

impl FlatpakMeta {
    /// Rebuild the store from the raw output of the basic list invocation:
    /// one record per line with exactly four tab-separated columns
    /// (`id`, `arch`, `branch`, `origin`); every other line is silently
    /// dropped. The previous snapshot is replaced wholesale, and every
    /// record's extended identifier is `id/arch/branch`.
    pub fn get_apps(&mut self, list_output: String)
        ensures
            final(self).list_small@ == list_output@,
            final(self).list_full == old(self).list_full,
            models_short_records(final(self).apps@, short_records(lines_of(list_output@))),
    {
        let lines = lines_vec(list_output.as_str());
        let ghost lv = views_of(lines@);
        let mut apps: Vec<FlatpakApp> = Vec::new();
        let n = lines.len();
        let mut i: usize = 0;
        proof {
            assert(lv.take(0) =~= Seq::<Seq<char>>::empty());
        }
        while i < n
            invariant
                i <= n,
                n == lines@.len(),
                lv =~~= views_of(lines@),
                lv =~~= lines_of(list_output@),
                models_short_records(apps@, short_records(lv.take(i as int))),
            decreases n - i,
        {
            let cols = split_str(lines[i].as_str(), '\t');
            proof {
                assert(lines@[i as int]@ == lv[i as int]);
                assert(lv.take(i + 1).drop_last() =~= lv.take(i as int));
                assert(lv.take(i + 1).last() == lv[i as int]);
            }
            if cols.len() == 4 {
                let mut a = FlatpakApp::default();
                a.extid = make_extid(cols[0].as_str(), cols[1].as_str(), cols[2].as_str());
                a.id = cols[0].clone();
                a.arch = cols[1].clone();
                a.branch = cols[2].clone();
                a.origin = cols[3].clone();
                apps.push(a);
            }
            i += 1;
        }
        proof {
            assert(lv.take(n as int) =~= lv);
        }
        self.apps = apps;
        self.list_small = list_output;
    }
}

/// The full-list cache has not been fetched yet: the canonical lazy-
/// hydration sentinel.
pub open spec fn full_list_unfetched(m: FlatpakMeta) -> bool {
    m.list_full@.len() == 0
}

/// Law: hydration happens at most once per process. A store whose full-list
/// cache is non-empty never asks for another fetch, and any step that
/// preserves the cache (as every lookup does) keeps it that way.
pub proof fn lemma_full_list_fetched_once(m0: FlatpakMeta, m1: FlatpakMeta)
    requires
        m0.list_full@.len() > 0,
        m1.list_full == m0.list_full,
    ensures
        !full_list_unfetched(m0),
        !full_list_unfetched(m1),
{
}

/// How the full-list lookup for one record ended.
#[derive(Debug, Clone, Copy, PartialEq, Eq, Structural)]
pub enum LookupOutcome {
    /// A line matched and the record's name and version were populated.
    Updated,
    /// A line matched but held too few columns; the record is untouched.
    TooFewColumns,
    /// No line matched; the record is untouched.
    NotFound,
}

/// A full-list line matches a record when its three key values each occur
/// somewhere in the line. This is a deliberate heuristic, not an exact key
/// match: a record whose keys are substrings of another package's line can
/// match that line first, a documented ambiguity of the lookup.
pub open spec fn line_matches_keys(
    l: Seq<char>,
    id: Seq<char>,
    arch: Seq<char>,
    branch: Seq<char>,
) -> bool {
    is_substring(l, id) && is_substring(l, arch) && is_substring(l, branch)
}

/// Index of the first line matching all three keys, if any.
pub open spec fn first_match_line(
    ls: Seq<Seq<char>>,
    id: Seq<char>,
    arch: Seq<char>,
    branch: Seq<char>,
) -> Option<int>
    decreases ls.len(),
{
    if ls.len() == 0 {
        None
    } else if line_matches_keys(ls[0], id, arch, branch) {
        Some(0)
    } else {
        match first_match_line(ls.skip(1), id, arch, branch) {
            None => None,
            Some(i) => Some(i + 1),
        }
    }
}

/// `first_match_line` returns the first matching index, or `None` when no
/// line matches.
pub proof fn lemma_first_match_line(
    ls: Seq<Seq<char>>,
    id: Seq<char>,
    arch: Seq<char>,
    branch: Seq<char>,
)
    ensures
        match first_match_line(ls, id, arch, branch) {
            Some(i) => 0 <= i < ls.len() && line_matches_keys(ls[i], id, arch, branch) && (forall|
                j: int,
            | 0 <= j < i ==> !line_matches_keys(ls[j], id, arch, branch)),
            None => forall|j: int| 0 <= j < ls.len() ==> !line_matches_keys(ls[j], id, arch, branch),
        },
    decreases ls.len(),
{
    if ls.len() > 0 && !line_matches_keys(ls[0], id, arch, branch) {
        lemma_first_match_line(ls.skip(1), id, arch, branch);
        match first_match_line(ls.skip(1), id, arch, branch) {
            None => {
                assert forall|j: int| 0 <= j < ls.len() implies !line_matches_keys(
                    ls[j],
                    id,
                    arch,
                    branch,
                ) by {
                    if j > 0 {
                        assert(ls.skip(1)[j - 1] == ls[j]);
                    }
                }
            },
            Some(i) => {
                assert(ls.skip(1)[i] == ls[i + 1]);
                assert forall|j: int| 0 <= j < i + 1 implies !line_matches_keys(
                    ls[j],
                    id,
                    arch,
                    branch,
                ) by {
                    if j > 0 {
                        assert(ls.skip(1)[j - 1] == ls[j]);
                    }
                }
            },
        }
    }
}

/// A first matching line seen directly determines `first_match_line`.
pub proof fn lemma_first_match_line_is(
    ls: Seq<Seq<char>>,
    id: Seq<char>,
    arch: Seq<char>,
    branch: Seq<char>,
    i: int,
)
    requires
        0 <= i < ls.len(),
        line_matches_keys(ls[i], id, arch, branch),
        forall|j: int| 0 <= j < i ==> !line_matches_keys(ls[j], id, arch, branch),
    ensures
        first_match_line(ls, id, arch, branch) == Some(i),
{
    lemma_first_match_line(ls, id, arch, branch);
    match first_match_line(ls, id, arch, branch) {
        None => {
            assert(!line_matches_keys(ls[i], id, arch, branch));
        },
        Some(k) => {
            if k < i {
                assert(!line_matches_keys(ls[k], id, arch, branch));
            } else if k > i {
                assert(!line_matches_keys(ls[i], id, arch, branch));
            }
        },
    }
}

/// Absence of a match determines `first_match_line`.
pub proof fn lemma_first_match_line_none(
    ls: Seq<Seq<char>>,
    id: Seq<char>,
    arch: Seq<char>,
    branch: Seq<char>,
)
    requires
        forall|j: int| 0 <= j < ls.len() ==> !line_matches_keys(ls[j], id, arch, branch),
    ensures
        first_match_line(ls, id, arch, branch) is None,
{
    lemma_first_match_line(ls, id, arch, branch);
    if let Some(k) = first_match_line(ls, id, arch, branch) {
        lemma_first_match_line(ls, id, arch, branch);
        assert(!line_matches_keys(ls[k], id, arch, branch));
    }
}

/// The two records agree on every field but `name` and `version`.
pub open spec fn same_except_name_version(a: FlatpakApp, b: FlatpakApp) -> bool {
    &&& a.extid == b.extid
    &&& a.description == b.description
    &&& a.id == b.id
    &&& a.arch == b.arch
    &&& a.branch == b.branch
    &&& a.license == b.license
    &&& a.origin == b.origin
    &&& a.collection == b.collection
    &&& a.installation == b.installation
    &&& a.install_size == b.install_size
    &&& a.runtime == b.runtime
    &&& a.sdk == b.sdk
    &&& a.commit == b.commit
    &&& a.parent == b.parent
    &&& a.subject == b.subject
    &&& a.build_date == b.build_date
    &&& a.install_date == b.install_date
    &&& a.location == b.location
    &&& a.url == b.url
    &&& a.provides == b.provides
    &&& a.packager == b.packager
    &&& a.depends == b.depends
}

/// What one full-list lookup did to the store: the first line where the
/// record's `id`, `arch` and `branch` all occur as substrings supplies
/// `name` (column 0) and `version` (column 4, with an empty value normalized
/// to the `"?"` sentinel); no match, or a matching line with fewer than five
/// columns, leaves the record untouched.
pub open spec fn lookup_applied(
    m0: FlatpakMeta,
    idx: int,
    m1: FlatpakMeta,
    r: LookupOutcome,
) -> bool {
    let lines = lines_of(m0.list_full@);
    let a = m0.apps@[idx];
    match first_match_line(lines, a.id@, a.arch@, a.branch@) {
        None => r == LookupOutcome::NotFound && m1.apps@[idx] == a,
        Some(li) => {
            let cols = split_on(lines[li], '\t');
            if cols.len() >= 5 {
                &&& r == LookupOutcome::Updated
                &&& same_except_name_version(m1.apps@[idx], a)
                &&& m1.apps@[idx].name@ == cols[0]
                &&& m1.apps@[idx].version@ == (if cols[4].len() == 0 {
                    "?"@
                } else {
                    cols[4]
                })
            } else {
                r == LookupOutcome::TooFewColumns && m1.apps@[idx] == a
            }
        },
    }
}

impl FlatpakMeta {
    /// Whether the full-list output must be fetched before a lookup: true
    /// only until [`Self::set_full_list`] stores a non-empty output.
    pub fn needs_full_list(&self) -> (r: bool)
        ensures
            r == full_list_unfetched(*self),
    {
        self.list_full.as_str().is_empty()
    }

    /// Store the raw output of the extended list invocation. Done at most
    /// once per run: a non-empty cache is reused by every later lookup.
    pub fn set_full_list(&mut self, output: String)
        ensures
            final(self).list_full@ == output@,
            final(self).apps == old(self).apps,
            final(self).list_small == old(self).list_small,
    {
        self.list_full = output;
    }

    /// Populate one record's `name` and `version` from the cached full-list
    /// output (see [`lookup_applied`]). The cache must have been fetched;
    /// it is reused unchanged, never refetched.
    #[verifier::loop_isolation(false)]
    pub fn get_app_info(&mut self, idx: usize) -> (r: LookupOutcome)
        requires
            idx < old(self).apps@.len(),
            !full_list_unfetched(*old(self)),
        ensures
            final(self).list_small == old(self).list_small,
            final(self).list_full == old(self).list_full,
            final(self).apps@.len() == old(self).apps@.len(),
            forall|j: int|
                0 <= j < old(self).apps@.len() && j != idx ==> final(self).apps@[j] == old(
                    self,
                ).apps@[j],
            lookup_applied(*old(self), idx as int, *final(self), r),
    {
        let lines = lines_vec(self.list_full.as_str());
        let ghost lv = views_of(lines@);
        let n = lines.len();
        let mut li: usize = 0;
        while li < n
            invariant
                li <= n,
                *self == *old(self),
                forall|j: int|
                    0 <= j < li ==> !line_matches_keys(
                        lv[j],
                        old(self).apps@[idx as int].id@,
                        old(self).apps@[idx as int].arch@,
                        old(self).apps@[idx as int].branch@,
                    ),
            decreases n - li,
        {
            let line = lines[li].as_str();
            if contains_str(line, self.apps[idx].id.as_str()) && contains_str(
                line,
                self.apps[idx].arch.as_str(),
            ) && contains_str(line, self.apps[idx].branch.as_str()) {
                proof {
                    lemma_first_match_line_is(
                        lv,
                        old(self).apps@[idx as int].id@,
                        old(self).apps@[idx as int].arch@,
                        old(self).apps@[idx as int].branch@,
                        li as int,
                    );
                }
                let cols = split_str(line, '\t');
                if cols.len() >= 5 {
                    let mut a = self.apps[idx].duplicate();
                    a.name = cols[0].clone();
                    a.version = if cols[4].as_str().is_empty() {
                        String::from_str("?")
                    } else {
                        cols[4].clone()
                    };
                    self.apps[idx] = a;
                    return LookupOutcome::Updated;
                } else {
                    return LookupOutcome::TooFewColumns;
                }
            }
            li += 1;
        }
        proof {
            lemma_first_match_line_none(
                lv,
                old(self).apps@[idx as int].id@,
                old(self).apps@[idx as int].arch@,
                old(self).apps@[idx as int].branch@,
            );
        }
        LookupOutcome::NotFound
    }

    /// Whether a file listing or ownership check must fetch this record's
    /// install location first.
    pub fn needs_location(&self, idx: usize) -> (r: bool)
        requires
            idx < self.apps@.len(),
        ensures
            r == (self.apps@[idx as int].location@.len() == 0),
    {
        self.apps[idx].location.as_str().is_empty()
    }

    /// Store a record's install location from the raw output of the
    /// location invocation, trailing whitespace removed.
    pub fn get_location(&mut self, idx: usize, location_output: &str)
        requires
            idx < old(self).apps@.len(),
        ensures
            final(self).list_small == old(self).list_small,
            final(self).list_full == old(self).list_full,
            final(self).apps@.len() == old(self).apps@.len(),
            forall|j: int|
                0 <= j < old(self).apps@.len() && j != idx ==> final(self).apps@[j] == old(
                    self,
                ).apps@[j],
            final(self).apps@[idx as int].location@ == trim_end_spec(location_output@),
            same_except_location(final(self).apps@[idx as int], old(self).apps@[idx as int]),
    {
        let mut a = self.apps[idx].duplicate();
        a.location = trim_end_str(location_output);
        self.apps[idx] = a;
    }

    /// Store a record's dependency line from the raw output of the runtime
    /// listing invocation, trailing whitespace removed. Kept for
    /// compatibility with older callers; the detailed-info parser derives
    /// the same field itself.
    pub fn get_dependencies(&mut self, idx: usize, depends_output: &str)
        requires
            idx < old(self).apps@.len(),
        ensures
            final(self).list_small == old(self).list_small,
            final(self).list_full == old(self).list_full,
            final(self).apps@.len() == old(self).apps@.len(),
            forall|j: int|
                0 <= j < old(self).apps@.len() && j != idx ==> final(self).apps@[j] == old(
                    self,
                ).apps@[j],
            final(self).apps@[idx as int].depends@ == trim_end_spec(depends_output@),
            same_except_depends(final(self).apps@[idx as int], old(self).apps@[idx as int]),
    {
        let mut a = self.apps[idx].duplicate();
        a.depends = trim_end_str(depends_output);
        self.apps[idx] = a;
    }

    /// The flat file listing for one record: its install location followed
    /// by every path found under it, in the walker's order.
    pub fn get_app_files(&mut self, idx: usize, rec_files: Vec<String>) -> (r: Vec<String>)
        requires
            idx < old(self).apps@.len(),
        ensures
            *final(self) == *old(self),
            r@.len() == rec_files@.len() + 1,
            r@[0] == old(self).apps@[idx as int].location,
            forall|j: int| 0 <= j < rec_files@.len() ==> r@[j + 1] == rec_files@[j],
    {
        let mut out: Vec<String> = Vec::new();
        out.push(self.apps[idx].location.clone());
        let mut rest = rec_files;
        out.append(&mut rest);
        out
    }
}

/// The two records agree on every field but `location`.
pub open spec fn same_except_location(a: FlatpakApp, b: FlatpakApp) -> bool {
    &&& a.extid == b.extid
    &&& a.name == b.name
    &&& a.description == b.description
    &&& a.id == b.id
    &&& a.arch == b.arch
    &&& a.branch == b.branch
    &&& a.version == b.version
    &&& a.license == b.license
    &&& a.origin == b.origin
    &&& a.collection == b.collection
    &&& a.installation == b.installation
    &&& a.install_size == b.install_size
    &&& a.runtime == b.runtime
    &&& a.sdk == b.sdk
    &&& a.commit == b.commit
    &&& a.parent == b.parent
    &&& a.subject == b.subject
    &&& a.build_date == b.build_date
    &&& a.install_date == b.install_date
    &&& a.url == b.url
    &&& a.provides == b.provides
    &&& a.packager == b.packager
    &&& a.depends == b.depends
}

/// The two records agree on every field but `depends`.
pub open spec fn same_except_depends(a: FlatpakApp, b: FlatpakApp) -> bool {
    &&& a.extid == b.extid
    &&& a.name == b.name
    &&& a.description == b.description
    &&& a.id == b.id
    &&& a.arch == b.arch
    &&& a.branch == b.branch
    &&& a.version == b.version
    &&& a.license == b.license
    &&& a.origin == b.origin
    &&& a.collection == b.collection
    &&& a.installation == b.installation
    &&& a.install_size == b.install_size
    &&& a.runtime == b.runtime
    &&& a.sdk == b.sdk
    &&& a.commit == b.commit
    &&& a.parent == b.parent
    &&& a.subject == b.subject
    &&& a.build_date == b.build_date
    &&& a.install_date == b.install_date
    &&& a.location == b.location
    &&& a.url == b.url
    &&& a.provides == b.provides
    &&& a.packager == b.packager
}

} // verus!
