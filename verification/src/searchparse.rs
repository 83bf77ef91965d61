//! The search-result parser: seven tab-separated columns per line from a
//! remote-catalogue search, a sentinel line for "no matches", and
//! diagnostics for malformed lines.

use vstd::prelude::*;

use crate::meta::FlatpakMeta;
use crate::record::{extid_of, make_extid, FlatpakApp};
use crate::strutil::{lines_of, lines_vec, split_on, split_str, str_eq, views_of};

verus! {

/// The six fields a well-formed search-result line supplies (its seventh
/// column repeats the identifier and is ignored).
pub struct SearchRec {
    pub name: Seq<char>,
    pub id: Seq<char>,
    pub branch: Seq<char>,
    pub version: Seq<char>,
    pub origin: Seq<char>,
    pub description: Seq<char>,
}

/// The transient records described by search-result lines: one per line
/// with exactly seven tab-separated columns.
pub open spec fn search_records(ls: Seq<Seq<char>>) -> Seq<SearchRec>
    decreases ls.len(),
{
    if ls.len() == 0 {
        Seq::empty()
    } else {
        let rest = search_records(ls.drop_last());
        let cols = split_on(ls.last(), '\t');
        if cols.len() == 7 {
            rest.push(
                SearchRec {
                    name: cols[0],
                    id: cols[1],
                    branch: cols[2],
                    version: cols[3],
                    origin: cols[4],
                    description: cols[5],
                },
            )
        } else {
            rest
        }
    }
}

/// The lines a parse reports as malformed: those without exactly seven
/// columns.
pub open spec fn malformed_lines(ls: Seq<Seq<char>>) -> Seq<Seq<char>>
    decreases ls.len(),
{
    if ls.len() == 0 {
        Seq::empty()
    } else {
        let rest = malformed_lines(ls.drop_last());
        if split_on(ls.last(), '\t').len() == 7 {
            rest
        } else {
            rest.push(ls.last())
        }
    }
}

/// A transient search record carries exactly a result line's six fields and
/// the extended identifier derived with the architecture still unknown.
pub open spec fn models_search_rec(a: FlatpakApp, r: SearchRec) -> bool {
    &&& a.name@ == r.name
    &&& a.id@ == r.id
    &&& a.branch@ == r.branch
    &&& a.version@ == r.version
    &&& a.origin@ == r.origin
    &&& a.description@ == r.description
    &&& a.extid@ == extid_of(r.id, ""@, r.branch)
    &&& a.arch@.len() == 0
    &&& a.license@.len() == 0
    &&& a.collection@.len() == 0
    &&& a.installation@.len() == 0
    &&& a.install_size@.len() == 0
    &&& a.runtime@.len() == 0
    &&& a.sdk@.len() == 0
    &&& a.commit@.len() == 0
    &&& a.parent@.len() == 0
    &&& a.subject@.len() == 0
    &&& a.build_date@.len() == 0
    &&& a.install_date@.len() == 0
    &&& a.location@.len() == 0
    &&& a.url@.len() == 0
    &&& a.provides@.len() == 0
    &&& a.packager@.len() == 0
    &&& a.depends@.len() == 0
}

/// One transient record per well-formed line, in line order.
pub open spec fn models_search_records(apps: Seq<FlatpakApp>, recs: Seq<SearchRec>) -> bool {
    &&& apps.len() == recs.len()
    &&& forall|i: int| 0 <= i < recs.len() ==> models_search_rec(#[trigger] apps[i], recs[i])
}

impl FlatpakMeta {
    /// Parse the raw output of a remote-catalogue search into transient
    /// records (never inserted into the store). The distinguished
    /// single-line output `No matches found` means no matches and yields an
    /// empty result without error; any other output is read line by line —
    /// a line with exactly seven tab-separated columns becomes a record,
    /// and every other line is returned for diagnostics without aborting
    /// the parse.
    #[verifier::loop_isolation(false)]
    pub fn search(&self, search_output: &str) -> (r: (Vec<FlatpakApp>, Vec<String>))
        ensures
            search_output@ == "No matches found\n"@ ==> r.0@.len() == 0 && r.1@.len() == 0,
            search_output@ != "No matches found\n"@ ==> ({
                let ls = lines_of(search_output@);
                &&& models_search_records(r.0@, search_records(ls))
                &&& views_of(r.1@) =~~= malformed_lines(ls)
            }),
    {
        let mut results: Vec<FlatpakApp> = Vec::new();
        let mut skipped: Vec<String> = Vec::new();
        if str_eq(search_output, "No matches found\n") {
            return (results, skipped);
        }
        let lines = lines_vec(search_output);
        let ghost lv = views_of(lines@);
        let n = lines.len();
        let mut i: usize = 0;
        proof {
            assert(lv.take(0) =~= Seq::<Seq<char>>::empty());
        }
        while i < n
            invariant
                i <= n,
                n == lines@.len(),
                models_search_records(results@, search_records(lv.take(i as int))),
                views_of(skipped@) =~~= malformed_lines(lv.take(i as int)),
            decreases n - i,
        {
            let cols = split_str(lines[i].as_str(), '\t');
            proof {
                assert(lines@[i as int]@ == lv[i as int]);
                assert(lv.take(i + 1).drop_last() =~= lv.take(i as int));
                assert(lv.take(i + 1).last() == lv[i as int]);
            }
            if cols.len() == 7 {
                let mut a = FlatpakApp::default();
                a.extid = make_extid(cols[1].as_str(), "", cols[2].as_str());
                a.name = cols[0].clone();
                a.id = cols[1].clone();
                a.branch = cols[2].clone();
                a.version = cols[3].clone();
                a.origin = cols[4].clone();
                a.description = cols[5].clone();
                results.push(a);
            } else {
                let line = lines[i].clone();
                proof {
                    assert(views_of(skipped@.push(line)) =~~= views_of(skipped@) + seq![line@]);
                }
                skipped.push(line);
            }
            i += 1;
        }
        proof {
            assert(lv.take(n as int) =~= lv);
        }
        (results, skipped)
    }
}

} // verus!
