//! The detailed-info parser: a two-state line machine that reads the
//! free-text block of a per-package "show info" invocation into a record.
//!
//! In the field-reading state, a line with a colon is split at the first
//! colon into a trimmed key and value, and a fixed table maps known keys to
//! record fields; unknown keys are ignored. A line without a colon but with
//! a dash, while name and description are still unset, starts the
//! description: the machine switches to the continuation state, where every
//! non-blank line is appended to the description under a fixed indentation
//! and a blank line switches back.

use vstd::prelude::*;

use crate::datefmt::{display_date_of, reformat_build_date};
use crate::meta::FlatpakMeta;
use crate::record::FlatpakApp;
use crate::strutil::{
    find_char, find_char_spec, lemma_find_char, lines_of, lines_vec, str_eq, trim_spec, trim_str,
    views_of,
};

verus! {

/// The parser's accumulator: the record fields the info block can write,
/// plus the state flag for description continuations.
#[verifier::ext_equal]
pub struct InfoAcc {
    pub id: Seq<char>,
    pub arch: Seq<char>,
    pub branch: Seq<char>,
    pub version: Seq<char>,
    pub license: Seq<char>,
    pub origin: Seq<char>,
    pub collection: Seq<char>,
    pub installation: Seq<char>,
    pub install_size: Seq<char>,
    pub runtime: Seq<char>,
    pub sdk: Seq<char>,
    pub commit: Seq<char>,
    pub parent: Seq<char>,
    pub subject: Seq<char>,
    pub build_date: Seq<char>,
    pub name: Seq<char>,
    pub description: Seq<char>,
    pub depends: Seq<char>,
    pub desc_read: bool,
}

/// The accumulator a record currently embodies.
pub open spec fn acc_of(a: FlatpakApp, desc_read: bool) -> InfoAcc {
    InfoAcc {
        id: a.id@,
        arch: a.arch@,
        branch: a.branch@,
        version: a.version@,
        license: a.license@,
        origin: a.origin@,
        collection: a.collection@,
        installation: a.installation@,
        install_size: a.install_size@,
        runtime: a.runtime@,
        sdk: a.sdk@,
        commit: a.commit@,
        parent: a.parent@,
        subject: a.subject@,
        build_date: a.build_date@,
        name: a.name@,
        description: a.description@,
        depends: a.depends@,
        desc_read,
    }
}

/// Where parsing starts: the record as it stands, the dependency line reset
/// to the constant prefix, the machine in the field-reading state.
pub open spec fn info_init(a: FlatpakApp) -> InfoAcc {
    InfoAcc { depends: "flatpak "@, ..acc_of(a, false) }
}

/// The fixed key table: what one `key: value` line writes. A `Runtime`
/// value additionally extends the dependency line; a `Date` value is stored
/// in its display form; unknown keys change nothing.
pub open spec fn apply_key(acc: InfoAcc, key: Seq<char>, value: Seq<char>) -> InfoAcc {
    if key == "ID"@ {
        InfoAcc { id: value, ..acc }
    } else if key == "Arch"@ {
        InfoAcc { arch: value, ..acc }
    } else if key == "Branch"@ {
        InfoAcc { branch: value, ..acc }
    } else if key == "Version"@ {
        InfoAcc { version: value, ..acc }
    } else if key == "License"@ {
        InfoAcc { license: value, ..acc }
    } else if key == "Origin"@ {
        InfoAcc { origin: value, ..acc }
    } else if key == "Collection"@ {
        InfoAcc { collection: value, ..acc }
    } else if key == "Installation"@ {
        InfoAcc { installation: value, ..acc }
    } else if key == "Installed"@ {
        InfoAcc { install_size: value, ..acc }
    } else if key == "Runtime"@ {
        InfoAcc {
            runtime: value,
            depends: if value.len() > 0 {
                acc.depends + value
            } else {
                acc.depends
            },
            ..acc
        }
    } else if key == "Sdk"@ {
        InfoAcc { sdk: value, ..acc }
    } else if key == "Commit"@ {
        InfoAcc { commit: value, ..acc }
    } else if key == "Parent"@ {
        InfoAcc { parent: value, ..acc }
    } else if key == "Subject"@ {
        InfoAcc { subject: value, ..acc }
    } else if key == "Date"@ {
        InfoAcc { build_date: display_date_of(value), ..acc }
    } else {
        acc
    }
}

/// One line of the state machine.
pub open spec fn info_step(acc: InfoAcc, line: Seq<char>) -> InfoAcc {
    if acc.desc_read {
        if line.len() == 0 {
            InfoAcc { desc_read: false, ..acc }
        } else {
            InfoAcc { description: acc.description + "\n"@ + "\t\t  "@ + trim_spec(line), ..acc }
        }
    } else {
        match find_char_spec(line, ':') {
            Some(ci) => apply_key(acc, trim_spec(line.take(ci)), trim_spec(line.skip(ci + 1))),
            None => match find_char_spec(line, '-') {
                Some(di) => if acc.name.len() == 0 && acc.description.len() == 0 {
                    InfoAcc {
                        name: trim_spec(line.take(di)),
                        description: trim_spec(line.skip(di + 1)),
                        desc_read: true,
                        ..acc
                    }
                } else {
                    acc
                },
                None => acc,
            },
        }
    }
}

/// The whole block, line by line.
pub open spec fn info_run(acc: InfoAcc, lines: Seq<Seq<char>>) -> InfoAcc
    decreases lines.len(),
{
    if lines.len() == 0 {
        acc
    } else {
        info_step(info_run(acc, lines.drop_last()), lines.last())
    }
}

/// Post-processing: a version or license still empty after the block
/// becomes the `"?"` sentinel.
pub open spec fn info_post(acc: InfoAcc) -> InfoAcc {
    InfoAcc {
        version: if acc.version.len() == 0 {
            "?"@
        } else {
            acc.version
        },
        license: if acc.license.len() == 0 {
            "?"@
        } else {
            acc.license
        },
        ..acc
    }
}

/// Law: a record whose version is empty after the block is post-processed
/// to exactly the `"?"` sentinel, and likewise its license.
pub proof fn lemma_empty_version_post(acc: InfoAcc)
    ensures
        acc.version.len() == 0 ==> info_post(acc).version == "?"@,
        acc.version.len() > 0 ==> info_post(acc).version == acc.version,
        acc.license.len() == 0 ==> info_post(acc).license == "?"@,
        acc.license.len() > 0 ==> info_post(acc).license == acc.license,
{
}

/// The record embodies the accumulator.
pub open spec fn record_has_info(a: FlatpakApp, acc: InfoAcc) -> bool {
    acc_of(a, acc.desc_read) == acc
}

/// A description base with each continuation line appended on a new line
/// under the fixed indentation.
pub open spec fn desc_join(base: Seq<char>, conts: Seq<Seq<char>>) -> Seq<char>
    decreases conts.len(),
{
    if conts.len() == 0 {
        base
    } else {
        desc_join(base, conts.drop_last()) + "\n"@ + "\t\t  "@ + trim_spec(conts.last())
    }
}

/// Running a block of lines is running its two halves in order.
proof fn lemma_info_run_append(acc: InfoAcc, s: Seq<Seq<char>>, t: Seq<Seq<char>>)
    ensures
        info_run(acc, s + t) == info_run(info_run(acc, s), t),
    decreases t.len(),
{
    if t.len() == 0 {
        assert(s + t =~= s);
    } else {
        lemma_info_run_append(acc, s, t.drop_last());
        assert((s + t).drop_last() =~= s + t.drop_last());
        assert((s + t).last() == t.last());
    }
}

/// In the continuation state, non-blank lines only join the description.
proof fn lemma_run_continuations(acc: InfoAcc, conts: Seq<Seq<char>>)
    requires
        acc.desc_read,
        forall|j: int| 0 <= j < conts.len() ==> #[trigger] conts[j].len() > 0,
    ensures
        info_run(acc, conts) == (InfoAcc {
            description: desc_join(acc.description, conts),
            ..acc
        }),
    decreases conts.len(),
{
    if conts.len() == 0 {
        assert(InfoAcc { description: acc.description, ..acc } =~= acc);
    } else {
        lemma_run_continuations(acc, conts.drop_last());
        assert(conts.drop_last().len() < conts.len());
        let before = info_run(acc, conts.drop_last());
        assert(conts.last().len() > 0);
        assert(info_step(before, conts.last()) =~= InfoAcc {
            description: desc_join(acc.description, conts),
            ..acc
        });
    }
}

/// Once the machine is back in the field-reading state with a name or a
/// description in hand, no later line of the block changes the name, the
/// description, or the state.
proof fn lemma_run_keeps_description(acc: InfoAcc, rest: Seq<Seq<char>>)
    requires
        !acc.desc_read,
        acc.name.len() > 0 || acc.description.len() > 0,
    ensures
        info_run(acc, rest).description == acc.description,
        info_run(acc, rest).name == acc.name,
        !info_run(acc, rest).desc_read,
    decreases rest.len(),
{
    if rest.len() > 0 {
        lemma_run_keeps_description(acc, rest.drop_last());
    }
}

/// Law: in a block where a dash line opens the name and description, the
/// following non-blank lines each extend the description on a new line
/// under the fixed indentation, the first blank line terminates it, and
/// nothing after that blank line changes it. `di` is the position of the
/// first dash in the opening line, whose left part must trim to a
/// non-empty name.
pub proof fn lemma_description_continuations(
    acc: InfoAcc,
    nl: Seq<char>,
    di: int,
    conts: Seq<Seq<char>>,
    rest: Seq<Seq<char>>,
)
    requires
        !acc.desc_read,
        acc.name.len() == 0,
        acc.description.len() == 0,
        find_char_spec(nl, ':') is None,
        find_char_spec(nl, '-') == Some(di),
        trim_spec(nl.take(di)).len() > 0,
        forall|j: int| 0 <= j < conts.len() ==> #[trigger] conts[j].len() > 0,
    ensures
        ({
            let run = info_run(acc, seq![nl] + conts + seq![Seq::<char>::empty()] + rest);
            &&& run.name == trim_spec(nl.take(di))
            &&& run.description == desc_join(trim_spec(nl.skip(di + 1)), conts)
            &&& !run.desc_read
        }),
{
    let opened = info_step(acc, nl);
    assert(seq![nl].drop_last() =~= Seq::<Seq<char>>::empty());
    assert(seq![nl].last() == nl);
    assert(info_run(acc, Seq::<Seq<char>>::empty()) == acc);
    assert(info_run(acc, seq![nl]) == opened);
    lemma_info_run_append(acc, seq![nl], conts);
    assert(opened.desc_read);
    lemma_run_continuations(opened, conts);
    let joined = info_run(opened, conts);
    lemma_info_run_append(acc, seq![nl] + conts, seq![Seq::<char>::empty()]);
    assert(seq![Seq::<char>::empty()].drop_last() =~= Seq::<Seq<char>>::empty());
    assert(seq![Seq::<char>::empty()].last() == Seq::<char>::empty());
    assert(info_run(joined, Seq::<Seq<char>>::empty()) == joined);
    let closed = info_run(joined, seq![Seq::<char>::empty()]);
    assert(closed == info_step(joined, Seq::<char>::empty()));
    lemma_info_run_append(acc, seq![nl] + conts + seq![Seq::<char>::empty()], rest);
    assert(closed.name == trim_spec(nl.take(di)));
    lemma_run_keeps_description(closed, rest);
    assert(seq![nl] + conts + seq![Seq::<char>::empty()] + rest =~~= (seq![nl] + conts + seq![
        Seq::<char>::empty(),
    ]) + rest);
}

/// Apply one `key: value` line to the record (see [`apply_key`]).
fn apply_key_exec(a: &mut FlatpakApp, key: &str, value: &str)
    ensures
        acc_of(*final(a), false) == apply_key(acc_of(*old(a), false), key@, value@),
        final(a).extid == old(a).extid,
        final(a).install_date == old(a).install_date,
        final(a).location == old(a).location,
        final(a).url == old(a).url,
        final(a).provides == old(a).provides,
        final(a).packager == old(a).packager,
{
    if str_eq(key, "ID") {
        a.id = String::from_str(value);
    } else if str_eq(key, "Arch") {
        a.arch = String::from_str(value);
    } else if str_eq(key, "Branch") {
        a.branch = String::from_str(value);
    } else if str_eq(key, "Version") {
        a.version = String::from_str(value);
    } else if str_eq(key, "License") {
        a.license = String::from_str(value);
    } else if str_eq(key, "Origin") {
        a.origin = String::from_str(value);
    } else if str_eq(key, "Collection") {
        a.collection = String::from_str(value);
    } else if str_eq(key, "Installation") {
        a.installation = String::from_str(value);
    } else if str_eq(key, "Installed") {
        a.install_size = String::from_str(value);
    } else if str_eq(key, "Runtime") {
        a.runtime = String::from_str(value);
        if !value.is_empty() {
            a.depends.append(value);
        }
    } else if str_eq(key, "Sdk") {
        a.sdk = String::from_str(value);
    } else if str_eq(key, "Commit") {
        a.commit = String::from_str(value);
    } else if str_eq(key, "Parent") {
        a.parent = String::from_str(value);
    } else if str_eq(key, "Subject") {
        a.subject = String::from_str(value);
    } else if str_eq(key, "Date") {
        a.build_date = reformat_build_date(value);
    }
}

/// Run one line of the state machine on the record; the result is the new
/// continuation flag.
fn info_step_exec(a: &mut FlatpakApp, desc_read: bool, line: &str) -> (r: bool)
    ensures
        acc_of(*final(a), r) == info_step(acc_of(*old(a), desc_read), line@),
        final(a).extid == old(a).extid,
        final(a).install_date == old(a).install_date,
        final(a).location == old(a).location,
        final(a).url == old(a).url,
        final(a).provides == old(a).provides,
        final(a).packager == old(a).packager,
{
    if desc_read {
        if line.is_empty() {
            return false;
        }
        let t = trim_str(line);
        a.description.append("\n");
        a.description.append("\t\t  ");
        a.description.append(t.as_str());
        return true;
    }
    match find_char(line, ':') {
        Some(ci) => {
            proof {
                lemma_find_char(line@, ':');
            }
            let n = line.unicode_len();
            let key = trim_str(line.substring_char(0, ci));
            let value = trim_str(line.substring_char(ci + 1, n));
            proof {
                assert(line@.subrange(0, ci as int) =~= line@.take(ci as int));
                assert(line@.subrange(ci + 1, n as int) =~= line@.skip(ci + 1));
            }
            apply_key_exec(a, key.as_str(), value.as_str());
            false
        },
        None => {
            match find_char(line, '-') {
                Some(di) => {
                    if a.name.as_str().is_empty() && a.description.as_str().is_empty() {
                        proof {
                            lemma_find_char(line@, '-');
                        }
                        let n = line.unicode_len();
                        a.name = trim_str(line.substring_char(0, di));
                        a.description = trim_str(line.substring_char(di + 1, n));
                        proof {
                            assert(line@.subrange(0, di as int) =~= line@.take(di as int));
                            assert(line@.subrange(di + 1, n as int) =~= line@.skip(di + 1));
                        }
                        true
                    } else {
                        false
                    }
                },
                None => false,
            }
        },
    }
}

impl FlatpakMeta {
    /// Parse a record's detailed-info block: run the line machine from the
    /// record's current fields (with the dependency line reset to its
    /// constant prefix), then post-process — an empty version or license
    /// becomes `"?"`, and the three fields this data source can never
    /// supply are set to the "not implemented" sentinel. The record's
    /// extended identifier, install location and install date are left for
    /// their own hydration steps.
    #[verifier::loop_isolation(false)]
    pub fn get_app_info_full(&mut self, idx: usize, info_output: &str)
        requires
            idx < old(self).apps@.len(),
        ensures
            final(self).list_small == old(self).list_small,
            final(self).list_full == old(self).list_full,
            final(self).apps@.len() == old(self).apps@.len(),
            forall|j: int|
                0 <= j < old(self).apps@.len() && j != idx ==> final(self).apps@[j] == old(
                    self,
                ).apps@[j],
            record_has_info(
                final(self).apps@[idx as int],
                info_post(
                    info_run(info_init(old(self).apps@[idx as int]), lines_of(info_output@)),
                ),
            ),
            final(self).apps@[idx as int].packager@ == "[not implemented]"@,
            final(self).apps@[idx as int].url@ == "[not implemented]"@,
            final(self).apps@[idx as int].provides@ == "[not implemented]"@,
            final(self).apps@[idx as int].extid == old(self).apps@[idx as int].extid,
            final(self).apps@[idx as int].location == old(self).apps@[idx as int].location,
            final(self).apps@[idx as int].install_date == old(self).apps@[idx as int].install_date,
    {
        let lines = lines_vec(info_output);
        let ghost lv = views_of(lines@);
        let ghost acc0 = info_init(old(self).apps@[idx as int]);
        let mut a = self.apps[idx].duplicate();
        a.depends = String::from_str("flatpak ");
        let mut desc_read = false;
        proof {
            assert(lv.take(0) =~= Seq::<Seq<char>>::empty());
            assert(acc_of(a, false) =~= acc0);
        }
        let n = lines.len();
        let mut i: usize = 0;
        while i < n
            invariant
                i <= n,
                n == lines@.len(),
                acc_of(a, desc_read) == info_run(acc0, lv.take(i as int)),
                a.extid == old(self).apps@[idx as int].extid,
                a.install_date == old(self).apps@[idx as int].install_date,
                a.location == old(self).apps@[idx as int].location,
                a.url == old(self).apps@[idx as int].url,
                a.provides == old(self).apps@[idx as int].provides,
                a.packager == old(self).apps@[idx as int].packager,
                *self == *old(self),
            decreases n - i,
        {
            proof {
                assert(lv.take(i + 1).drop_last() =~= lv.take(i as int));
                assert(lv.take(i + 1).last() == lv[i as int]);
                assert(lines@[i as int]@ == lv[i as int]);
            }
            desc_read = info_step_exec(&mut a, desc_read, lines[i].as_str());
            i += 1;
        }
        proof {
            assert(lv.take(n as int) =~= lv);
        }
        if a.version.as_str().is_empty() {
            a.version = String::from_str("?");
        }
        if a.license.as_str().is_empty() {
            a.license = String::from_str("?");
        }
        a.packager = String::from_str("[not implemented]");
        a.url = String::from_str("[not implemented]");
        a.provides = String::from_str("[not implemented]");
        proof {
            let run = info_run(acc0, lv);
            assert(acc_of(a, run.desc_read) =~= info_post(run));
        }
        self.apps[idx] = a;
    }

    /// Store a record's install date, already rendered in the display
    /// pattern by the caller from the install location's modification time.
    pub fn set_install_date(&mut self, idx: usize, date: String)
        requires
            idx < old(self).apps@.len(),
        ensures
            final(self).list_small == old(self).list_small,
            final(self).list_full == old(self).list_full,
            final(self).apps@.len() == old(self).apps@.len(),
            forall|j: int|
                0 <= j < old(self).apps@.len() && j != idx ==> final(self).apps@[j] == old(
                    self,
                ).apps@[j],
            final(self).apps@[idx as int].install_date == date,
            same_except_install_date(final(self).apps@[idx as int], old(self).apps@[idx as int]),
    {
        let mut a = self.apps[idx].duplicate();
        a.install_date = date;
        self.apps[idx] = a;
    }
}

/// The two records agree on every field but `install_date`.
pub open spec fn same_except_install_date(a: FlatpakApp, b: FlatpakApp) -> bool {
    &&& a.extid == b.extid
    &&& a.name == b.name
    &&& a.description == b.description
    &&& a.id == b.id
    &&& a.arch == b.arch
    &&& a.branch == b.branch
    &&& a.version == b.version
    &&& a.license == b.license
    &&& a.origin == b.origin
    &&& a.collection == b.collection
    &&& a.installation == b.installation
    &&& a.install_size == b.install_size
    &&& a.runtime == b.runtime
    &&& a.sdk == b.sdk
    &&& a.commit == b.commit
    &&& a.parent == b.parent
    &&& a.subject == b.subject
    &&& a.build_date == b.build_date
    &&& a.location == b.location
    &&& a.url == b.url
    &&& a.provides == b.provides
    &&& a.packager == b.packager
    &&& a.depends == b.depends
}

} // verus!
