//! Verified string utilities: searching, splitting, trimming and comparing,
//! with specification-level models for each operation.

use vstd::prelude::*;

verus! {

/// The whitespace characters that trimming removes (the ASCII ones).
pub open spec fn is_space_char(c: char) -> bool {
    c == ' ' || c == '\t' || c == '\n' || c == '\r' || c == '\u{b}' || c == '\u{c}'
}

/// Runtime test for [`is_space_char`].
pub fn is_space(c: char) -> (r: bool)
    ensures
        r == is_space_char(c),
{
    c == ' ' || c == '\t' || c == '\n' || c == '\r' || c == '\u{b}' || c == '\u{c}'
}

/// The views of a sequence of owned strings.
pub open spec fn views_of(v: Seq<String>) -> Seq<Seq<char>> {
    Seq::new(v.len(), |i: int| v[i]@)
}

/// Index of the first occurrence of `c` in `s`, if any.
pub open spec fn find_char_spec(s: Seq<char>, c: char) -> Option<int>
    decreases s.len(),
{
    if s.len() == 0 {
        None
    } else if s[0] == c {
        Some(0)
    } else {
        match find_char_spec(s.skip(1), c) {
            None => None,
            Some(i) => Some(i + 1),
        }
    }
}

/// `find_char_spec` returns the first index holding `c`, or `None` when `c`
/// does not occur.
pub proof fn lemma_find_char(s: Seq<char>, c: char)
    ensures
        match find_char_spec(s, c) {
            Some(i) => 0 <= i < s.len() && s[i] == c && (forall|j: int| 0 <= j < i ==> s[j] != c),
            None => forall|j: int| 0 <= j < s.len() ==> s[j] != c,
        },
    decreases s.len(),
{
    if s.len() > 0 && s[0] != c {
        lemma_find_char(s.skip(1), c);
        assert forall|j: int| 0 <= j < s.len() && find_char_spec(s.skip(1), c) is None implies s[j]
            != c by {
            if j > 0 {
                assert(s.skip(1)[j - 1] == s[j]);
            }
        }
        if let Some(i) = find_char_spec(s.skip(1), c) {
            assert(s.skip(1)[i] == s[i + 1]);
            assert forall|j: int| 0 <= j < i + 1 implies s[j] != c by {
                if j > 0 {
                    assert(s.skip(1)[j - 1] == s[j]);
                }
            }
        }
    }
}

/// A first occurrence seen directly determines `find_char_spec`.
pub proof fn lemma_find_char_is(s: Seq<char>, c: char, i: int)
    requires
        0 <= i < s.len(),
        s[i] == c,
        forall|j: int| 0 <= j < i ==> s[j] != c,
    ensures
        find_char_spec(s, c) == Some(i),
{
    lemma_find_char(s, c);
    match find_char_spec(s, c) {
        None => {
            assert(false);
        },
        Some(k) => {
            if k < i {
                assert(s[k] != c);
            } else if k > i {
                assert(s[i] != c);
            }
        },
    }
}

/// Absence of `c` determines `find_char_spec`.
pub proof fn lemma_find_char_none(s: Seq<char>, c: char)
    requires
        forall|j: int| 0 <= j < s.len() ==> s[j] != c,
    ensures
        find_char_spec(s, c) is None,
{
    lemma_find_char(s, c);
    if let Some(k) = find_char_spec(s, c) {
        assert(s[k] != c);
    }
}

/// Index of the first occurrence of `c` in `s`, scanning left to right.
pub fn find_char(s: &str, c: char) -> (r: Option<usize>)
    ensures
        match r {
            Some(i) => find_char_spec(s@, c) == Some(i as int),
            None => find_char_spec(s@, c) is None,
        },
{
    let n = s.unicode_len();
    let mut i: usize = 0;
    while i < n
        invariant
            i <= n,
            n == s@.len(),
            forall|j: int| 0 <= j < i ==> s@[j] != c,
        decreases n - i,
    {
        if s.get_char(i) == c {
            proof {
                lemma_find_char_is(s@, c, i as int);
            }
            return Some(i);
        }
        i += 1;
    }
    proof {
        lemma_find_char_none(s@, c);
    }
    None
}

/// Two string slices hold the same characters.
pub fn str_eq(a: &str, b: &str) -> (r: bool)
    ensures
        r == (a@ == b@),
{
    let n = a.unicode_len();
    if n != b.unicode_len() {
        return false;
    }
    let mut i: usize = 0;
    while i < n
        invariant
            i <= n,
            n == a@.len(),
            n == b@.len(),
            forall|j: int| 0 <= j < i ==> a@[j] == b@[j],
        decreases n - i,
    {
        if a.get_char(i) != b.get_char(i) {
            return false;
        }
        i += 1;
    }
    proof {
        assert(a@ =~= b@);
    }
    true
}

/// `needle` occurs as a contiguous run somewhere in `hay`.
pub open spec fn is_substring(hay: Seq<char>, needle: Seq<char>) -> bool {
    exists|i: int|
        0 <= i <= hay.len() - needle.len() && #[trigger] hay.subrange(i, i + needle.len() as int)
            == needle
}

/// `needle` occurs in `hay` starting at position `i`.
fn matches_at(hay: &str, needle: &str, i: usize) -> (r: bool)
    requires
        i + needle@.len() <= hay@.len(),
    ensures
        r == (hay@.subrange(i as int, i + needle@.len() as int) == needle@),
{
    let hn = hay.unicode_len();
    let m = needle.unicode_len();
    let mut j: usize = 0;
    while j < m
        invariant
            j <= m,
            m == needle@.len(),
            hn == hay@.len(),
            i + m <= hn,
            forall|k: int| 0 <= k < j ==> hay@[i + k] == needle@[k],
        decreases m - j,
    {
        if hay.get_char(i + j) != needle.get_char(j) {
            proof {
                assert(hay@.subrange(i as int, i + m as int)[j as int] == hay@[i + j]);
            }
            return false;
        }
        j += 1;
    }
    proof {
        assert(hay@.subrange(i as int, i + m as int) =~= needle@);
    }
    true
}

/// Substring search: does `needle` occur anywhere in `hay`?
pub fn contains_str(hay: &str, needle: &str) -> (r: bool)
    ensures
        r == is_substring(hay@, needle@),
{
    let n = hay.unicode_len();
    let m = needle.unicode_len();
    if m > n {
        return false;
    }
    if m == 0 {
        proof {
            assert(hay@.subrange(0, 0 + needle@.len() as int) =~= needle@);
        }
        return true;
    }
    let mut i: usize = 0;
    while i <= n - m
        invariant
            1 <= m <= n,
            n == hay@.len(),
            m == needle@.len(),
            i <= n - m + 1,
            forall|k: int|
                0 <= k < i ==> #[trigger] hay@.subrange(k, k + needle@.len() as int) != needle@,
        decreases n - m + 1 - i,
    {
        if matches_at(hay, needle, i) {
            return true;
        }
        i += 1;
    }
    false
}

/// Split `s` at every occurrence of `sep`; the separators themselves are
/// dropped and empty pieces are kept, so the result never has fewer than one
/// piece.
pub open spec fn split_on(s: Seq<char>, sep: char) -> Seq<Seq<char>>
    decreases s.len(),
{
    if s.len() == 0 {
        seq![Seq::<char>::empty()]
    } else if s[0] == sep {
        seq![Seq::<char>::empty()] + split_on(s.skip(1), sep)
    } else {
        let rest = split_on(s.skip(1), sep);
        seq![seq![s[0]] + rest[0]] + rest.skip(1)
    }
}

/// Splitting yields at least one piece.
pub proof fn lemma_split_on_len(s: Seq<char>, sep: char)
    ensures
        split_on(s, sep).len() >= 1,
    decreases s.len(),
{
    if s.len() > 0 {
        lemma_split_on_len(s.skip(1), sep);
    }
}

/// A string free of the separator splits into itself alone.
pub proof fn lemma_split_on_no_sep(s: Seq<char>, sep: char)
    requires
        forall|j: int| 0 <= j < s.len() ==> s[j] != sep,
    ensures
        split_on(s, sep) =~~= seq![s],
    decreases s.len(),
{
    if s.len() == 0 {
        assert(split_on(s, sep) == seq![Seq::<char>::empty()]);
        assert(s =~= Seq::<char>::empty());
    } else {
        assert(forall|j: int| 0 <= j < s.skip(1).len() ==> s.skip(1)[j] != sep) by {
            assert(forall|j: int| 0 <= j < s.skip(1).len() ==> s.skip(1)[j] == s[j + 1]);
        }
        lemma_split_on_no_sep(s.skip(1), sep);
        let rest = split_on(s.skip(1), sep);
        assert(rest[0] == s.skip(1));
        assert(seq![s[0]] + s.skip(1) =~= s);
        assert(rest.skip(1) =~= Seq::<Seq<char>>::empty());
    }
}

/// When the first separator stands at `i`, the split is the prefix before it
/// followed by the split of what comes after it.
pub proof fn lemma_split_on_first_sep(s: Seq<char>, sep: char, i: int)
    requires
        0 <= i < s.len(),
        s[i] == sep,
        forall|j: int| 0 <= j < i ==> s[j] != sep,
    ensures
        split_on(s, sep) =~~= seq![s.take(i)] + split_on(s.skip(i + 1), sep),
    decreases i,
{
    if i == 0 {
        assert(s.take(0) =~= Seq::<char>::empty());
    } else {
        assert(s.skip(1)[i - 1] == s[i]);
        assert(forall|j: int| 0 <= j < i - 1 ==> s.skip(1)[j] == s[j + 1]);
        lemma_split_on_first_sep(s.skip(1), sep, i - 1);
        let rest = split_on(s.skip(1), sep);
        lemma_split_on_len(s.skip(1).skip(i), sep);
        assert(s.skip(1).skip(i) =~= s.skip(i + 1));
        assert(rest[0] == s.skip(1).take(i - 1));
        assert(seq![s[0]] + s.skip(1).take(i - 1) =~= s.take(i));
        assert(rest.skip(1) =~~= (seq![s.skip(1).take(i - 1)] + split_on(s.skip(i + 1), sep)).skip(
            1,
        ));
    }
}

/// Split a string at every occurrence of `sep`, keeping empty pieces.
pub fn split_str(s: &str, sep: char) -> (r: Vec<String>)
    ensures
        views_of(r@) =~~= split_on(s@, sep),
{
    let n = s.unicode_len();
    let mut out: Vec<String> = Vec::new();
    let mut start: usize = 0;
    let mut i: usize = 0;
    proof {
        assert(s@.skip(0) =~= s@);
        assert(views_of(Seq::<String>::empty()) =~~= Seq::<Seq<char>>::empty());
    }
    while i < n
        invariant
            start <= i <= n,
            n == s@.len(),
            forall|j: int| start <= j < i ==> s@[j] != sep,
            split_on(s@, sep) =~~= views_of(out@) + split_on(s@.skip(start as int), sep),
        decreases n - i,
    {
        if s.get_char(i) == sep {
            let piece = String::from_str(s.substring_char(start, i));
            proof {
                let tail = s@.skip(start as int);
                assert(forall|j: int| 0 <= j < i - start ==> tail[j] == s@[start + j]);
                assert(tail[i - start] == s@[i as int]);
                lemma_split_on_first_sep(tail, sep, i - start);
                assert(tail.take(i - start) =~= s@.subrange(start as int, i as int));
                assert(tail.skip(i - start + 1) =~= s@.skip(i + 1));
                assert(views_of(out@.push(piece)) =~~= views_of(out@) + seq![piece@]);
            }
            out.push(piece);
            start = i + 1;
        }
        i += 1;
    }
    let piece = String::from_str(s.substring_char(start, n));
    proof {
        let tail = s@.skip(start as int);
        assert(forall|j: int| 0 <= j < tail.len() ==> tail[j] == s@[start + j]);
        lemma_split_on_no_sep(tail, sep);
        assert(tail =~= s@.subrange(start as int, n as int));
        assert(views_of(out@.push(piece)) =~~= views_of(out@) + seq![piece@]);
    }
    out.push(piece);
    out
}

/// A line with a trailing carriage return loses it.
pub open spec fn strip_cr(p: Seq<char>) -> Seq<char> {
    if p.len() > 0 && p[p.len() - 1] == '\r' {
        p.drop_last()
    } else {
        p
    }
}

/// The lines of a text: pieces between newlines, each without a trailing
/// carriage return; a final newline ends the last line instead of opening an
/// empty one, and an empty text has no lines.
pub open spec fn lines_of(s: Seq<char>) -> Seq<Seq<char>> {
    if s.len() == 0 {
        Seq::empty()
    } else {
        let parts = split_on(s, '\n');
        let kept = if parts.last().len() == 0 {
            parts.drop_last()
        } else {
            parts
        };
        Seq::new(kept.len(), |i: int| strip_cr(kept[i]))
    }
}

/// Split a text into lines, the way the parsers read tool output.
pub fn lines_vec(s: &str) -> (r: Vec<String>)
    ensures
        views_of(r@) =~~= lines_of(s@),
{
    if s.unicode_len() == 0 {
        let r: Vec<String> = Vec::new();
        proof {
            assert(views_of(r@) =~~= Seq::<Seq<char>>::empty());
        }
        return r;
    }
    let mut parts = split_str(s, '\n');
    proof {
        lemma_split_on_len(s@, '\n');
    }
    if parts[parts.len() - 1].as_str().unicode_len() == 0 {
        proof {
            let pv = views_of(parts@);
            assert(pv.last() == parts@.last()@);
            assert(views_of(parts@.drop_last()) =~~= pv.drop_last());
        }
        parts.pop();
    }
    let mut out: Vec<String> = Vec::new();
    let n = parts.len();
    let ghost kept = views_of(parts@);
    let mut i: usize = 0;
    while i < n
        invariant
            i <= n,
            n == parts@.len(),
            kept == views_of(parts@),
            out@.len() == i,
            forall|j: int| 0 <= j < i ==> out@[j]@ == strip_cr(kept[j]),
        decreases n - i,
    {
        let p = &parts[i];
        let pl = p.as_str().unicode_len();
        if pl > 0 && p.as_str().get_char(pl - 1) == '\r' {
            let stripped = String::from_str(p.as_str().substring_char(0, pl - 1));
            proof {
                assert(p@.subrange(0, pl - 1) =~= p@.drop_last());
            }
            out.push(stripped);
        } else {
            out.push(p.clone());
        }
        i += 1;
    }
    proof {
        assert(views_of(out@) =~~= Seq::new(kept.len(), |j: int| strip_cr(kept[j])));
    }
    out
}

/// Leading whitespace removed.
pub open spec fn trim_start_spec(s: Seq<char>) -> Seq<char>
    decreases s.len(),
{
    if s.len() > 0 && is_space_char(s[0]) {
        trim_start_spec(s.skip(1))
    } else {
        s
    }
}

/// Trailing whitespace removed.
pub open spec fn trim_end_spec(s: Seq<char>) -> Seq<char>
    decreases s.len(),
{
    if s.len() > 0 && is_space_char(s.last()) {
        trim_end_spec(s.drop_last())
    } else {
        s
    }
}

/// Leading and trailing whitespace removed.
pub open spec fn trim_spec(s: Seq<char>) -> Seq<char> {
    trim_end_spec(trim_start_spec(s))
}

/// Dropping a run of leading whitespace computes `trim_start_spec`.
proof fn lemma_trim_start_at(s: Seq<char>, a: int)
    requires
        0 <= a <= s.len(),
        forall|j: int| 0 <= j < a ==> is_space_char(s[j]),
        a < s.len() ==> !is_space_char(s[a]),
    ensures
        trim_start_spec(s) =~= s.skip(a),
    decreases a,
{
    if a == 0 {
        assert(s.skip(0) =~= s);
    } else {
        assert(is_space_char(s[0]));
        assert(forall|j: int| 0 <= j < a - 1 ==> s.skip(1)[j] == s[j + 1]);
        assert(a - 1 < s.skip(1).len() ==> s.skip(1)[a - 1] == s[a]);
        lemma_trim_start_at(s.skip(1), a - 1);
        assert(s.skip(1).skip(a - 1) =~= s.skip(a));
    }
}

/// Dropping a run of trailing whitespace computes `trim_end_spec`.
proof fn lemma_trim_end_at(s: Seq<char>, b: int)
    requires
        0 <= b <= s.len(),
        forall|j: int| b <= j < s.len() ==> is_space_char(s[j]),
        b > 0 ==> !is_space_char(s[b - 1]),
    ensures
        trim_end_spec(s) =~= s.take(b),
    decreases s.len() - b,
{
    if b == s.len() {
        assert(s.take(b) =~= s);
    } else {
        assert(is_space_char(s.last()));
        assert(forall|j: int| b <= j < s.drop_last().len() ==> s.drop_last()[j] == s[j]);
        lemma_trim_end_at(s.drop_last(), b);
        assert(s.drop_last().take(b) =~= s.take(b));
    }
}

/// Trim whitespace from both ends of a string.
pub fn trim_str(s: &str) -> (r: String)
    ensures
        r@ == trim_spec(s@),
{
    let n = s.unicode_len();
    let mut a: usize = 0;
    while a < n && is_space(s.get_char(a))
        invariant
            a <= n,
            n == s@.len(),
            forall|j: int| 0 <= j < a ==> is_space_char(s@[j]),
        decreases n - a,
    {
        a += 1;
    }
    proof {
        lemma_trim_start_at(s@, a as int);
    }
    let mut b: usize = n;
    while b > a && is_space(s.get_char(b - 1))
        invariant
            a <= b <= n,
            n == s@.len(),
            forall|j: int| b <= j < n ==> is_space_char(s@[j]),
        decreases b,
    {
        b -= 1;
    }
    let r = String::from_str(s.substring_char(a, b));
    proof {
        let mid = s@.skip(a as int);
        assert(forall|j: int| 0 <= j < mid.len() ==> mid[j] == s@[a + j]);
        if b == a {
            lemma_trim_end_at(mid, 0);
        } else {
            lemma_trim_end_at(mid, b - a);
        }
        assert(mid.take(b - a) =~= s@.subrange(a as int, b as int));
    }
    r
}

/// Trim whitespace from the end of a string only.
pub fn trim_end_str(s: &str) -> (r: String)
    ensures
        r@ == trim_end_spec(s@),
{
    let n = s.unicode_len();
    let mut b: usize = n;
    while b > 0 && is_space(s.get_char(b - 1))
        invariant
            b <= n,
            n == s@.len(),
            forall|j: int| b <= j < n ==> is_space_char(s@[j]),
        decreases b,
    {
        b -= 1;
    }
    let r = String::from_str(s.substring_char(0, b));
    proof {
        lemma_trim_end_at(s@, b as int);
        assert(s@.take(b as int) =~= s@.subrange(0, b as int));
    }
    r
}

} // verus!
