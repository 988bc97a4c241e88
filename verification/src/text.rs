//! Character-sequence primitives shared by the legacy-output parsers:
//! trimming, splitting, substring search, and case-insensitive search.

use vstd::prelude::*;
use vstd::string::StrSliceExecFns;
use vstd::string::StringExecFns;

verus! {

/// The whitespace characters the parsers trim: the ASCII part of the
/// white-space class (space, tab, line feed, vertical tab, form feed,
/// carriage return).
pub open spec fn is_space(c: char) -> bool {
    c == ' ' || c == '\t' || c == '\n' || c == '\r' || c == '\u{b}' || c == '\u{c}'
}

pub fn is_space_char(c: char) -> (r: bool)
    ensures
        r == is_space(c),
{
    c == ' ' || c == '\t' || c == '\n' || c == '\r' || c == '\u{b}' || c == '\u{c}'
}

/// The sequence with trailing whitespace removed.
pub open spec fn trim_end_spec(s: Seq<char>) -> Seq<char>
    decreases s.len(),
{
    if s.len() > 0 && is_space(s.last()) {
        trim_end_spec(s.drop_last())
    } else {
        s
    }
}

/// The sequence with leading whitespace removed.
pub open spec fn trim_start_spec(s: Seq<char>) -> Seq<char>
    decreases s.len(),
{
    if s.len() > 0 && is_space(s.first()) {
        trim_start_spec(s.drop_first())
    } else {
        s
    }
}

/// The sequence with whitespace removed from both ends.
pub open spec fn trim_spec(s: Seq<char>) -> Seq<char> {
    trim_start_spec(trim_end_spec(s))
}

pub fn trim_end_str(s: &str) -> (r: &str)
    ensures
        r@ == trim_end_spec(s@),
{
    let len: usize = s.unicode_len();
    let mut end: usize = len;
    proof {
        assert(s@.take(len as int) =~= s@);
    }
    while end > 0 && is_space_char(s.get_char(end - 1))
        invariant
            end <= len,
            len == s@.len(),
            trim_end_spec(s@) == trim_end_spec(s@.take(end as int)),
        decreases end,
    {
        proof {
            assert(s@.take(end as int).drop_last() =~= s@.take(end - 1));
        }
        end = end - 1;
    }
    proof {
        assert(trim_end_spec(s@.take(end as int)) == s@.take(end as int));
    }
    s.substring_char(0, end)
}

pub fn trim_start_str(s: &str) -> (r: &str)
    ensures
        r@ == trim_start_spec(s@),
{
    let len: usize = s.unicode_len();
    let mut start: usize = 0;
    proof {
        assert(s@.skip(0) =~= s@);
    }
    while start < len && is_space_char(s.get_char(start))
        invariant
            start <= len,
            len == s@.len(),
            trim_start_spec(s@) == trim_start_spec(s@.skip(start as int)),
        decreases len - start,
    {
        proof {
            assert(s@.skip(start as int).drop_first() =~= s@.skip(start + 1));
        }
        start = start + 1;
    }
    proof {
        assert(trim_start_spec(s@.skip(start as int)) == s@.skip(start as int));
    }
    s.substring_char(start, len)
}

pub fn trim_str(s: &str) -> (r: &str)
    ensures
        r@ == trim_spec(s@),
{
    trim_start_str(trim_end_str(s))
}

/// Splitting `s` on the separator `sep`: the tokens between separator
/// occurrences, in order. A sequence with no separator splits into itself
/// alone, so the result always holds at least one token.
pub open spec fn split_on(s: Seq<char>, sep: char) -> Seq<Seq<char>>
    decreases s.len(),
{
    if s.len() == 0 {
        seq![s]
    } else if s[0] == sep {
        seq![Seq::<char>::empty()] + split_on(s.drop_first(), sep)
    } else {
        let r = split_on(s.drop_first(), sep);
        seq![seq![s[0]] + r[0]] + r.drop_first()
    }
}

pub proof fn lemma_split_on_len(s: Seq<char>, sep: char)
    ensures
        1 <= split_on(s, sep).len() <= s.len() + 1,
    decreases s.len(),
{
    if s.len() > 0 {
        lemma_split_on_len(s.drop_first(), sep);
    }
}

/// A sequence without the separator splits into the one token it is.
pub proof fn lemma_split_no_sep(s: Seq<char>, sep: char)
    requires
        forall|i: int| 0 <= i < s.len() ==> s[i] != sep,
    ensures
        split_on(s, sep) == seq![s],
    decreases s.len(),
{
    if s.len() > 0 {
        lemma_split_no_sep(s.drop_first(), sep);
        assert(split_on(s, sep) =~~= seq![seq![s[0]] + s.drop_first()]);
        assert(seq![s[0]] + s.drop_first() =~= s);
        assert(split_on(s, sep) =~~= seq![s]);
    }
}

/// Splitting at the first separator occurrence: the head token is what
/// precedes it, and the rest splits the suffix after it.
pub proof fn lemma_split_first_sep(s: Seq<char>, sep: char, k: int)
    requires
        0 <= k < s.len(),
        s[k] == sep,
        forall|i: int| 0 <= i < k ==> s[i] != sep,
    ensures
        split_on(s, sep) == seq![s.take(k)] + split_on(s.skip(k + 1), sep),
    decreases k,
{
    if k == 0 {
        assert(s.take(0) =~= Seq::<char>::empty());
        assert(s.drop_first() =~= s.skip(1));
    } else {
        lemma_split_first_sep(s.drop_first(), sep, k - 1);
        lemma_split_on_len(s.drop_first().skip(k), sep);
        let r = split_on(s.drop_first(), sep);
        assert(r == seq![s.drop_first().take(k - 1)] + split_on(s.drop_first().skip(k), sep));
        assert(seq![s[0]] + r[0] =~= s.take(k));
        assert(s.drop_first().skip(k) =~= s.skip(k + 1));
        assert(split_on(s, sep) =~~= seq![s.take(k)] + split_on(s.skip(k + 1), sep));
    }
}

pub fn split_on_char(s: &str, sep: char) -> (r: Vec<String>)
    ensures
        r.deep_view() == split_on(s@, sep),
{
    let len: usize = s.unicode_len();
    let mut parts: Vec<String> = Vec::new();
    let mut start: usize = 0;
    let mut i: usize = 0;
    proof {
        assert(s@.skip(0) =~= s@);
        assert(parts.deep_view() =~= Seq::<Seq<char>>::empty());
        assert(parts.deep_view() + split_on(s@, sep) =~= split_on(s@, sep));
    }
    while i < len
        invariant
            start <= i <= len,
            len == s@.len(),
            forall|k: int| start <= k < i ==> s@[k] != sep,
            split_on(s@, sep) == parts.deep_view() + split_on(s@.skip(start as int), sep),
        decreases len - i,
    {
        let c = s.get_char(i);
        if c == sep {
            let ghost old_parts = parts.deep_view();
            let piece = s.substring_char(start, i);
            parts.push(String::from_str(piece));
            proof {
                let tail = s@.skip(start as int);
                lemma_split_first_sep(tail, sep, i - start);
                assert(tail.take(i - start) =~= s@.subrange(start as int, i as int));
                assert(tail.skip(i - start + 1) =~= s@.skip(i + 1));
                assert(parts.deep_view() =~= old_parts.push(piece@));
                assert(parts.deep_view() + split_on(s@.skip(i + 1), sep) =~~= old_parts + (seq![
                    tail.take(i - start),
                ] + split_on(tail.skip(i - start + 1), sep)));
            }
            start = i + 1;
        }
        i = i + 1;
    }
    let ghost old_parts = parts.deep_view();
    let piece = s.substring_char(start, len);
    parts.push(String::from_str(piece));
    proof {
        lemma_split_no_sep(s@.skip(start as int), sep);
        assert(parts.deep_view() =~= old_parts.push(piece@));
        assert(piece@ =~= s@.skip(start as int));
        assert(parts.deep_view() =~~= old_parts + seq![s@.skip(start as int)]);
    }
    parts
}

/// The position of the first occurrence of the character `c` in `s`.
pub open spec fn first_char_at(s: Seq<char>, c: char) -> Option<int>
    decreases s.len(),
{
    if s.len() == 0 {
        None
    } else if s[0] == c {
        Some(0)
    } else {
        match first_char_at(s.drop_first(), c) {
            Some(i) => Some(i + 1),
            None => None,
        }
    }
}

pub proof fn lemma_first_char_at(s: Seq<char>, c: char)
    ensures
        match first_char_at(s, c) {
            Some(i) => 0 <= i < s.len() && s[i] == c && (forall|j: int| 0 <= j < i ==> s[j] != c),
            None => forall|j: int| 0 <= j < s.len() ==> s[j] != c,
        },
    decreases s.len(),
{
    if s.len() > 0 && s[0] != c {
        lemma_first_char_at(s.drop_first(), c);
        match first_char_at(s.drop_first(), c) {
            Some(i) => {
                assert forall|j: int| 0 <= j < i + 1 implies s[j] != c by {
                    if j > 0 {
                        assert(s.drop_first()[j - 1] != c);
                    }
                }
            },
            None => {
                assert forall|j: int| 0 <= j < s.len() implies s[j] != c by {
                    if j > 0 {
                        assert(s.drop_first()[j - 1] != c);
                    }
                }
            },
        }
    }
}

pub fn find_char_str(s: &str, c: char) -> (r: Option<usize>)
    ensures
        match r {
            Some(i) => first_char_at(s@, c) == Some(i as int),
            None => first_char_at(s@, c) is None,
        },
{
    let n: usize = s.unicode_len();
    let mut i: usize = 0;
    while i < n
        invariant
            i <= n,
            n == s@.len(),
            forall|j: int| 0 <= j < i ==> s@[j] != c,
        decreases n - i,
    {
        if s.get_char(i) == c {
            proof {
                lemma_first_char_at(s@, c);
                match first_char_at(s@, c) {
                    Some(ii) => {
                        if ii < i {
                        } else if ii > i {
                        }
                    },
                    None => {},
                }
            }
            return Some(i);
        }
        i = i + 1;
    }
    proof {
        lemma_first_char_at(s@, c);
    }
    None
}

/// Each line with its trailing whitespace removed.
pub open spec fn trim_end_all(lines: Seq<Seq<char>>) -> Seq<Seq<char>>
    decreases lines.len(),
{
    if lines.len() == 0 {
        Seq::empty()
    } else {
        trim_end_all(lines.drop_last()).push(trim_end_spec(lines.last()))
    }
}

/// Each cell with surrounding whitespace removed.
pub open spec fn trimmed_all(cells: Seq<Seq<char>>) -> Seq<Seq<char>>
    decreases cells.len(),
{
    if cells.len() == 0 {
        Seq::empty()
    } else {
        trimmed_all(cells.drop_last()).push(trim_spec(cells.last()))
    }
}

/// The lines kept by the legacy exec parser: trailing whitespace removed,
/// empty lines dropped.
pub open spec fn cleaned(lines: Seq<Seq<char>>) -> Seq<Seq<char>>
    decreases lines.len(),
{
    if lines.len() == 0 {
        Seq::empty()
    } else {
        let rest = cleaned(lines.drop_last());
        let t = trim_end_spec(lines.last());
        if t.len() == 0 {
            rest
        } else {
            rest.push(t)
        }
    }
}

/// `cleaned` keeps at most the lines it was given.
pub proof fn lemma_cleaned_len(lines: Seq<Seq<char>>)
    ensures
        cleaned(lines).len() <= lines.len(),
    decreases lines.len(),
{
    if lines.len() > 0 {
        lemma_cleaned_len(lines.drop_last());
    }
}

/// Every line that `cleaned` keeps is non-empty.
pub proof fn lemma_cleaned_nonempty(lines: Seq<Seq<char>>)
    ensures
        forall|i: int| 0 <= i < cleaned(lines).len() ==> cleaned(lines)[i].len() != 0,
    decreases lines.len(),
{
    if lines.len() > 0 {
        lemma_cleaned_nonempty(lines.drop_last());
        let rest = cleaned(lines.drop_last());
        let t = trim_end_spec(lines.last());
        if t.len() != 0 {
            assert forall|i: int| 0 <= i < cleaned(lines).len() implies cleaned(
                lines,
            )[i].len() != 0 by {
                if i < rest.len() {
                    assert(cleaned(lines)[i] == rest[i]);
                } else {
                    assert(cleaned(lines)[i] == t);
                }
            }
        }
    }
}

/// The sequence with every trailing occurrence of `c` removed.
pub open spec fn strip_trailing(s: Seq<char>, c: char) -> Seq<char>
    decreases s.len(),
{
    if s.len() > 0 && s.last() == c {
        strip_trailing(s.drop_last(), c)
    } else {
        s
    }
}

pub fn strip_trailing_str<'a>(s: &'a str, c: char) -> (r: &'a str)
    ensures
        r@ == strip_trailing(s@, c),
{
    let len: usize = s.unicode_len();
    let mut end: usize = len;
    proof {
        assert(s@.take(len as int) =~= s@);
    }
    while end > 0 && s.get_char(end - 1) == c
        invariant
            end <= len,
            len == s@.len(),
            strip_trailing(s@, c) == strip_trailing(s@.take(end as int), c),
        decreases end,
    {
        proof {
            assert(s@.take(end as int).drop_last() =~= s@.take(end - 1));
        }
        end = end - 1;
    }
    proof {
        assert(strip_trailing(s@.take(end as int), c) == s@.take(end as int));
    }
    s.substring_char(0, end)
}

/// Each cell trimmed, empty cells dropped: how comma-separated name lists
/// are read.
pub open spec fn nonempty_cells(cells: Seq<Seq<char>>) -> Seq<Seq<char>>
    decreases cells.len(),
{
    if cells.len() == 0 {
        Seq::empty()
    } else {
        let rest = nonempty_cells(cells.drop_last());
        let t = trim_spec(cells.last());
        if t.len() == 0 {
            rest
        } else {
            rest.push(t)
        }
    }
}

/// The trimmed non-empty entries of a comma-separated list.
pub open spec fn name_list(s: Seq<char>) -> Seq<Seq<char>> {
    nonempty_cells(split_on(s, ','))
}

pub fn split_name_list(s: &str) -> (r: Vec<String>)
    ensures
        r.deep_view() == name_list(s@),
{
    let parts = split_on_char(s, ',');
    let mut names: Vec<String> = Vec::new();
    let mut i: usize = 0;
    proof {
        assert(parts.deep_view().take(0) =~= Seq::<Seq<char>>::empty());
    }
    while i < parts.len()
        invariant
            i <= parts.len(),
            parts.deep_view() == split_on(s@, ','),
            names.deep_view() == nonempty_cells(parts.deep_view().take(i as int)),
        decreases parts.len() - i,
    {
        let ghost pv = parts.deep_view();
        let ghost old_names = names.deep_view();
        let t = trim_str(parts[i].as_str());
        proof {
            assert(pv.take(i + 1).drop_last() =~= pv.take(i as int));
            assert(pv.take(i + 1).last() == pv[i as int]);
        }
        if t.unicode_len() > 0 {
            names.push(String::from_str(t));
            proof {
                assert(names.deep_view() =~= old_names.push(t@));
            }
        }
        i = i + 1;
    }
    proof {
        assert(parts.deep_view().take(parts.deep_view().len() as int) =~= parts.deep_view());
    }
    names
}

/// `p` occurs in `s` at position `i`.
pub open spec fn match_at(s: Seq<char>, p: Seq<char>, i: int) -> bool {
    0 <= i && i + p.len() <= s.len() && s.subrange(i, i + p.len()) == p
}

/// The position of the first occurrence of `p` in `s`, if any.
pub open spec fn find_sub(s: Seq<char>, p: Seq<char>) -> Option<int>
    decreases s.len(),
{
    if p.len() > s.len() {
        None
    } else if s.take(p.len() as int) == p {
        Some(0)
    } else if s.len() == 0 {
        None
    } else {
        match find_sub(s.drop_first(), p) {
            Some(i) => Some(i + 1),
            None => None,
        }
    }
}

/// `find_sub` returns the first match position, and `None` only when no
/// position matches.
pub proof fn lemma_find_sub(s: Seq<char>, p: Seq<char>)
    ensures
        match find_sub(s, p) {
            Some(i) => match_at(s, p, i) && (forall|j: int| 0 <= j < i ==> !match_at(s, p, j)),
            None => forall|j: int| !match_at(s, p, j),
        },
    decreases s.len(),
{
    if p.len() > s.len() {
    } else if s.take(p.len() as int) == p {
        assert(s.subrange(0, p.len() as int) =~= s.take(p.len() as int));
    } else if s.len() == 0 {
        assert(s.take(p.len() as int) =~= s);
    } else {
        lemma_find_sub(s.drop_first(), p);
        assert(s.subrange(0, p.len() as int) =~= s.take(p.len() as int));
        assert forall|j: int| 1 <= j implies (match_at(s, p, j) <==> match_at(
            s.drop_first(),
            p,
            j - 1,
        )) by {
            if j + p.len() <= s.len() {
                assert(s.subrange(j, j + p.len()) =~= s.drop_first().subrange(
                    j - 1,
                    j - 1 + p.len(),
                ));
            }
        }
    }
}

pub fn find_sub_str(s: &str, p: &str) -> (r: Option<usize>)
    ensures
        match r {
            Some(i) => find_sub(s@, p@) == Some(i as int),
            None => find_sub(s@, p@) is None,
        },
{
    let n: usize = s.unicode_len();
    let m: usize = p.unicode_len();
    proof {
        lemma_find_sub(s@, p@);
    }
    if m > n {
        return None;
    }
    let mut i: usize = 0;
    while i <= n - m
        invariant
            m <= n,
            n == s@.len(),
            m == p@.len(),
            i <= n - m + 1,
            forall|j: int| 0 <= j < i ==> !match_at(s@, p@, j),
        decreases n - m - i + 1,
    {
        let mut j: usize = 0;
        while j < m && s.get_char(i + j) == p.get_char(j)
            invariant
                j <= m,
                i + m <= n,
                n == s@.len(),
                m == p@.len(),
                forall|k: int| 0 <= k < j ==> s@[i + k] == p@[k],
            decreases m - j,
        {
            j = j + 1;
        }
        if j == m {
            proof {
                assert(s@.subrange(i as int, i + p@.len()) =~= p@);
                assert(match_at(s@, p@, i as int));
                lemma_find_sub(s@, p@);
                match find_sub(s@, p@) {
                    Some(ii) => {
                        if ii < i {
                            assert(!match_at(s@, p@, ii));
                        } else if ii > i {
                            assert(!match_at(s@, p@, i as int));
                        }
                    },
                    None => {
                        assert(!match_at(s@, p@, i as int));
                    },
                }
            }
            return Some(i);
        }
        proof {
            assert(!match_at(s@, p@, i as int)) by {
                if match_at(s@, p@, i as int) {
                    assert(s@.subrange(i as int, i + p@.len())[j as int] == p@[j as int]);
                }
            }
        }
        i = i + 1;
    }
    proof {
        lemma_find_sub(s@, p@);
        assert(forall|j: int| !match_at(s@, p@, j));
    }
    None
}

/// `p` occurs somewhere in `s`.
pub open spec fn contains_sub(s: Seq<char>, p: Seq<char>) -> bool {
    find_sub(s, p) is Some
}

pub fn contains_str(s: &str, p: &str) -> (r: bool)
    ensures
        r == contains_sub(s@, p@),
{
    match find_sub_str(s, p) {
        Some(_) => true,
        None => false,
    }
}

pub open spec fn starts_with_spec(s: Seq<char>, p: Seq<char>) -> bool {
    p.len() <= s.len() && s.take(p.len() as int) == p
}

pub open spec fn ends_with_spec(s: Seq<char>, p: Seq<char>) -> bool {
    p.len() <= s.len() && s.skip(s.len() - p.len()) == p
}

pub fn starts_with_str(s: &str, p: &str) -> (r: bool)
    ensures
        r == starts_with_spec(s@, p@),
{
    let n: usize = s.unicode_len();
    let m: usize = p.unicode_len();
    if m > n {
        return false;
    }
    let mut j: usize = 0;
    while j < m && s.get_char(j) == p.get_char(j)
        invariant
            j <= m <= n,
            n == s@.len(),
            m == p@.len(),
            forall|k: int| 0 <= k < j ==> s@[k] == p@[k],
        decreases m - j,
    {
        j = j + 1;
    }
    if j == m {
        proof {
            assert(s@.take(p@.len() as int) =~= p@);
        }
        true
    } else {
        proof {
            if starts_with_spec(s@, p@) {
                assert(s@.take(p@.len() as int)[j as int] == p@[j as int]);
            }
        }
        false
    }
}

pub fn ends_with_str(s: &str, p: &str) -> (r: bool)
    ensures
        r == ends_with_spec(s@, p@),
{
    let n: usize = s.unicode_len();
    let m: usize = p.unicode_len();
    if m > n {
        return false;
    }
    let mut j: usize = 0;
    while j < m && s.get_char(n - m + j) == p.get_char(j)
        invariant
            j <= m <= n,
            n == s@.len(),
            m == p@.len(),
            forall|k: int| 0 <= k < j ==> s@[n - m + k] == p@[k],
        decreases m - j,
    {
        j = j + 1;
    }
    if j == m {
        proof {
            assert(s@.skip(s@.len() - p@.len()) =~= p@);
        }
        true
    } else {
        proof {
            if ends_with_spec(s@, p@) {
                assert(s@.skip(s@.len() - p@.len())[j as int] == p@[j as int]);
            }
        }
        false
    }
}

/// The suffix of `s` after a prefix `p`, when `s` starts with `p`.
pub fn strip_prefix_str<'a>(s: &'a str, p: &str) -> (r: Option<&'a str>)
    ensures
        match r {
            Some(t) => starts_with_spec(s@, p@) && t@ == s@.skip(p@.len() as int),
            None => !starts_with_spec(s@, p@),
        },
{
    if starts_with_str(s, p) {
        Some(s.substring_char(p.unicode_len(), s.unicode_len()))
    } else {
        None
    }
}

/// The front of `s` before a suffix `p`, when `s` ends with `p`.
pub fn strip_suffix_str<'a>(s: &'a str, p: &str) -> (r: Option<&'a str>)
    ensures
        match r {
            Some(t) => ends_with_spec(s@, p@) && t@ == s@.take(s@.len() - p@.len()),
            None => !ends_with_spec(s@, p@),
        },
{
    if ends_with_str(s, p) {
        Some(s.substring_char(0, s.unicode_len() - p.unicode_len()))
    } else {
        None
    }
}

pub fn str_eq(a: &str, b: &str) -> (r: bool)
    ensures
        r == (a@ == b@),
{
    let n: usize = a.unicode_len();
    let m: usize = b.unicode_len();
    if m != n {
        return false;
    }
    let mut j: usize = 0;
    while j < n && a.get_char(j) == b.get_char(j)
        invariant
            j <= n,
            n == a@.len(),
            n == b@.len(),
            forall|k: int| 0 <= k < j ==> a@[k] == b@[k],
        decreases n - j,
    {
        j = j + 1;
    }
    if j == n {
        proof {
            assert(a@ =~= b@);
        }
        true
    } else {
        false
    }
}

/// An ASCII capital letter.
pub open spec fn is_upper(c: char) -> bool {
    'A' as u32 <= c as u32 && c as u32 <= 'Z' as u32
}

/// `c` folds to `l` under ASCII lowercasing, as `str::to_ascii_lowercase`
/// maps each character.
pub open spec fn folds_to(c: char, l: char) -> bool {
    if is_upper(c) {
        l as u32 == c as u32 + 32
    } else {
        l == c
    }
}

/// `p` occurs at position `i` of the ASCII-lowercased `s` (`p` given in
/// lowercase already).
pub open spec fn ci_match_at(s: Seq<char>, p: Seq<char>, i: int) -> bool {
    0 <= i && i + p.len() <= s.len() && (forall|k: int| 0 <= k < p.len() ==> folds_to(
        s[i + k],
        p[k],
    ))
}

/// `p` occurs somewhere in the ASCII-lowercased `s`.
pub open spec fn contains_sub_ci(s: Seq<char>, p: Seq<char>) -> bool {
    exists|i: int| ci_match_at(s, p, i)
}

fn lower_char_exec(c: char) -> (r: char)
    ensures
        folds_to(c, r),
{
    let u: u32 = c as u32;
    if 65 <= u && u <= 90 {
        ((u + 32) as u8) as char
    } else {
        c
    }
}

/// Case-insensitive substring test: whether the ASCII-lowercased `s`
/// contains `p`, which the caller passes already lowercased.
pub fn contains_str_ci(s: &str, p: &str) -> (r: bool)
    ensures
        r == contains_sub_ci(s@, p@),
{
    let n: usize = s.unicode_len();
    let m: usize = p.unicode_len();
    if m > n {
        proof {
            assert(forall|i: int| !ci_match_at(s@, p@, i));
        }
        return false;
    }
    let mut i: usize = 0;
    while i <= n - m
        invariant
            m <= n,
            n == s@.len(),
            m == p@.len(),
            i <= n - m + 1,
            forall|j: int| 0 <= j < i ==> !ci_match_at(s@, p@, j),
        decreases n - m - i + 1,
    {
        let mut j: usize = 0;
        while j < m && lower_char_exec(s.get_char(i + j)) == p.get_char(j)
            invariant
                j <= m,
                i + m <= n,
                n == s@.len(),
                m == p@.len(),
                forall|k: int| 0 <= k < j ==> folds_to(s@[i + k], p@[k]),
            decreases m - j,
        {
            j = j + 1;
        }
        if j == m {
            proof {
                assert(ci_match_at(s@, p@, i as int));
            }
            return true;
        }
        proof {
            assert(!ci_match_at(s@, p@, i as int));
        }
        i = i + 1;
    }
    proof {
        assert(forall|i: int| !ci_match_at(s@, p@, i));
    }
    false
}

} // verus!
