//! Verified text utilities: splitting into lines, whitespace tokenization,
//! splitting student records on the `","` separator, and trimming quote and
//! comma characters.  Every executable function is specified exactly against
//! a spec-level model of the corresponding operation on `Seq<char>`.

use vstd::prelude::*;

verus! {

/// The view of every string in a sequence of strings.
pub open spec fn str_views(q: Seq<String>) -> Seq<Seq<char>> {
    q.map_values(|t: String| t@)
}

/// Index of the first occurrence of `c` in `s`, if any.
pub open spec fn find_char(s: Seq<char>, c: char) -> Option<int>
    decreases s.len(),
{
    if s.len() == 0 {
        None
    } else if s[0] == c {
        Some(0int)
    } else {
        match find_char(s.skip(1), c) {
            None => None,
            Some(i) => Some(i + 1),
        }
    }
}

/// `find_char` seen from a witness: the least index holding `c` determines it.
pub proof fn lemma_find_char_is(s: Seq<char>, c: char, k: int)
    requires
        0 <= k < s.len(),
        s[k] == c,
        forall|j: int| 0 <= j < k ==> s[j] != c,
    ensures
        find_char(s, c) == Some(k),
    decreases s.len(),
{
    if k == 0 {
    } else {
        assert(forall|j: int| 0 <= j < k - 1 ==> s.skip(1)[j] == s[j + 1]);
        lemma_find_char_is(s.skip(1), c, k - 1);
    }
}

/// `find_char` is `None` when no index holds `c`.
pub proof fn lemma_find_char_none(s: Seq<char>, c: char)
    requires
        forall|j: int| 0 <= j < s.len() ==> s[j] != c,
    ensures
        find_char(s, c) is None,
    decreases s.len(),
{
    if s.len() > 0 {
        assert(forall|j: int| 0 <= j < s.skip(1).len() ==> s.skip(1)[j] == s[j + 1]);
        lemma_find_char_none(s.skip(1), c);
    }
}

/// One line as `str::lines` yields it: a carriage return directly before the
/// line feed is dropped.
pub open spec fn strip_cr(l: Seq<char>) -> Seq<char> {
    if l.len() > 0 && l.last() == '\r' {
        l.drop_last()
    } else {
        l
    }
}

/// The lines of `s`, with `str::lines` semantics: lines end at `'\n'`, a
/// `'\r'` directly before the `'\n'` is dropped, and a final line terminator
/// produces no empty last line.
pub open spec fn spec_lines(s: Seq<char>) -> Seq<Seq<char>>
    decreases s.len(),
{
    if s.len() == 0 {
        Seq::empty()
    } else {
        match find_char(s, '\n') {
            None => seq![s],
            Some(i) => if 0 <= i && i + 1 <= s.len() {
                seq![strip_cr(s.take(i))] + spec_lines(s.skip(i + 1))
            } else {
                seq![s]
            },
        }
    }
}

/// Split `s` into its lines.
pub fn split_lines(s: &str) -> (r: Vec<String>)
    ensures
        str_views(r@) == spec_lines(s@),
{
    let n = s.unicode_len();
    let mut out: Vec<String> = Vec::new();
    let mut start: usize = 0;
    let mut i: usize = 0;
    proof {
        assert(s@.skip(0) =~= s@);
        assert(str_views(out@) =~= Seq::<Seq<char>>::empty());
        assert(str_views(out@) + spec_lines(s@) =~= spec_lines(s@));
    }
    while i < n
        invariant
            start <= i <= n,
            n == s@.len(),
            spec_lines(s@) == str_views(out@) + spec_lines(s@.skip(start as int)),
            forall|j: int| start <= j < i ==> s@[j] != '\n',
        decreases n - i,
    {
        let c = s.get_char(i);
        if c == '\n' {
            let mut end = i;
            if end > start && s.get_char(end - 1) == '\r' {
                end = end - 1;
            }
            let line = s.substring_char(start, end).to_owned();
            proof {
                let tail = s@.skip(start as int);
                lemma_find_char_is(tail, '\n', i - start);
                assert(tail.take(i - start) =~= s@.subrange(start as int, i as int));
                assert(strip_cr(s@.subrange(start as int, i as int)) =~= line@);
                assert(tail.skip(i - start + 1) =~= s@.skip(i + 1));
                assert(spec_lines(tail) == seq![line@] + spec_lines(s@.skip(i + 1)));
                assert(str_views(out@.push(line)) =~= str_views(out@) + seq![line@]);
                assert(str_views(out@) + (seq![line@] + spec_lines(s@.skip(i + 1)))
                    =~= (str_views(out@) + seq![line@]) + spec_lines(s@.skip(i + 1)));
            }
            out.push(line);
            start = i + 1;
        }
        i = i + 1;
    }
    if start < n {
        let line = s.substring_char(start, n).to_owned();
        proof {
            let tail = s@.skip(start as int);
            assert(forall|j: int| 0 <= j < tail.len() ==> tail[j] == s@[j + start]);
            lemma_find_char_none(tail, '\n');
            assert(tail =~= line@);
            assert(spec_lines(tail) == seq![line@]);
            assert(str_views(out@.push(line)) =~= str_views(out@) + seq![line@]);
        }
        out.push(line);
    } else {
        proof {
            assert(s@.skip(start as int) =~= Seq::<char>::empty());
            assert(str_views(out@) + spec_lines(s@.skip(start as int)) =~= str_views(out@));
        }
    }
    out
}

/// Unicode whitespace, the set `char::is_whitespace` recognizes.
pub open spec fn is_space(c: char) -> bool {
    let u = c as u32;
    (9 <= u && u <= 13) || u == 0x20 || u == 0x85 || u == 0xA0 || u == 0x1680 || (0x2000 <= u
        && u <= 0x200A) || u == 0x2028 || u == 0x2029 || u == 0x202F || u == 0x205F || u == 0x3000
}

/// Decide `is_space` executably.
pub fn is_space_char(c: char) -> (r: bool)
    ensures
        r == is_space(c),
{
    let u = c as u32;
    (9 <= u && u <= 13) || u == 0x20 || u == 0x85 || u == 0xA0 || u == 0x1680 || (0x2000 <= u
        && u <= 0x200A) || u == 0x2028 || u == 0x2029 || u == 0x202F || u == 0x205F || u == 0x3000
}

/// Index of the first whitespace character in `s`, if any.
pub open spec fn find_space(s: Seq<char>) -> Option<int>
    decreases s.len(),
{
    if s.len() == 0 {
        None
    } else if is_space(s[0]) {
        Some(0int)
    } else {
        match find_space(s.skip(1)) {
            None => None,
            Some(i) => Some(i + 1),
        }
    }
}

/// `find_space` returns the least whitespace index, or `None` when there is none.
pub proof fn lemma_find_space_is(s: Seq<char>, k: int)
    requires
        0 <= k < s.len(),
        is_space(s[k]),
        forall|j: int| 0 <= j < k ==> !is_space(s[j]),
    ensures
        find_space(s) == Some(k),
    decreases s.len(),
{
    if k == 0 {
    } else {
        assert(forall|j: int| 0 <= j < s.skip(1).len() ==> s.skip(1)[j] == s[j + 1]);
        lemma_find_space_is(s.skip(1), k - 1);
    }
}

/// `find_space` is `None` when no index holds whitespace.
pub proof fn lemma_find_space_none(s: Seq<char>)
    requires
        forall|j: int| 0 <= j < s.len() ==> !is_space(s[j]),
    ensures
        find_space(s) is None,
    decreases s.len(),
{
    if s.len() > 0 {
        assert(forall|j: int| 0 <= j < s.skip(1).len() ==> s.skip(1)[j] == s[j + 1]);
        lemma_find_space_none(s.skip(1));
    }
}

/// The whitespace-separated tokens of `s`, as `str::split_whitespace` yields
/// them: maximal runs of non-whitespace characters, in order, with no empty
/// tokens.
pub open spec fn spec_split_ws(s: Seq<char>) -> Seq<Seq<char>>
    decreases s.len(),
{
    if s.len() == 0 {
        Seq::empty()
    } else if is_space(s[0]) {
        spec_split_ws(s.skip(1))
    } else {
        match find_space(s) {
            None => seq![s],
            Some(i) => if 0 < i && i <= s.len() {
                seq![s.take(i)] + spec_split_ws(s.skip(i))
            } else {
                seq![s]
            },
        }
    }
}

/// Split `s` into its whitespace-separated tokens.
pub fn split_ws(s: &str) -> (r: Vec<String>)
    ensures
        str_views(r@) == spec_split_ws(s@),
{
    let n = s.unicode_len();
    let mut out: Vec<String> = Vec::new();
    let mut i: usize = 0;
    proof {
        assert(s@.skip(0) =~= s@);
        assert(str_views(out@) =~= Seq::<Seq<char>>::empty());
        assert(str_views(out@) + spec_split_ws(s@) =~= spec_split_ws(s@));
    }
    while i < n
        invariant
            i <= n,
            n == s@.len(),
            spec_split_ws(s@) == str_views(out@) + spec_split_ws(s@.skip(i as int)),
        decreases n - i,
    {
        let c = s.get_char(i);
        if is_space_char(c) {
            proof {
                let tail = s@.skip(i as int);
                assert(tail[0] == s@[i as int]);
                assert(tail.skip(1) =~= s@.skip(i + 1));
            }
            i = i + 1;
        } else {
            let start = i;
            let mut j = i + 1;
            loop
                invariant
                    start < j <= n,
                    n == s@.len(),
                    forall|k: int| start <= k < j ==> !is_space(s@[k]),
                ensures
                    start < j <= n,
                    forall|k: int| start <= k < j ==> !is_space(s@[k]),
                    j == n || is_space(s@[j as int]),
                decreases n - j,
            {
                if j >= n {
                    break ;
                }
                let c2 = s.get_char(j);
                if is_space_char(c2) {
                    break ;
                }
                j = j + 1;
            }
            let token = s.substring_char(start, j).to_owned();
            proof {
                let tail = s@.skip(start as int);
                assert(forall|k: int| 0 <= k < tail.len() ==> tail[k] == s@[k + start]);
                assert(!is_space(tail[0]));
                if j < n {
                    lemma_find_space_is(tail, j - start);
                    assert(tail.take(j - start) =~= s@.subrange(start as int, j as int));
                    assert(tail.skip(j - start) =~= s@.skip(j as int));
                    assert(spec_split_ws(tail) == seq![token@] + spec_split_ws(s@.skip(j as int)));
                } else {
                    lemma_find_space_none(tail);
                    assert(tail =~= token@);
                    assert(s@.skip(j as int) =~= Seq::<char>::empty());
                    assert(spec_split_ws(tail) =~= seq![token@]);
                    assert(seq![token@] + spec_split_ws(s@.skip(j as int)) =~= seq![token@]);
                }
                assert(str_views(out@.push(token)) =~= str_views(out@) + seq![token@]);
                assert(str_views(out@) + (seq![token@] + spec_split_ws(s@.skip(j as int))) =~= (
                str_views(out@) + seq![token@]) + spec_split_ws(s@.skip(j as int)));
            }
            out.push(token);
            i = j;
        }
    }
    proof {
        assert(s@.skip(n as int) =~= Seq::<char>::empty());
        assert(str_views(out@) + spec_split_ws(s@.skip(n as int)) =~= str_views(out@));
    }
    out
}

/// The three-character student-field separator `","` begins at index `i` of `s`.
pub open spec fn sep_at(s: Seq<char>, i: int) -> bool {
    0 <= i && i + 3 <= s.len() && s[i] == '"' && s[i + 1] == ',' && s[i + 2] == '"'
}

/// Index of the first student-field separator in `s`, if any.
pub open spec fn find_sep(s: Seq<char>) -> Option<int>
    decreases s.len(),
{
    if s.len() < 3 {
        None
    } else if sep_at(s, 0) {
        Some(0int)
    } else {
        match find_sep(s.skip(1)) {
            None => None,
            Some(i) => Some(i + 1),
        }
    }
}

/// `find_sep` seen from a witness: the least separator position determines it.
pub proof fn lemma_find_sep_is(s: Seq<char>, k: int)
    requires
        sep_at(s, k),
        forall|j: int| 0 <= j < k ==> !sep_at(s, j),
    ensures
        find_sep(s) == Some(k),
    decreases s.len(),
{
    assert(forall|j: int| 0 <= j < s.skip(1).len() ==> s.skip(1)[j] == s[j + 1]);
    assert(forall|j: int| 0 <= j ==> sep_at(s.skip(1), j) == sep_at(s, j + 1));
    if k == 0 {
    } else {
        lemma_find_sep_is(s.skip(1), k - 1);
    }
}

/// `find_sep` is `None` when no position starts a separator.
pub proof fn lemma_find_sep_none(s: Seq<char>)
    requires
        forall|j: int| 0 <= j ==> !sep_at(s, j),
    ensures
        find_sep(s) is None,
    decreases s.len(),
{
    if s.len() >= 3 {
        assert(forall|j: int| 0 <= j < s.skip(1).len() ==> s.skip(1)[j] == s[j + 1]);
        assert(forall|j: int| 0 <= j ==> sep_at(s.skip(1), j) == sep_at(s, j + 1));
        lemma_find_sep_none(s.skip(1));
    }
}

/// The parts of a student line, split on the literal `","` separator as
/// `str::split` does: non-overlapping matches taken left to right, empty
/// parts kept, and a line with no separator yielding itself as the one part.
pub open spec fn spec_split_record(s: Seq<char>) -> Seq<Seq<char>>
    decreases s.len(),
{
    match find_sep(s) {
        None => seq![s],
        Some(i) => if 0 <= i && i + 3 <= s.len() {
            seq![s.take(i)] + spec_split_record(s.skip(i + 3))
        } else {
            seq![s]
        },
    }
}

/// Split a student line on the `","` separator.
pub fn split_record(s: &str) -> (r: Vec<String>)
    ensures
        str_views(r@) == spec_split_record(s@),
{
    let n = s.unicode_len();
    let mut out: Vec<String> = Vec::new();
    let mut start: usize = 0;
    let mut i: usize = 0;
    proof {
        assert(s@.skip(0) =~= s@);
        assert(str_views(out@) =~= Seq::<Seq<char>>::empty());
        assert(str_views(out@) + spec_split_record(s@) =~= spec_split_record(s@));
    }
    while n >= 3 && i < n - 2
        invariant
            start <= i <= n,
            n == s@.len(),
            spec_split_record(s@) == str_views(out@) + spec_split_record(s@.skip(start as int)),
            forall|j: int| start <= j < i ==> !sep_at(s@, j),
        decreases n - i,
    {
        if s.get_char(i) == '"' && s.get_char(i + 1) == ',' && s.get_char(i + 2) == '"' {
            let part = s.substring_char(start, i).to_owned();
            proof {
                let tail = s@.skip(start as int);
                assert(forall|j: int| 0 <= j < tail.len() ==> tail[j] == s@[j + start]);
                assert(forall|j: int| 0 <= j ==> sep_at(tail, j) == sep_at(s@, j + start));
                lemma_find_sep_is(tail, i - start);
                assert(tail.take(i - start) =~= s@.subrange(start as int, i as int));
                assert(tail.skip(i - start + 3) =~= s@.skip(i + 3));
                assert(spec_split_record(tail) == seq![part@] + spec_split_record(s@.skip(i + 3)));
                assert(str_views(out@.push(part)) =~= str_views(out@) + seq![part@]);
                assert(str_views(out@) + (seq![part@] + spec_split_record(s@.skip(i + 3))) =~= (
                str_views(out@) + seq![part@]) + spec_split_record(s@.skip(i + 3)));
            }
            out.push(part);
            start = i + 3;
            i = start;
        } else {
            i = i + 1;
        }
    }
    let last = s.substring_char(start, n).to_owned();
    proof {
        let tail = s@.skip(start as int);
        assert(forall|j: int| 0 <= j < tail.len() ==> tail[j] == s@[j + start]);
        assert(forall|j: int| 0 <= j ==> sep_at(tail, j) == sep_at(s@, j + start));
        assert(forall|j: int| start <= j ==> !sep_at(s@, j));
        lemma_find_sep_none(tail);
        assert(tail =~= last@);
        assert(spec_split_record(tail) =~= seq![last@]);
        assert(str_views(out@.push(last)) =~= str_views(out@) + seq![last@]);
    }
    out.push(last);
    out
}

/// A character the field trim removes: a double quote or a comma.
pub open spec fn is_quote_comma(c: char) -> bool {
    c == '"' || c == ','
}

/// A field with every leading and trailing quote or comma removed.
pub open spec fn spec_trim(s: Seq<char>) -> Seq<char>
    decreases s.len(),
{
    if s.len() > 0 && is_quote_comma(s[0]) {
        spec_trim(s.skip(1))
    } else if s.len() > 0 && is_quote_comma(s.last()) {
        spec_trim(s.drop_last())
    } else {
        s
    }
}

/// Trim leading and trailing quote and comma characters from a field.
pub fn trim_quotes_commas(s: &str) -> (r: String)
    ensures
        r@ == spec_trim(s@),
{
    let n = s.unicode_len();
    let mut lo: usize = 0;
    proof {
        assert(s@.subrange(0, n as int) =~= s@);
    }
    loop
        invariant
            lo <= n,
            n == s@.len(),
            spec_trim(s@) == spec_trim(s@.subrange(lo as int, n as int)),
        ensures
            lo <= n,
            n == s@.len(),
            spec_trim(s@) == spec_trim(s@.subrange(lo as int, n as int)),
            lo == n || !is_quote_comma(s@[lo as int]),
        decreases n - lo,
    {
        if lo >= n {
            break ;
        }
        let c = s.get_char(lo);
        if !(c == '"' || c == ',') {
            break ;
        }
        proof {
            let t = s@.subrange(lo as int, n as int);
            assert(t[0] == s@[lo as int]);
            assert(t.skip(1) =~= s@.subrange(lo + 1, n as int));
        }
        lo = lo + 1;
    }
    let mut hi: usize = n;
    loop
        invariant
            lo <= hi <= n,
            n == s@.len(),
            spec_trim(s@) == spec_trim(s@.subrange(lo as int, hi as int)),
            lo == n || !is_quote_comma(s@[lo as int]),
        ensures
            lo <= hi <= n,
            n == s@.len(),
            spec_trim(s@) == spec_trim(s@.subrange(lo as int, hi as int)),
            lo == n || !is_quote_comma(s@[lo as int]),
            hi == lo || !is_quote_comma(s@[hi - 1]),
        decreases hi,
    {
        if hi <= lo {
            break ;
        }
        let c = s.get_char(hi - 1);
        if !(c == '"' || c == ',') {
            break ;
        }
        proof {
            let t = s@.subrange(lo as int, hi as int);
            assert(t[0] == s@[lo as int]);
            assert(t.last() == s@[hi - 1]);
            assert(t.drop_last() =~= s@.subrange(lo as int, hi - 1));
        }
        hi = hi - 1;
    }
    let r = s.substring_char(lo, hi).to_owned();
    proof {
        let t = s@.subrange(lo as int, hi as int);
        if t.len() > 0 {
            assert(t[0] == s@[lo as int]);
            assert(t.last() == s@[hi - 1]);
        }
        assert(spec_trim(t) == t);
    }
    r
}

} // verus!
