//! A plain string model of file paths: references are resolved against a
//! base directory by joining with a `/` separator, and the parent of a path
//! is everything before its last separator.  Every reference in the tree is
//! resolved against the RUN file's own directory.

use vstd::prelude::*;

verus! {

/// The path a reference line names: the line joined to the base directory
/// with a single `/`.  An empty base leaves the line as it is, so a RUN
/// file named without a directory resolves its references in place.
pub open spec fn spec_resolve(base: Seq<char>, line: Seq<char>) -> Seq<char> {
    if base.len() == 0 {
        line
    } else if base.last() == '/' {
        base + line
    } else {
        base + seq!['/'] + line
    }
}

/// Join a reference line to a base directory.
pub fn resolve(base: &str, line: &str) -> (r: String)
    ensures
        r@ == spec_resolve(base@, line@),
{
    let n = base.unicode_len();
    if n == 0 {
        return line.to_owned();
    }
    if base.get_char(n - 1) == '/' {
        base.to_owned().concat(line)
    } else {
        proof {
            reveal_strlit("/");
            assert(("/")@ =~= seq!['/']);
        }
        let joined = base.to_owned().concat("/").concat(line);
        proof {
            assert(joined@ =~= base@ + seq!['/'] + line@);
        }
        joined
    }
}

/// Index of the last occurrence of `c` in `s`, if any.
pub open spec fn rfind_char(s: Seq<char>, c: char) -> Option<int>
    decreases s.len(),
{
    if s.len() == 0 {
        None
    } else if s.last() == c {
        Some(s.len() - 1)
    } else {
        rfind_char(s.drop_last(), c)
    }
}

/// `rfind_char` seen from a witness: the greatest index holding `c`
/// determines it.
pub proof fn lemma_rfind_char_is(s: Seq<char>, c: char, k: int)
    requires
        0 <= k < s.len(),
        s[k] == c,
        forall|j: int| k < j < s.len() ==> s[j] != c,
    ensures
        rfind_char(s, c) == Some(k),
    decreases s.len(),
{
    if k == s.len() - 1 {
    } else {
        assert(forall|j: int| 0 <= j < s.drop_last().len() ==> s.drop_last()[j] == s[j]);
        lemma_rfind_char_is(s.drop_last(), c, k);
    }
}

/// `rfind_char` is `None` when no index holds `c`.
pub proof fn lemma_rfind_char_none(s: Seq<char>, c: char)
    requires
        forall|j: int| 0 <= j < s.len() ==> s[j] != c,
    ensures
        rfind_char(s, c) is None,
    decreases s.len(),
{
    if s.len() > 0 {
        assert(forall|j: int| 0 <= j < s.drop_last().len() ==> s.drop_last()[j] == s[j]);
        lemma_rfind_char_none(s.drop_last(), c);
    }
}

/// The parent directory of a path: everything before the last `/`.  A bare
/// file name has the empty parent (its own directory); the root `/` and the
/// empty path have none.  A path whose last separator is its first
/// character keeps that one separator as its parent.
pub open spec fn spec_parent(p: Seq<char>) -> Option<Seq<char>> {
    if p.len() == 0 {
        None
    } else {
        match rfind_char(p, '/') {
            None => Some(Seq::empty()),
            Some(i) => if p.len() == 1 {
                None
            } else if i == 0 {
                Some(p.take(1))
            } else {
                Some(p.take(i))
            },
        }
    }
}

/// Compute the parent directory of a path.
pub fn parent_dir(p: &str) -> (r: Option<String>)
    ensures
        r is Some <==> spec_parent(p@) is Some,
        r matches Some(d) ==> spec_parent(p@) == Some(d@),
{
    let n = p.unicode_len();
    if n == 0 {
        return None;
    }
    let mut i: usize = n;
    loop
        invariant
            0 <= i <= n,
            n == p@.len(),
            forall|j: int| i <= j < n ==> p@[j] != '/',
        ensures
            0 <= i <= n,
            forall|j: int| i <= j < n ==> p@[j] != '/',
            i == 0 || p@[i - 1] == '/',
        decreases i,
    {
        if i == 0 {
            break ;
        }
        if p.get_char(i - 1) == '/' {
            break ;
        }
        i = i - 1;
    }
    if i == 0 {
        proof {
            lemma_rfind_char_none(p@, '/');
        }
        Some(String::new())
    } else {
        let k = i - 1;
        proof {
            lemma_rfind_char_is(p@, '/', k as int);
        }
        if n == 1 {
            None
        } else if k == 0 {
            Some(p.substring_char(0, 1).to_owned())
        } else {
            Some(p.substring_char(0, k).to_owned())
        }
    }
}

} // verus!
