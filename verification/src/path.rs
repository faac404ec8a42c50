//! Pure path algebra over `/`-separated logical paths: joining, projection,
//! basename and extension, and rendering with a platform separator.

use vstd::prelude::*;

verus! {

/// Index of the last occurrence of `c` in `s`, or `-1` when `c` does not occur.
pub open spec fn last_index_of(s: Seq<char>, c: char) -> int
    decreases s.len(),
{
    if s.len() == 0 {
        -1
    } else if s.last() == c {
        s.len() - 1
    } else {
        last_index_of(s.drop_last(), c)
    }
}

pub proof fn lemma_last_index_of_bounds(s: Seq<char>, c: char)
    ensures
        -1 <= last_index_of(s, c) < s.len(),
    decreases s.len(),
{
    if s.len() == 0 {
    } else if s.last() == c {
    } else {
        lemma_last_index_of_bounds(s.drop_last(), c);
    }
}

/// The suffix of `s` after its last `/`, or all of `s` when it has none.
pub open spec fn basename_of(s: Seq<char>) -> Seq<char> {
    s.subrange(last_index_of(s, '/') + 1, s.len() as int)
}

/// The suffix of the basename from its last `.` on (dot included); empty when
/// the basename has no dot or starts with its only dot.
pub open spec fn extension_of(s: Seq<char>) -> Seq<char> {
    let b = basename_of(s);
    let k = last_index_of(b, '.');
    if k <= 0 {
        Seq::empty()
    } else {
        b.subrange(k, b.len() as int)
    }
}

/// `base`, a separator, then `seg`.
pub open spec fn join_path(base: Seq<char>, seg: Seq<char>) -> Seq<char> {
    base + seq!['/'] + seg
}

/// One projection step: a hidden prefix drops everything before `seg`.
pub open spec fn projected_path(base: Seq<char>, seg: Seq<char>, hide_prefix: bool) -> Seq<char> {
    if hide_prefix {
        seg
    } else {
        join_path(base, seg)
    }
}

/// `p` under `root`, where an empty root stands for the current directory.
pub open spec fn under_root(root: Seq<char>, p: Seq<char>) -> Seq<char> {
    if root.len() == 0 {
        p
    } else {
        join_path(root, p)
    }
}

/// `s` with every `/` replaced by `sep`.
pub open spec fn with_separator(s: Seq<char>, sep: char) -> Seq<char> {
    Seq::new(s.len(), |i: int| if s[i] == '/' { sep } else { s[i] })
}

/// Position of the last occurrence of `c` in `s`, if any.
pub fn find_last(s: &str, c: char) -> (r: Option<usize>)
    ensures
        match r {
            Some(i) => last_index_of(s@, c) == i,
            None => last_index_of(s@, c) == -1,
        },
{
    let n = s.unicode_len();
    let mut i = n;
    proof {
        assert(s@.subrange(0, n as int) =~= s@);
    }
    while i > 0
        invariant
            i <= n,
            n == s@.len(),
            last_index_of(s@, c) == last_index_of(s@.subrange(0, i as int), c),
        decreases i,
    {
        let ch = s.get_char(i - 1);
        if ch == c {
            proof {
                assert(s@.subrange(0, i as int).last() == c);
            }
            return Some(i - 1);
        }
        proof {
            assert(s@.subrange(0, i as int).drop_last() =~= s@.subrange(0, i - 1));
        }
        i = i - 1;
    }
    proof {
        assert(s@.subrange(0, 0) =~= Seq::<char>::empty());
    }
    None
}

/// Whether two string slices hold the same characters.
pub fn str_eq(a: &str, b: &str) -> (r: bool)
    ensures
        r == (a@ == b@),
{
    let na = a.unicode_len();
    let nb = b.unicode_len();
    if na != nb {
        return false;
    }
    let mut i: usize = 0;
    while i < na
        invariant
            i <= na,
            na == a@.len(),
            na == b@.len(),
            forall|j: int| 0 <= j < i ==> a@[j] == b@[j],
        decreases na - i,
    {
        if a.get_char(i) != b.get_char(i) {
            return false;
        }
        i = i + 1;
    }
    proof {
        assert(a@ =~= b@);
    }
    true
}

/// Last path component of `s`.
pub fn basename(s: &str) -> (r: String)
    ensures
        r@ == basename_of(s@),
{
    proof {
        lemma_last_index_of_bounds(s@, '/');
    }
    let n = s.unicode_len();
    match find_last(s, '/') {
        Some(i) => String::from_str(s.substring_char(i + 1, n)),
        None => {
            let r = String::from_str(s);
            proof {
                assert(s@.subrange(0, s@.len() as int) =~= s@);
            }
            r
        },
    }
}

/// Extension of the last path component of `s`, dot included.
pub fn extension(s: &str) -> (r: String)
    ensures
        r@ == extension_of(s@),
{
    let b = basename(s);
    proof {
        lemma_last_index_of_bounds(b@, '.');
    }
    match find_last(b.as_str(), '.') {
        Some(i) => {
            if i > 0 {
                let bn = b.as_str().unicode_len();
                String::from_str(b.as_str().substring_char(i, bn))
            } else {
                String::new()
            }
        },
        None => String::new(),
    }
}

/// Which character separates path components on the command line.
#[derive(Clone, Copy, PartialEq, Eq, Structural, Debug)]
pub enum PathSeparator {
    Unix,
    Windows,
}

impl PathSeparator {
    pub open spec fn sep_char(self) -> char {
        match self {
            PathSeparator::Unix => '/',
            PathSeparator::Windows => '\\',
        }
    }

    /// `s` rendered with this separator in place of `/`.
    pub fn render(self, s: &str) -> (r: String)
        ensures
            r@ == with_separator(s@, self.sep_char()),
    {
        match self {
            PathSeparator::Unix => {
                let r = String::from_str(s);
                proof {
                    assert(r@ =~= with_separator(s@, '/'));
                }
                r
            },
            PathSeparator::Windows => {
                let n = s.unicode_len();
                let mut r = String::new();
                let mut i: usize = 0;
                while i < n
                    invariant
                        i <= n,
                        n == s@.len(),
                        r@ == with_separator(s@.subrange(0, i as int), '\\'),
                    decreases n - i,
                {
                    let ch = s.get_char(i);
                    if ch == '/' {
                        r.append("\\");
                    } else {
                        r.append(s.substring_char(i, i + 1));
                    }
                    proof {
                        reveal_strlit("\\");
                        assert(r@ =~= with_separator(s@.subrange(0, i + 1), '\\'));
                    }
                    i = i + 1;
                }
                proof {
                    assert(s@.subrange(0, n as int) =~= s@);
                }
                r
            },
        }
    }
}

/// `base`, `/`, then `seg`.
pub fn join(base: &str, seg: &str) -> (r: String)
    ensures
        r@ == join_path(base@, seg@),
{
    let mut r = String::from_str(base);
    r.append("/");
    r.append(seg);
    proof {
        reveal_strlit("/");
        assert(r@ =~= join_path(base@, seg@));
    }
    r
}

} // verus!
