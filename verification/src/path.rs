//! Canonical filesystem paths, held as plain text.
//!
//! Every path the core works with is canonical: absolute, `/`-separated,
//! without a trailing separator (except the root `/` itself).  The core never
//! touches the filesystem, so a path is just its text; the layer around the
//! crate canonicalizes paths before handing them in.

use vstd::multiset::Multiset;
use vstd::prelude::*;

verus! {

/// A canonical filesystem path.
#[derive(Debug, Hash)]
pub struct Path {
    pub chars: Vec<char>,
}

impl View for Path {
    type V = Seq<char>;

    open spec fn view(&self) -> Seq<char> {
        self.chars@
    }
}

/// Lexicographic order on path text, by code point.
pub open spec fn lex_le(a: Seq<char>, b: Seq<char>) -> bool
    decreases a.len(),
{
    if a.len() == 0 {
        true
    } else if b.len() == 0 {
        false
    } else if a[0] as u32 == b[0] as u32 {
        lex_le(a.skip(1), b.skip(1))
    } else {
        (a[0] as u32) < (b[0] as u32)
    }
}

/// The texts of a sequence of paths.
pub open spec fn path_views(s: Seq<Path>) -> Seq<Seq<char>> {
    s.map_values(|p: Path| p@)
}

/// Paths in weakly increasing lexicographic order.
pub open spec fn sorted_le(s: Seq<Path>) -> bool {
    forall|i: int, j: int| 0 <= i < j < s.len() ==> lex_le(s[i]@, s[j]@)
}

pub proof fn lemma_lex_le_refl(a: Seq<char>)
    ensures
        lex_le(a, a),
    decreases a.len(),
{
    if a.len() > 0 {
        lemma_lex_le_refl(a.skip(1));
    }
}

pub proof fn lemma_lex_le_total(a: Seq<char>, b: Seq<char>)
    ensures
        lex_le(a, b) || lex_le(b, a),
    decreases a.len(),
{
    if a.len() == 0 || b.len() == 0 {
    } else if a[0] as u32 == b[0] as u32 {
        lemma_lex_le_total(a.skip(1), b.skip(1));
    }
}

pub proof fn lemma_lex_le_trans(a: Seq<char>, b: Seq<char>, c: Seq<char>)
    requires
        lex_le(a, b),
        lex_le(b, c),
    ensures
        lex_le(a, c),
    decreases a.len(),
{
    if a.len() == 0 || b.len() == 0 || c.len() == 0 {
    } else if a[0] as u32 == b[0] as u32 && b[0] as u32 == c[0] as u32 {
        lemma_lex_le_trans(a.skip(1), b.skip(1), c.skip(1));
    }
}

/// Index of the last `/` in `s`, or `-1` if there is none.
pub open spec fn last_sep(s: Seq<char>) -> int
    decreases s.len(),
{
    if s.len() == 0 {
        -1
    } else if s[s.len() - 1] == '/' {
        s.len() - 1
    } else {
        last_sep(s.drop_last())
    }
}

/// The parent of a canonical path: the text up to (but not including) the last
/// separator, or the root when the last separator is the leading one.  The
/// root itself, and text without any separator, have no parent.
pub open spec fn parent_seq(s: Seq<char>) -> Option<Seq<char>> {
    if s.len() <= 1 {
        None
    } else if last_sep(s) < 0 {
        None
    } else if last_sep(s) == 0 {
        Some(s.subrange(0, 1))
    } else {
        Some(s.subrange(0, last_sep(s)))
    }
}

/// The final component of a canonical path: the text after the last
/// separator.  The root has no file name.
pub open spec fn file_name_seq(s: Seq<char>) -> Option<Seq<char>> {
    if s.len() == 0 {
        None
    } else if last_sep(s) == s.len() - 1 {
        None
    } else if last_sep(s) < 0 {
        Some(s)
    } else {
        Some(s.subrange(last_sep(s) + 1, s.len() as int))
    }
}

pub proof fn lemma_last_sep(s: Seq<char>)
    ensures
        -1 <= last_sep(s) < s.len(),
        last_sep(s) >= 0 ==> s[last_sep(s)] == '/',
        forall|j: int| last_sep(s) < j < s.len() ==> s[j] != '/',
    decreases s.len(),
{
    if s.len() == 0 {
    } else if s[s.len() - 1] == '/' {
    } else {
        lemma_last_sep(s.drop_last());
        assert(forall|j: int| 0 <= j < s.len() - 1 ==> s.drop_last()[j] == s[j]);
    }
}

/// A path's parent is strictly shorter than the path.
pub proof fn lemma_parent_shorter(s: Seq<char>)
    ensures
        parent_seq(s) matches Some(p) ==> p.len() < s.len(),
{
    lemma_last_sep(s);
}

/// A clone of a character vector, kept element for element.
pub fn clone_chars(v: &Vec<char>) -> (r: Vec<char>)
    ensures
        r@ == v@,
{
    let mut r: Vec<char> = Vec::new();
    let mut i: usize = 0;
    while i < v.len()
        invariant
            i <= v.len(),
            r@ == v@.subrange(0, i as int),
        decreases v.len() - i,
    {
        r.push(v[i]);
        assert(r@ == v@.subrange(0, i + 1 as int));
        i = i + 1;
    }
    assert(v@.subrange(0, v.len() as int) == v@);
    r
}

impl Path {
    pub fn new(chars: Vec<char>) -> (r: Path)
        ensures
            r@ == chars@,
    {
        Path { chars }
    }

    /// True when the path starts at the root.
    pub fn is_absolute(&self) -> (r: bool)
        ensures
            r <==> self@.len() > 0 && self@[0] == '/',
    {
        self.chars.len() > 0 && self.chars[0] == '/'
    }

    /// Lexicographic comparison by code point: `self` at or before `other`.
    pub fn le(&self, other: &Path) -> (r: bool)
        ensures
            r == lex_le(self@, other@),
    {
        let a = &self.chars;
        let b = &other.chars;
        let n = if a.len() < b.len() {
            a.len()
        } else {
            b.len()
        };
        let mut i: usize = 0;
        assert(a@.skip(0) =~= a@);
        assert(b@.skip(0) =~= b@);
        while i < n
            invariant
                0 <= i <= n,
                lex_le(a@, b@) == lex_le(a@.skip(i as int), b@.skip(i as int)),
            decreases n - i,
        {
            let x = a[i] as u32;
            let y = b[i] as u32;
            if x != y {
                assert(a@.skip(i as int)[0] == a@[i as int]);
                assert(b@.skip(i as int)[0] == b@[i as int]);
                return x < y;
            }
            assert(a@.skip(i as int).skip(1) =~= a@.skip(i + 1 as int));
            assert(b@.skip(i as int).skip(1) =~= b@.skip(i + 1 as int));
            i = i + 1;
        }
        assert(a@.skip(i as int).len() == a@.len() - i);
        assert(b@.skip(i as int).len() == b@.len() - i);
        a.len() <= b.len()
    }

    /// The parent directory of this path, if it has one.
    pub fn parent(&self) -> (r: Option<Path>)
        ensures
            match r {
                Some(p) => parent_seq(self@) == Some(p@),
                None => parent_seq(self@) is None,
            },
    {
        proof {
            lemma_last_sep(self@);
        }
        let n = self.chars.len();
        if n <= 1 {
            return None;
        }
        let mut j: usize = n;
        while j > 0
            invariant
                j <= n,
                n == self@.len(),
                forall|k: int| j <= k < n ==> self@[k] != '/',
            decreases j,
        {
            if self.chars[j - 1] == '/' {
                proof {
                    lemma_last_sep(self@);
                    assert(last_sep(self@) == j - 1);
                }
                if j - 1 == 0 {
                    let mut root: Vec<char> = Vec::new();
                    root.push('/');
                    assert(root@ =~= self@.subrange(0, 1));
                    return Some(Path { chars: root });
                }
                let p = prefix_chars(&self.chars, j - 1);
                return Some(Path { chars: p });
            }
            j = j - 1;
        }
        proof {
            lemma_last_sep(self@);
            assert(last_sep(self@) < 0);
        }
        None
    }

    /// The final component of this path, if it has one.
    pub fn file_name(&self) -> (r: Option<Vec<char>>)
        ensures
            match r {
                Some(f) => file_name_seq(self@) == Some(f@),
                None => file_name_seq(self@) is None,
            },
    {
        proof {
            lemma_last_sep(self@);
        }
        let n = self.chars.len();
        if n == 0 {
            return None;
        }
        if self.chars[n - 1] == '/' {
            return None;
        }
        let mut j: usize = n;
        while j > 0
            invariant
                j <= n,
                n == self@.len(),
                forall|k: int| j <= k < n ==> self@[k] != '/',
            decreases j,
        {
            if self.chars[j - 1] == '/' {
                proof {
                    lemma_last_sep(self@);
                    assert(last_sep(self@) == j - 1);
                }
                let f = suffix_chars(&self.chars, j);
                return Some(f);
            }
            j = j - 1;
        }
        proof {
            lemma_last_sep(self@);
            assert(last_sep(self@) < 0);
        }
        Some(clone_chars(&self.chars))
    }
}

/// True when the two texts are equal, character for character.
pub fn chars_equal(a: &Vec<char>, b: &Vec<char>) -> (r: bool)
    ensures
        r <==> a@ == b@,
{
    if a.len() != b.len() {
        assert(a@ != b@);
        return false;
    }
    let mut i: usize = 0;
    while i < a.len()
        invariant
            i <= a@.len(),
            a@.len() == b@.len(),
            forall|k: int| 0 <= k < i ==> a@[k] == b@[k],
        decreases a@.len() - i,
    {
        if a[i] != b[i] {
            assert(a@ != b@);
            return false;
        }
        i = i + 1;
    }
    assert(a@ =~= b@);
    true
}

/// The first `n` characters of `v`.
pub fn prefix_chars(v: &Vec<char>, n: usize) -> (r: Vec<char>)
    requires
        n <= v@.len(),
    ensures
        r@ == v@.subrange(0, n as int),
{
    let mut r: Vec<char> = Vec::new();
    let mut i: usize = 0;
    while i < n
        invariant
            i <= n <= v@.len(),
            r@ == v@.subrange(0, i as int),
        decreases n - i,
    {
        r.push(v[i]);
        assert(r@ == v@.subrange(0, i + 1 as int));
        i = i + 1;
    }
    r
}

/// The characters of `v` from position `n` on.
pub fn suffix_chars(v: &Vec<char>, n: usize) -> (r: Vec<char>)
    requires
        n <= v@.len(),
    ensures
        r@ == v@.subrange(n as int, v@.len() as int),
{
    let mut r: Vec<char> = Vec::new();
    let mut i: usize = n;
    while i < v.len()
        invariant
            n <= i <= v@.len(),
            r@ == v@.subrange(n as int, i as int),
        decreases v@.len() - i,
    {
        r.push(v[i]);
        assert(r@ == v@.subrange(n as int, i + 1 as int));
        i = i + 1;
    }
    r
}

/// Sorts paths into weakly increasing lexicographic order.  The result holds
/// exactly the given path texts.
pub fn sort_paths(v: Vec<Path>) -> (r: Vec<Path>)
    ensures
        sorted_le(r@),
        path_views(r@).to_multiset() == path_views(v@).to_multiset(),
{
    broadcast use vstd::seq_lib::group_to_multiset_ensures;
    broadcast use vstd::multiset::group_multiset_axioms;

    let mut rem = v;
    let mut out: Vec<Path> = Vec::new();
    proof {
        assert(path_views(out@) =~= Seq::<Seq<char>>::empty());
        assert(path_views(out@).to_multiset() =~= Multiset::<Seq<char>>::empty());
        assert(path_views(out@).to_multiset().add(path_views(rem@).to_multiset()) =~= path_views(
            v@,
        ).to_multiset());
    }
    while rem.len() > 0
        invariant
            path_views(out@).to_multiset().add(path_views(rem@).to_multiset()) == path_views(
                v@,
            ).to_multiset(),
            sorted_le(out@),
            forall|i: int, j: int|
                0 <= i < out@.len() && 0 <= j < rem@.len() ==> lex_le(out@[i]@, rem@[j]@),
        decreases rem.len(),
    {
        let mut mi: usize = 0;
        let mut k: usize = 1;
        proof {
            lemma_lex_le_refl(rem@[0]@);
        }
        while k < rem.len()
            invariant
                0 <= mi < rem@.len(),
                k <= rem@.len(),
                forall|t: int| 0 <= t < k ==> lex_le(rem@[mi as int]@, rem@[t]@),
            decreases rem@.len() - k,
        {
            if rem[k].le(&rem[mi]) {
                proof {
                    assert forall|t: int| 0 <= t < k implies lex_le(
                        rem@[k as int]@,
                        rem@[t]@,
                    ) by {
                        lemma_lex_le_trans(rem@[k as int]@, rem@[mi as int]@, rem@[t]@);
                    }
                    lemma_lex_le_refl(rem@[k as int]@);
                }
                mi = k;
            } else {
                proof {
                    lemma_lex_le_total(rem@[k as int]@, rem@[mi as int]@);
                }
            }
            k = k + 1;
        }
        let ghost old_rem = rem@;
        let ghost old_out = out@;
        let x = rem.remove(mi);
        out.push(x);
        proof {
            assert(path_views(rem@) =~= path_views(old_rem).remove(mi as int));
            assert(path_views(out@) =~= path_views(old_out).push(x@));
            assert(path_views(old_rem)[mi as int] == x@);
            assert(path_views(old_rem).contains(x@));
            assert(path_views(old_rem).to_multiset().count(x@) > 0);
            assert(path_views(out@).to_multiset().add(path_views(rem@).to_multiset())
                =~= path_views(old_out).to_multiset().add(path_views(old_rem).to_multiset()));
            assert forall|i: int, j: int|
                0 <= i < out@.len() && 0 <= j < rem@.len() implies lex_le(
                out@[i]@,
                rem@[j]@,
            ) by {
                if j < mi {
                    assert(rem@[j] == old_rem[j]);
                } else {
                    assert(rem@[j] == old_rem[j + 1]);
                }
            }
        }
    }
    proof {
        assert(path_views(rem@) =~= Seq::<Seq<char>>::empty());
        assert(path_views(rem@).to_multiset() =~= Multiset::<Seq<char>>::empty());
        assert(path_views(out@).to_multiset() =~= path_views(v@).to_multiset());
    }
    out
}

impl Clone for Path {
    /// A clone keeps the path's text.
    fn clone(&self) -> (r: Self)
        ensures
            r@ == self@,
    {
        Path { chars: clone_chars(&self.chars) }
    }
}

impl PartialEq for Path {
    fn eq(&self, other: &Path) -> (r: bool) {
        let a = &self.chars;
        let b = &other.chars;
        if a.len() != b.len() {
            assert(a@ != b@);
            return false;
        }
        let mut i: usize = 0;
        while i < a.len()
            invariant
                i <= a@.len(),
                a@.len() == b@.len(),
                forall|k: int| 0 <= k < i ==> a@[k] == b@[k],
            decreases a@.len() - i,
        {
            if a[i] != b[i] {
                assert(a@ != b@);
                return false;
            }
            i = i + 1;
        }
        assert(a@ =~= b@);
        true
    }
}

impl vstd::std_specs::cmp::PartialEqSpecImpl for Path {
    open spec fn obeys_eq_spec() -> bool {
        true
    }

    open spec fn eq_spec(&self, other: &Path) -> bool {
        self@ == other@
    }
}

impl Eq for Path {

}

} // verus!
