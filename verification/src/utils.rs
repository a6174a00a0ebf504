//! Path normalization and the small string routines the pipeline is built on.

use vstd::prelude::*;

verus! {

/// A path once its trailing slashes are collapsed: every trailing `'/'` is
/// dropped while more than one character remains, so `"/"` alone survives.
pub open spec fn normalize_path_spec(p: Seq<char>) -> Seq<char>
    decreases p.len(),
{
    if p.len() > 1 && p.last() == '/' {
        normalize_path_spec(p.drop_last())
    } else {
        p
    }
}

/// Normalizes a path by removing trailing slashes (except for root "/").
pub fn normalize_path<'a>(path: &'a str) -> (r: &'a str)
    ensures
        r@ == normalize_path_spec(path@),
    decreases path@.len(),
{
    let n = path.unicode_len();
    if n > 1 && path.get_char(n - 1) == '/' {
        let shorter = path.substring_char(0, n - 1);
        proof {
            assert(shorter@ =~= path@.drop_last());
        }
        normalize_path(shorter)
    } else {
        path
    }
}

/// Normalization is idempotent: collapsing trailing slashes a second time
/// changes nothing.
pub proof fn lemma_normalize_idempotent(p: Seq<char>)
    ensures
        normalize_path_spec(normalize_path_spec(p)) == normalize_path_spec(p),
    decreases p.len(),
{
    if p.len() > 1 && p.last() == '/' {
        lemma_normalize_idempotent(p.drop_last());
    }
}

/// Normalization fixes only the root exception: the result is a prefix of
/// the input, everything dropped was a `'/'`, no trailing `'/'` survives in
/// a result longer than one character, and a non-empty input keeps at least
/// its first character — so `"/"` maps to `"/"` and nothing collapses to the
/// empty path.  Together these pin the function completely.
pub proof fn lemma_normalize_characterization(p: Seq<char>)
    ensures
        normalize_path_spec(p).len() <= p.len(),
        normalize_path_spec(p) == p.take(normalize_path_spec(p).len() as int),
        forall|j: int| normalize_path_spec(p).len() <= j < p.len() ==> p[j] == '/',
        normalize_path_spec(p).len() > 1 ==> normalize_path_spec(p).last() != '/',
        p.len() > 0 ==> normalize_path_spec(p).len() >= 1,
    decreases p.len(),
{
    if p.len() > 1 && p.last() == '/' {
        lemma_normalize_characterization(p.drop_last());
        let m = normalize_path_spec(p).len() as int;
        assert(p.drop_last().take(m) =~= p.take(m));
        assert forall|j: int| m <= j < p.len() implies p[j] == '/' by {
            if j < p.len() - 1 {
                assert(p.drop_last()[j] == p[j]);
            }
        }
    } else {
        assert(normalize_path_spec(p) =~= p.take(p.len() as int));
    }
}

/// Whether the two strings hold the same characters.
pub fn str_eq(a: &str, b: &str) -> (r: bool)
    ensures
        r == (a@ == b@),
{
    let na = a.unicode_len();
    let nb = b.unicode_len();
    if na != nb {
        return false;
    }
    let mut i: usize = 0;
    while i < na
        invariant
            i <= na,
            na == a@.len(),
            na == b@.len(),
            forall|j: int| 0 <= j < i ==> a@[j] == b@[j],
        decreases na - i,
    {
        if a.get_char(i) != b.get_char(i) {
            return false;
        }
        i = i + 1;
    }
    proof {
        assert(a@ =~= b@);
    }
    true
}

/// The needle occurs in the haystack starting at character position `i`.
pub open spec fn str_contains_at(h: Seq<char>, n: Seq<char>, i: int) -> bool {
    &&& 0 <= i
    &&& i + n.len() <= h.len()
    &&& h.subrange(i, i + n.len()) == n
}

/// The needle occurs somewhere in the haystack.
pub open spec fn str_contains(h: Seq<char>, n: Seq<char>) -> bool {
    exists|i: int| str_contains_at(h, n, i)
}

/// Whether the needle matches the haystack at character position `i`.
fn match_at(h: &str, n: &str, i: usize) -> (r: bool)
    requires
        i + n@.len() <= h@.len(),
    ensures
        r == str_contains_at(h@, n@, i as int),
{
    let hl = h.unicode_len();
    let nl = n.unicode_len();
    let mut j: usize = 0;
    while j < nl
        invariant
            j <= nl,
            nl == n@.len(),
            hl == h@.len(),
            i + nl <= hl,
            forall|k: int| 0 <= k < j ==> h@[i + k] == n@[k],
        decreases nl - j,
    {
        if h.get_char(i + j) != n.get_char(j) {
            proof {
                assert(!str_contains_at(h@, n@, i as int)) by {
                    if h@.subrange(i as int, i + n@.len()) == n@ {
                        assert(h@.subrange(i as int, i + n@.len())[j as int] == n@[j as int]);
                    }
                }
            }
            return false;
        }
        j = j + 1;
    }
    proof {
        assert(h@.subrange(i as int, i + n@.len()) =~= n@);
    }
    true
}

/// Substring containment, the deliberately naive matching the content-type
/// resolver applies to `Accept`-style headers.
pub fn contains_str(h: &str, n: &str) -> (r: bool)
    ensures
        r == str_contains(h@, n@),
{
    let hl = h.unicode_len();
    let nl = n.unicode_len();
    if nl > hl {
        return false;
    }
    if nl == 0 {
        proof {
            assert(str_contains_at(h@, n@, 0)) by {
                assert(h@.subrange(0, 0) =~= n@);
            }
        }
        return true;
    }
    let mut i: usize = 0;
    while i <= hl - nl
        invariant
            1 <= nl <= hl,
            hl == h@.len(),
            nl == n@.len(),
            i <= hl - nl + 1,
            forall|k: int| 0 <= k < i ==> !str_contains_at(h@, n@, k),
        decreases hl - nl - i + 1,
    {
        if match_at(h, n, i) {
            return true;
        }
        i = i + 1;
    }
    false
}

/// The character position of the last occurrence of `c` in `s`, or `-1`.
pub open spec fn last_index_of(s: Seq<char>, c: char) -> int
    decreases s.len(),
{
    if s.len() == 0 {
        -1
    } else if s.last() == c {
        s.len() - 1
    } else {
        last_index_of(s.drop_last(), c)
    }
}

pub proof fn lemma_last_index_of_props(s: Seq<char>, c: char)
    ensures
        -1 <= last_index_of(s, c) < s.len(),
        last_index_of(s, c) >= 0 ==> s[last_index_of(s, c)] == c,
        forall|j: int| last_index_of(s, c) < j < s.len() ==> s[j] != c,
    decreases s.len(),
{
    if s.len() > 0 && s.last() != c {
        lemma_last_index_of_props(s.drop_last(), c);
        assert forall|j: int| last_index_of(s, c) < j < s.len() implies s[j] != c by {
            if j < s.len() - 1 {
                assert(s.drop_last()[j] == s[j]);
            }
        }
    }
}

proof fn lemma_last_index_of_found(s: Seq<char>, c: char, k: int)
    requires
        0 <= k < s.len(),
        s[k] == c,
        forall|j: int| k < j < s.len() ==> s[j] != c,
    ensures
        last_index_of(s, c) == k,
    decreases s.len(),
{
    if k < s.len() - 1 {
        assert(s.drop_last()[k] == s[k]);
        lemma_last_index_of_found(s.drop_last(), c, k);
    }
}

proof fn lemma_last_index_of_none(s: Seq<char>, c: char)
    requires
        forall|j: int| 0 <= j < s.len() ==> s[j] != c,
    ensures
        last_index_of(s, c) == -1,
    decreases s.len(),
{
    if s.len() > 0 {
        lemma_last_index_of_none(s.drop_last(), c);
    }
}

/// The character position just past the last occurrence of `c`, or `None`.
pub fn find_last(s: &str, c: char) -> (r: Option<usize>)
    ensures
        match r {
            Some(i) => last_index_of(s@, c) == i as int,
            None => last_index_of(s@, c) == -1,
        },
{
    let n = s.unicode_len();
    let mut i: usize = n;
    while i > 0
        invariant
            i <= n,
            n == s@.len(),
            forall|j: int| i <= j < n ==> s@[j] != c,
        decreases i,
    {
        if s.get_char(i - 1) == c {
            proof {
                lemma_last_index_of_found(s@, c, i - 1);
            }
            return Some(i - 1);
        }
        i = i - 1;
    }
    proof {
        lemma_last_index_of_none(s@, c);
    }
    None
}

/// One step of splitting a path into non-empty segments: a `'/'` closes the
/// current segment if it is non-empty; any other character extends it.
pub open spec fn seg_step(acc: (Seq<Seq<char>>, Seq<char>), c: char) -> (Seq<Seq<char>>, Seq<
    char,
>) {
    if c == '/' {
        if acc.1.len() > 0 {
            (acc.0.push(acc.1), Seq::empty())
        } else {
            acc
        }
    } else {
        (acc.0, acc.1.push(c))
    }
}

pub open spec fn seg_state(p: Seq<char>) -> (Seq<Seq<char>>, Seq<char>)
    decreases p.len(),
{
    if p.len() == 0 {
        (Seq::empty(), Seq::empty())
    } else {
        seg_step(seg_state(p.drop_last()), p.last())
    }
}

/// The non-empty `'/'`-separated segments of a path, in order.
pub open spec fn split_segments(p: Seq<char>) -> Seq<Seq<char>> {
    let st = seg_state(p);
    if st.1.len() > 0 {
        st.0.push(st.1)
    } else {
        st.0
    }
}

/// Segments joined back with `'/'` between them.
pub open spec fn join_segments(segs: Seq<Seq<char>>) -> Seq<char>
    decreases segs.len(),
{
    if segs.len() == 0 {
        Seq::empty()
    } else if segs.len() == 1 {
        segs[0]
    } else {
        join_segments(segs.drop_last()) + seq!['/'] + segs[segs.len() - 1]
    }
}

/// Joining a longer front of the same segment list only appends: the join
/// of the first `i` segments is a prefix of the join of the first `j`, and
/// strictly shorter when `i < j` (the separator alone already lengthens it).
pub proof fn lemma_join_take_prefix(segs: Seq<Seq<char>>, i: int, j: int)
    requires
        1 <= i <= j <= segs.len(),
    ensures
        join_segments(segs.take(i)).is_prefix_of(join_segments(segs.take(j))),
        i < j ==> join_segments(segs.take(i)).len() < join_segments(segs.take(j)).len(),
    decreases j - i,
{
    if i < j {
        lemma_join_take_prefix(segs, i, j - 1);
        let a = join_segments(segs.take(j - 1));
        let b = join_segments(segs.take(j));
        assert(segs.take(j).drop_last() =~= segs.take(j - 1));
        assert(segs.take(j)[j - 1] == segs[j - 1]);
        assert(b == a + seq!['/'] + segs[j - 1]);
        let c = join_segments(segs.take(i));
        assert(c.is_prefix_of(b)) by {
            assert(b.subrange(0, c.len() as int) =~= c);
        }
    }
}

/// How many strict ancestor directories a path has.
pub open spec fn parent_count(p: Seq<char>) -> int {
    let n = split_segments(p).len();
    if n > 1 {
        n - 1
    } else {
        0
    }
}

/// The `i`-th ancestor path, counted from the topmost: `'/'` followed by the
/// first `i` segments joined with `'/'`.
pub open spec fn parent_path_spec(p: Seq<char>, i: int) -> Seq<char> {
    seq!['/'] + join_segments(split_segments(p).take(i))
}

/// Splits a path into its non-empty `'/'`-separated segments.
pub fn split_path_segments(path: &str) -> (r: Vec<String>)
    ensures
        r@.map_values(|s: String| s@) == split_segments(path@),
{
    let n = path.unicode_len();
    let mut segs: Vec<String> = Vec::new();
    let mut cur: String = String::new();
    let mut i: usize = 0;
    while i < n
        invariant
            i <= n,
            n == path@.len(),
            segs@.map_values(|s: String| s@) == seg_state(path@.take(i as int)).0,
            cur@ == seg_state(path@.take(i as int)).1,
        decreases n - i,
    {
        proof {
            assert(path@.take(i + 1).drop_last() =~= path@.take(i as int));
            assert(path@.take(i + 1).last() == path@[i as int]);
        }
        let ghost segs0: Seq<Seq<char>> = segs@.map_values(|s: String| s@);
        let ghost cur0: Seq<char> = cur@;
        let c = path.get_char(i);
        if c == '/' {
            if !cur.as_str().is_empty() {
                segs.push(cur);
                cur = String::new();
                proof {
                    assert(segs@.map_values(|s: String| s@) =~= segs0.push(cur0));
                }
            }
        } else {
            let piece = path.substring_char(i, i + 1);
            cur.append(piece);
            proof {
                assert(cur@ =~= cur0.push(path@[i as int]));
            }
        }
        i = i + 1;
    }
    proof {
        assert(path@.take(n as int) =~= path@);
    }
    if !cur.as_str().is_empty() {
        let ghost segs0: Seq<Seq<char>> = segs@.map_values(|s: String| s@);
        segs.push(cur);
        proof {
            assert(segs@.map_values(|s: String| s@) =~= segs0.push(seg_state(path@).1));
        }
    }
    segs
}

/// The ancestor path made of the first `i` segments.
pub fn parent_path(segs: &Vec<String>, i: usize) -> (r: String)
    requires
        i <= segs@.len(),
    ensures
        r@ == seq!['/'] + join_segments(segs@.map_values(|s: String| s@).take(i as int)),
{
    let mut out: String = "/".to_owned();
    proof {
        reveal_strlit("/");
        assert(out@ =~= seq!['/'] + join_segments(
            segs@.map_values(|s: String| s@).take(0),
        ));
    }
    let mut j: usize = 0;
    while j < i
        invariant
            j <= i,
            i <= segs@.len(),
            out@ == seq!['/'] + join_segments(segs@.map_values(|s: String| s@).take(j as int)),
        decreases i - j,
    {
        let ghost sv: Seq<Seq<char>> = segs@.map_values(|s: String| s@);
        let ghost out0: Seq<char> = out@;
        if j > 0 {
            out.append("/");
        }
        out.append(segs[j].as_str());
        proof {
            reveal_strlit("/");
            assert(sv.take(j + 1).drop_last() =~= sv.take(j as int));
            assert(sv.take(j + 1)[j as int] == sv[j as int]);
            if j == 0 {
                assert(join_segments(sv.take(1)) == sv.take(1)[0]);
                assert(out@ =~= seq!['/'] + join_segments(sv.take(1)));
            } else {
                assert(join_segments(sv.take(j + 1)) == join_segments(sv.take(j as int))
                    + seq!['/'] + sv[j as int]);
                assert(out@ =~= seq!['/'] + join_segments(sv.take(j + 1)));
            }
        }
        j = j + 1;
    }
    out
}

/// The position of the first element of `s` satisfying `p`, or `-1`.
pub open spec fn first_match_index<A>(s: Seq<A>, p: spec_fn(A) -> bool) -> int
    decreases s.len(),
{
    if s.len() == 0 {
        -1
    } else if p(s[0]) {
        0
    } else {
        let r = first_match_index(s.drop_first(), p);
        if r < 0 {
            -1
        } else {
            r + 1
        }
    }
}

pub proof fn lemma_first_match_index_props<A>(s: Seq<A>, p: spec_fn(A) -> bool)
    ensures
        -1 <= first_match_index(s, p) < s.len(),
        first_match_index(s, p) >= 0 ==> p(s[first_match_index(s, p)]),
        forall|j: int|
            0 <= j < s.len() && (first_match_index(s, p) < 0 || j < first_match_index(s, p))
                ==> !p(s[j]),
    decreases s.len(),
{
    if s.len() > 0 && !p(s[0]) {
        lemma_first_match_index_props(s.drop_first(), p);
        assert forall|j: int|
            0 <= j < s.len() && (first_match_index(s, p) < 0 || j < first_match_index(s, p))
            implies !p(s[j]) by {
            if j > 0 {
                assert(s.drop_first()[j - 1] == s[j]);
            }
        }
    }
}

pub proof fn lemma_first_match_index_found<A>(s: Seq<A>, p: spec_fn(A) -> bool, k: int)
    requires
        0 <= k < s.len(),
        p(s[k]),
        forall|j: int| 0 <= j < k ==> !p(s[j]),
    ensures
        first_match_index(s, p) == k,
    decreases s.len(),
{
    if k > 0 {
        assert forall|j: int| 0 <= j < k - 1 implies !p(s.drop_first()[j]) by {
            assert(s.drop_first()[j] == s[j + 1]);
        }
        assert(s.drop_first()[k - 1] == s[k]);
        lemma_first_match_index_found(s.drop_first(), p, k - 1);
    }
}

pub proof fn lemma_first_match_index_none<A>(s: Seq<A>, p: spec_fn(A) -> bool)
    requires
        forall|j: int| 0 <= j < s.len() ==> !p(s[j]),
    ensures
        first_match_index(s, p) == -1,
    decreases s.len(),
{
    if s.len() > 0 {
        assert forall|j: int| 0 <= j < s.len() - 1 implies !p(s.drop_first()[j]) by {
            assert(s.drop_first()[j] == s[j + 1]);
        }
        lemma_first_match_index_none(s.drop_first(), p);
    }
}

} // verus!
