//! Character-level text operations on message contents: prefixes, trimming,
//! code-fence removal and decimal rendering, all stated over the `Seq<char>`
//! view of strings.
use vstd::prelude::*;

verus! {

broadcast use vstd::string::group_string_axioms;

/// The characters of a string slice, in order.
pub fn chars_of(s: &str) -> (v: Vec<char>)
    ensures
        v@ == s@,
{
    let mut v: Vec<char> = Vec::new();
    for c in it: s.chars()
        invariant
            it.seq() == s@,
            v@ == it.seq().take(it.index() as int),
    {
        v.push(c);
    }
    v
}

/// Appends one character to a string.
///
/// Calls `String::push`, which std documents as appending the given `char`
/// to the end of the string; the contract states exactly that of the view.
#[verifier::external_body]
pub(crate) fn push_char(s: &mut String, c: char)
    ensures
        final(s)@ == old(s)@.push(c),
{
    s.push(c);
}

/// Appends the characters `v[lo..hi]` to `s`.
pub fn push_chars(s: &mut String, v: &Vec<char>, lo: usize, hi: usize)
    requires
        lo <= hi <= v@.len(),
    ensures
        final(s)@ == old(s)@ + v@.subrange(lo as int, hi as int),
{
    let mut i = lo;
    while i < hi
        invariant
            lo <= i <= hi <= v@.len(),
            s@ == old(s)@ + v@.subrange(lo as int, i as int),
        decreases hi - i,
    {
        push_char(s, v[i]);
        assert(v@.subrange(lo as int, i + 1) =~= v@.subrange(lo as int, i as int).push(v@[i as int]));
        i = i + 1;
    }
}

/// A string holding exactly the given characters.
pub fn string_of(v: &Vec<char>) -> (s: String)
    ensures
        s@ == v@,
{
    let mut s = String::new();
    push_chars(&mut s, v, 0, v.len());
    assert(v@.subrange(0, v@.len() as int) =~= v@);
    s
}

/// `s` begins with `p`.
pub open spec fn has_prefix(s: Seq<char>, p: Seq<char>) -> bool {
    p.len() <= s.len() && s.take(p.len() as int) == p
}

/// Law: `s` begins with `p` exactly when `p` is no longer than `s` and every
/// character of `p` equals the character of `s` at the same place.
pub proof fn lemma_has_prefix_characters(s: Seq<char>, p: Seq<char>)
    ensures
        has_prefix(s, p) <==> (p.len() <= s.len() && forall|i: int|
            0 <= i < p.len() ==> #[trigger] s[i] == p[i]),
{
    if p.len() <= s.len() && forall|i: int| 0 <= i < p.len() ==> #[trigger] s[i] == p[i] {
        assert(s.take(p.len() as int) =~= p);
    }
    if has_prefix(s, p) {
        assert forall|i: int| 0 <= i < p.len() implies #[trigger] s[i] == p[i] by {
            assert(s.take(p.len() as int)[i] == s[i]);
        }
    }
}

/// Whether `s` begins with `p` (as `str::starts_with`).
pub fn starts_with(s: &Vec<char>, p: &Vec<char>) -> (r: bool)
    ensures
        r == has_prefix(s@, p@),
{
    if p.len() > s.len() {
        return false;
    }
    let mut i: usize = 0;
    while i < p.len()
        invariant
            p@.len() <= s@.len(),
            i <= p@.len(),
            forall|j: int| 0 <= j < i ==> s@[j] == p@[j],
        decreases p@.len() - i,
    {
        if s[i] != p[i] {
            assert(s@.take(p@.len() as int)[i as int] != p@[i as int]);
            return false;
        }
        i = i + 1;
    }
    assert(s@.take(p@.len() as int) =~= p@);
    true
}

/// Whether the characters `s[lo..hi]` are exactly `w`.
pub fn range_equals(s: &Vec<char>, lo: usize, hi: usize, w: &Vec<char>) -> (r: bool)
    requires
        lo <= hi <= s@.len(),
    ensures
        r == (s@.subrange(lo as int, hi as int) == w@),
{
    if hi - lo != w.len() {
        return false;
    }
    let mut i: usize = 0;
    while i < w.len()
        invariant
            lo <= hi <= s@.len(),
            hi - lo == w@.len(),
            i <= w@.len(),
            forall|j: int| 0 <= j < i ==> s@[lo + j] == w@[j],
        decreases w@.len() - i,
    {
        if s[lo + i] != w[i] {
            assert(s@.subrange(lo as int, hi as int)[i as int] != w@[i as int]);
            return false;
        }
        i = i + 1;
    }
    assert(s@.subrange(lo as int, hi as int) =~= w@);
    true
}

/// The Unicode `White_Space` characters, which `char::is_whitespace` accepts.
pub open spec fn is_white_space(c: char) -> bool {
    ||| '\u{9}' <= c <= '\u{d}'
    ||| c == ' '
    ||| c == '\u{85}'
    ||| c == '\u{a0}'
    ||| c == '\u{1680}'
    ||| '\u{2000}' <= c <= '\u{200a}'
    ||| c == '\u{2028}'
    ||| c == '\u{2029}'
    ||| c == '\u{202f}'
    ||| c == '\u{205f}'
    ||| c == '\u{3000}'
}

/// Whether `c` is Unicode white space.
pub fn white_space(c: char) -> (r: bool)
    ensures
        r == is_white_space(c),
{
    ('\u{9}' <= c && c <= '\u{d}') || c == ' ' || c == '\u{85}' || c == '\u{a0}' || c
        == '\u{1680}' || ('\u{2000}' <= c && c <= '\u{200a}') || c == '\u{2028}' || c
        == '\u{2029}' || c == '\u{202f}' || c == '\u{205f}' || c == '\u{3000}'
}

/// `s` without its leading white space.
pub open spec fn trim_start(s: Seq<char>) -> Seq<char>
    decreases s.len(),
{
    if s.len() > 0 && is_white_space(s[0]) {
        trim_start(s.drop_first())
    } else {
        s
    }
}

/// `s` without its trailing white space.
pub open spec fn trim_end(s: Seq<char>) -> Seq<char>
    decreases s.len(),
{
    if s.len() > 0 && is_white_space(s.last()) {
        trim_end(s.drop_last())
    } else {
        s
    }
}

/// `s` without leading and trailing white space (as `str::trim`).
pub open spec fn trimmed(s: Seq<char>) -> Seq<char> {
    trim_end(trim_start(s))
}

proof fn lemma_trim_start(s: Seq<char>, i: int)
    requires
        0 <= i <= s.len(),
        forall|j: int| 0 <= j < i ==> is_white_space(#[trigger] s[j]),
        i == s.len() || !is_white_space(s[i]),
    ensures
        trim_start(s) == s.skip(i),
    decreases i,
{
    if i == 0 {
        assert(s.skip(0) =~= s);
    } else {
        let t = s.drop_first();
        assert forall|j: int| 0 <= j < i - 1 implies is_white_space(#[trigger] t[j]) by {
            assert(t[j] == s[j + 1]);
        }
        lemma_trim_start(t, i - 1);
        assert(t.skip(i - 1) =~= s.skip(i));
    }
}

proof fn lemma_trim_end(s: Seq<char>, j: int)
    requires
        0 <= j <= s.len(),
        forall|k: int| j <= k < s.len() ==> is_white_space(#[trigger] s[k]),
        j == 0 || !is_white_space(s[j - 1]),
    ensures
        trim_end(s) == s.take(j),
    decreases s.len() - j,
{
    if j == s.len() {
        assert(s.take(j) =~= s);
    } else {
        let t = s.drop_last();
        assert forall|k: int| j <= k < t.len() implies is_white_space(#[trigger] t[k]) by {
            assert(t[k] == s[k]);
        }
        lemma_trim_end(t, j);
        assert(t.take(j) =~= s.take(j));
    }
}

/// Law: a text that neither begins nor ends with white space is its own
/// trimmed form.
pub proof fn lemma_trimmed_bare(s: Seq<char>)
    requires
        s.len() == 0 || (!is_white_space(s[0]) && !is_white_space(s.last())),
    ensures
        trimmed(s) == s,
{
}

proof fn lemma_trim_start_push(s: Seq<char>, c: char)
    requires
        is_white_space(c),
    ensures
        trim_start(s).len() > 0 ==> trim_start(s.push(c)) == trim_start(s).push(c),
        trim_start(s).len() == 0 ==> trim_start(s.push(c)).len() == 0,
    decreases s.len(),
{
    if s.len() == 0 {
        assert(s.push(c).drop_first() =~= s);
    } else if is_white_space(s[0]) {
        assert(s.push(c).drop_first() =~= s.drop_first().push(c));
        lemma_trim_start_push(s.drop_first(), c);
    }
}

/// Law: white space added before or after a text does not change its trimmed
/// form.
pub proof fn lemma_trimmed_ignores_padding(s: Seq<char>, c: char)
    requires
        is_white_space(c),
    ensures
        trimmed(seq![c] + s) == trimmed(s),
        trimmed(s.push(c)) == trimmed(s),
{
    assert((seq![c] + s).drop_first() =~= s);
    lemma_trim_start_push(s, c);
    let t = trim_start(s);
    if t.len() > 0 {
        assert(t.push(c).drop_last() =~= t);
    } else {
        assert(trim_start(s.push(c)) =~= Seq::<char>::empty());
        assert(t =~= Seq::<char>::empty());
    }
}

/// The bounds `(lo, hi)` of `v` without its leading and trailing white space.
pub fn trim_bounds(v: &Vec<char>) -> (r: (usize, usize))
    ensures
        r.0 <= r.1 <= v@.len(),
        v@.subrange(r.0 as int, r.1 as int) == trimmed(v@),
        forall|j: int| 0 <= j < r.0 ==> is_white_space(#[trigger] v@[j]),
        r.0 == v@.len() || !is_white_space(v@[r.0 as int]),
        forall|k: int| r.1 <= k < v@.len() ==> is_white_space(#[trigger] v@[k]),
        r.1 == r.0 || !is_white_space(v@[r.1 - 1]),
{
    let n = v.len();
    let mut lo: usize = 0;
    while lo < n && white_space(v[lo])
        invariant
            n == v@.len(),
            lo <= n,
            forall|j: int| 0 <= j < lo ==> is_white_space(#[trigger] v@[j]),
        decreases n - lo,
    {
        lo = lo + 1;
    }
    proof {
        lemma_trim_start(v@, lo as int);
    }
    let mut hi: usize = n;
    while hi > lo && white_space(v[hi - 1])
        invariant
            n == v@.len(),
            lo <= hi <= n,
            forall|k: int| hi <= k < n ==> is_white_space(#[trigger] v@[k]),
        decreases hi - lo,
    {
        hi = hi - 1;
    }
    proof {
        let t = v@.skip(lo as int);
        assert forall|k: int| hi - lo <= k < t.len() implies is_white_space(#[trigger] t[k]) by {
            assert(t[k] == v@[lo + k]);
        }
        if hi > lo {
            assert(t[hi - lo - 1] == v@[hi - 1]);
        }
        lemma_trim_end(t, hi - lo);
        assert(t.take(hi - lo) =~= v@.subrange(lo as int, hi as int));
    }
    (lo, hi)
}

/// Whether `s[lo..]`, once trimmed of white space, is exactly `w`.
pub fn trimmed_tail_equals(s: &Vec<char>, lo: usize, w: &Vec<char>) -> (r: bool)
    requires
        lo <= s@.len(),
    ensures
        r == (trimmed(s@.skip(lo as int)) == w@),
{
    let mut tail: Vec<char> = Vec::new();
    let mut i = lo;
    while i < s.len()
        invariant
            lo <= i <= s@.len(),
            tail@ == s@.subrange(lo as int, i as int),
        decreases s@.len() - i,
    {
        tail.push(s[i]);
        assert(s@.subrange(lo as int, i + 1) =~= s@.subrange(lo as int, i as int).push(
            s@[i as int],
        ));
        i = i + 1;
    }
    assert(tail@ =~= s@.skip(lo as int));
    let (a, b) = trim_bounds(&tail);
    range_equals(&tail, a, b, w)
}

/// The code fence that replies longer than one message lose: three backticks.
pub open spec fn fence() -> Seq<char> {
    seq!['`', '`', '`']
}

/// `s` with every code fence removed, scanning from the left as
/// `str::replace(s, "```", "")` does.
pub open spec fn without_fences(s: Seq<char>) -> Seq<char>
    decreases s.len(),
{
    if s.len() == 0 {
        s
    } else if has_prefix(s, fence()) {
        without_fences(s.skip(3))
    } else {
        seq![s[0]] + without_fences(s.skip(1))
    }
}

/// `s` holds a code fence somewhere.
pub open spec fn has_fence(s: Seq<char>) -> bool {
    exists|k: int|
        0 <= k && k + 3 <= s.len() && #[trigger] s[k] == '`' && s[k + 1] == '`' && s[k + 2]
            == '`'
}

proof fn lemma_fence_prefix(s: Seq<char>)
    ensures
        has_prefix(s, fence()) <==> (s.len() >= 3 && s[0] == '`' && s[1] == '`' && s[2] == '`'),
{
    if s.len() >= 3 && s[0] == '`' && s[1] == '`' && s[2] == '`' {
        assert(s.take(3) =~= fence());
    }
    if has_prefix(s, fence()) {
        assert(s.take(3)[0] == s[0] && s.take(3)[1] == s[1] && s.take(3)[2] == s[2]);
    }
}

proof fn lemma_without_fences_first(s: Seq<char>)
    requires
        s.len() > 0,
        s[0] != '`',
    ensures
        without_fences(s).len() > 0,
        without_fences(s)[0] == s[0],
{
    lemma_fence_prefix(s);
}

/// Law: a text with its code fences removed holds no code fence.
pub proof fn lemma_without_fences_has_none(s: Seq<char>)
    ensures
        !has_fence(without_fences(s)),
    decreases s.len(),
{
    lemma_fence_prefix(s);
    if s.len() == 0 {
    } else if has_prefix(s, fence()) {
        lemma_without_fences_has_none(s.skip(3));
    } else {
        let t = s.skip(1);
        let rt = without_fences(t);
        let r = without_fences(s);
        lemma_without_fences_has_none(t);
        assert(r =~= seq![s[0]] + rt);
        if has_fence(r) {
            let k = choose|k: int|
                0 <= k && k + 3 <= r.len() && #[trigger] r[k] == '`' && r[k + 1] == '`' && r[k
                    + 2] == '`';
            if k >= 1 {
                assert(rt[k - 1] == r[k]);
                assert(rt[k - 1] == '`' && rt[k] == '`' && rt[k + 1] == '`');
                assert(has_fence(rt));
            } else {
                // r starts with a fence: s[0] and the first two characters of rt are backticks
                assert(rt.len() >= 2 && rt[0] == '`' && rt[1] == '`');
                assert(t.len() > 0);
                if t[0] != '`' {
                    lemma_without_fences_first(t);
                } else {
                    // s does not begin with a fence, so t[1] is not a backtick (or t is short)
                    assert(t[0] == s[1]);
                    lemma_fence_prefix(t);
                    let u = t.skip(1);
                    assert(rt =~= seq![t[0]] + without_fences(u));
                    if u.len() == 0 {
                        assert(without_fences(u) =~= u);
                    } else {
                        assert(u[0] == s[2]);
                        lemma_without_fences_first(u);
                    }
                }
            }
        }
    }
}

/// Law: a text without three backticks in a row loses nothing when its code
/// fences are removed.
pub proof fn lemma_fence_free_text_unchanged(s: Seq<char>)
    requires
        forall|k: int|
            0 <= k && k + 3 <= s.len() ==> !(#[trigger] s[k] == '`' && s[k + 1] == '`' && s[k
                + 2] == '`'),
    ensures
        without_fences(s) == s,
    decreases s.len(),
{
    lemma_fence_prefix(s);
    if s.len() > 0 {
        let t = s.skip(1);
        assert forall|k: int|
            0 <= k && k + 3 <= t.len() implies !(#[trigger] t[k] == '`' && t[k + 1] == '`' && t[k
            + 2] == '`') by {
            assert(t[k] == s[k + 1] && t[k + 1] == s[k + 2] && t[k + 2] == s[k + 3]);
        }
        lemma_fence_free_text_unchanged(t);
        assert(seq![s[0]] + t =~= s);
    }
}

/// `s` with every code fence removed (as `str::replace(s, "```", "")`).
pub fn remove_fences(s: &Vec<char>) -> (r: String)
    ensures
        r@ == without_fences(s@),
{
    let n = s.len();
    let mut out = String::new();
    let mut i: usize = 0;
    assert(s@.skip(0) =~= s@);
    assert(out@ + without_fences(s@) =~= without_fences(s@));
    while i < n
        invariant
            n == s@.len(),
            i <= n,
            without_fences(s@) == out@ + without_fences(s@.skip(i as int)),
        decreases n - i,
    {
        let t = Ghost(s@.skip(i as int));
        proof {
            lemma_fence_prefix(t@);
        }
        if n - i >= 3 && s[i] == '`' && s[i + 1] == '`' && s[i + 2] == '`' {
            assert(t@.skip(3) =~= s@.skip(i + 3));
            i = i + 3;
        } else {
            assert(t@.skip(1) =~= s@.skip(i + 1));
            let ghost before = out@;
            push_char(&mut out, s[i]);
            assert(before + (seq![s@[i as int]] + without_fences(s@.skip(i + 1))) =~= out@
                + without_fences(s@.skip(i + 1)));
            i = i + 1;
        }
    }
    assert(s@.skip(n as int) =~= Seq::<char>::empty());
    out
}

} // verus!
