//! Character-level text rules: Unicode whitespace, trimming, ASCII case
//! folding, splitting on a separator and substring search, stated over
//! `Seq<char>` and implemented over `Vec<char>`.

use vstd::prelude::*;

verus! {

/// Unicode `White_Space`, the set that `char::is_whitespace` and `str::trim` use.
pub open spec fn is_ws(c: char) -> bool {
    let u = c as u32;
    ||| 9 <= u <= 13
    ||| u == 32
    ||| u == 0x85
    ||| u == 0xA0
    ||| u == 0x1680
    ||| 0x2000 <= u <= 0x200A
    ||| u == 0x2028
    ||| u == 0x2029
    ||| u == 0x202F
    ||| u == 0x205F
    ||| u == 0x3000
}

/// The characters of Unicode's `White_Space` property, the set that
/// `char::is_whitespace` tests and `str::trim` strips: tab, line feed,
/// vertical tab, form feed, carriage return, space, next line, no-break
/// space, ogham space mark, the spaces U+2000 to U+200A, line and paragraph
/// separators, narrow no-break space, medium mathematical space and
/// ideographic space.
pub open spec fn unicode_white_space() -> Set<char> {
    set!['\u{9}', '\u{A}', '\u{B}', '\u{C}', '\u{D}', '\u{20}', '\u{85}', '\u{A0}', '\u{1680}', '\u{2000}', '\u{2001}', '\u{2002}', '\u{2003}', '\u{2004}', '\u{2005}', '\u{2006}', '\u{2007}', '\u{2008}', '\u{2009}', '\u{200A}', '\u{2028}', '\u{2029}', '\u{202F}', '\u{205F}', '\u{3000}']
}

/// `is_ws` holds of exactly the Unicode `White_Space` characters.
pub proof fn lemma_is_ws_is_unicode_white_space(c: char)
    ensures
        is_ws(c) <==> unicode_white_space().contains(c),
{
    let u = c as u32;
    if is_ws(c) {
        if u == 9 {
            assert(c == '\u{9}');
        }
        if u == 10 {
            assert(c == '\u{A}');
        }
        if u == 11 {
            assert(c == '\u{B}');
        }
        if u == 12 {
            assert(c == '\u{C}');
        }
        if u == 13 {
            assert(c == '\u{D}');
        }
        if u == 32 {
            assert(c == '\u{20}');
        }
        if u == 133 {
            assert(c == '\u{85}');
        }
        if u == 160 {
            assert(c == '\u{A0}');
        }
        if u == 5760 {
            assert(c == '\u{1680}');
        }
        if u == 8192 {
            assert(c == '\u{2000}');
        }
        if u == 8193 {
            assert(c == '\u{2001}');
        }
        if u == 8194 {
            assert(c == '\u{2002}');
        }
        if u == 8195 {
            assert(c == '\u{2003}');
        }
        if u == 8196 {
            assert(c == '\u{2004}');
        }
        if u == 8197 {
            assert(c == '\u{2005}');
        }
        if u == 8198 {
            assert(c == '\u{2006}');
        }
        if u == 8199 {
            assert(c == '\u{2007}');
        }
        if u == 8200 {
            assert(c == '\u{2008}');
        }
        if u == 8201 {
            assert(c == '\u{2009}');
        }
        if u == 8202 {
            assert(c == '\u{200A}');
        }
        if u == 8232 {
            assert(c == '\u{2028}');
        }
        if u == 8233 {
            assert(c == '\u{2029}');
        }
        if u == 8239 {
            assert(c == '\u{202F}');
        }
        if u == 8287 {
            assert(c == '\u{205F}');
        }
        if u == 12288 {
            assert(c == '\u{3000}');
        }
    }
}

/// `s` without its leading whitespace.
pub open spec fn trim_start(s: Seq<char>) -> Seq<char>
    decreases s.len(),
{
    if s.len() > 0 && is_ws(s[0]) {
        trim_start(s.drop_first())
    } else {
        s
    }
}

/// `s` without its trailing whitespace.
pub open spec fn trim_end(s: Seq<char>) -> Seq<char>
    decreases s.len(),
{
    if s.len() > 0 && is_ws(s.last()) {
        trim_end(s.drop_last())
    } else {
        s
    }
}

/// `s` without leading and trailing whitespace (what `str::trim` returns).
pub open spec fn trim(s: Seq<char>) -> Seq<char> {
    trim_end(trim_start(s))
}

/// ASCII lower case of one character: `'A'..='Z'` become `'a'..='z'`, every
/// other character is unchanged.
pub open spec fn ascii_lower(c: char) -> char {
    if 65 <= (c as u32) <= 90 {
        ((c as u32) + 32) as char
    } else {
        c
    }
}

/// ASCII lower case of a whole sequence (what `str::to_ascii_lowercase` returns).
pub open spec fn lower(s: Seq<char>) -> Seq<char> {
    s.map_values(|c: char| ascii_lower(c))
}

/// The pieces of `s` between occurrences of `sep`, as `str::split` yields
/// them: always at least one piece, empty pieces kept.
pub open spec fn split(s: Seq<char>, sep: char) -> Seq<Seq<char>>
    decreases s.len(),
{
    if s.len() == 0 {
        seq![Seq::<char>::empty()]
    } else {
        let pieces = split(s.drop_last(), sep);
        if s.last() == sep {
            pieces.push(Seq::<char>::empty())
        } else {
            pieces.update(pieces.len() - 1, pieces.last().push(s.last()))
        }
    }
}

/// `i` is the first position of `c` in `s`.
pub open spec fn is_first_index(s: Seq<char>, c: char, i: int) -> bool {
    &&& 0 <= i < s.len()
    &&& s[i] == c
    &&& forall|j: int| 0 <= j < i ==> s[j] != c
}

/// What `str::split_once` returns for a one-character separator: the text
/// before and after the first occurrence of `sep`, or `None` without one.
pub open spec fn split_once(s: Seq<char>, sep: char) -> Option<(Seq<char>, Seq<char>)> {
    if exists|i: int| is_first_index(s, sep, i) {
        let i = choose|i: int| is_first_index(s, sep, i);
        Some((s.take(i), s.skip(i + 1)))
    } else {
        None
    }
}

/// `p` occurs in `s` as a contiguous run.
pub open spec fn contains_sub(s: Seq<char>, p: Seq<char>) -> bool {
    exists|i: int| 0 <= i <= s.len() - p.len() && #[trigger] s.subrange(i, i + p.len()) == p
}

pub proof fn lemma_first_index_unique(s: Seq<char>, c: char, i: int, k: int)
    requires
        is_first_index(s, c, i),
        is_first_index(s, c, k),
    ensures
        i == k,
{
    if i < k {
        assert(s[i] != c);
    } else if k < i {
        assert(s[k] != c);
    }
}

/// `trim_start` drops exactly the leading run of whitespace.
pub proof fn lemma_trim_start_skips(s: Seq<char>) -> (x: int)
    ensures
        0 <= x <= s.len(),
        trim_start(s) == s.skip(x),
        forall|j: int| 0 <= j < x ==> is_ws(#[trigger] s[j]),
        x < s.len() ==> !is_ws(s[x]),
    decreases s.len(),
{
    if s.len() > 0 && is_ws(s[0]) {
        let y = lemma_trim_start_skips(s.drop_first());
        assert(s.drop_first().skip(y) =~= s.skip(y + 1));
        assert forall|j: int| 0 <= j < y + 1 implies is_ws(#[trigger] s[j]) by {
            if j > 0 {
                assert(s[j] == s.drop_first()[j - 1]);
            }
        }
        y + 1
    } else {
        assert(s.skip(0) =~= s);
        0
    }
}

/// `trim_end` drops exactly the trailing run of whitespace.
pub proof fn lemma_trim_end_takes(s: Seq<char>) -> (y: int)
    ensures
        0 <= y <= s.len(),
        trim_end(s) == s.take(y),
        forall|j: int| y <= j < s.len() ==> is_ws(#[trigger] s[j]),
        y > 0 ==> !is_ws(s[y - 1]),
    decreases s.len(),
{
    if s.len() > 0 && is_ws(s.last()) {
        let y = lemma_trim_end_takes(s.drop_last());
        assert(s.drop_last().take(y) =~= s.take(y));
        assert forall|j: int| y <= j < s.len() implies is_ws(#[trigger] s[j]) by {
            if j < s.len() - 1 {
                assert(s[j] == s.drop_last()[j]);
            }
        }
        y
    } else {
        assert(s.take(s.len() as int) =~= s);
        s.len() as int
    }
}

/// `trim` keeps the run of `s` from its first to its last non-whitespace
/// character.
pub proof fn lemma_trim_bounds(s: Seq<char>) -> (r: (int, int))
    ensures
        0 <= r.0 <= r.1 <= s.len(),
        trim(s) == s.subrange(r.0, r.1),
        forall|j: int| 0 <= j < r.0 ==> is_ws(#[trigger] s[j]),
        forall|j: int| r.1 <= j < s.len() ==> is_ws(#[trigger] s[j]),
        r.0 < r.1 ==> !is_ws(s[r.0]) && !is_ws(s[r.1 - 1]),
{
    let x = lemma_trim_start_skips(s);
    let t = s.skip(x);
    let y = lemma_trim_end_takes(t);
    assert(t.take(y) =~= s.subrange(x, x + y));
    assert forall|j: int| x + y <= j < s.len() implies is_ws(#[trigger] s[j]) by {
        assert(s[j] == t[j - x]);
    }
    if y > 0 {
        assert(s[x + y - 1] == t[y - 1]);
        assert(s[x] == t[0]);
    }
    (x, x + y)
}

/// Two sequences with whitespace at the same positions are trimmed at the
/// same bounds.
pub proof fn lemma_trim_same_ws_pattern(s: Seq<char>, t: Seq<char>) -> (r: (int, int))
    requires
        s.len() == t.len(),
        forall|i: int| 0 <= i < s.len() ==> is_ws(#[trigger] s[i]) == is_ws(t[i]),
    ensures
        0 <= r.0 <= r.1 <= s.len(),
        trim(s) == s.subrange(r.0, r.1),
        trim(t) == t.subrange(r.0, r.1),
{
    let (x, y) = lemma_trim_bounds(s);
    let (x2, y2) = lemma_trim_bounds(t);
    if x < y {
        assert(is_ws(s[x]) == is_ws(t[x]));
        assert(x2 < y2) by {
            if x2 >= y2 {
                assert(is_ws(t[x]));
            }
        }
        assert(is_ws(s[x2]) == is_ws(t[x2]));
        assert(is_ws(s[y - 1]) == is_ws(t[y - 1]));
        assert(is_ws(s[y2 - 1]) == is_ws(t[y2 - 1]));
        assert(x2 <= x) by {
            if x2 > x {
                assert(is_ws(t[x]));
            }
        }
        assert(x <= x2) by {
            if x > x2 {
                assert(is_ws(s[x2]));
            }
        }
        assert(y2 >= y) by {
            if y2 < y {
                assert(is_ws(t[y - 1]));
            }
        }
        assert(y >= y2) by {
            if y < y2 {
                assert(is_ws(s[y2 - 1]));
            }
        }
        (x, y)
    } else {
        assert(x2 >= y2) by {
            if x2 < y2 {
                assert(is_ws(s[x2]) == is_ws(t[x2]));
                assert(is_ws(s[x2]));
            }
        }
        assert(t.subrange(x2, y2) =~= t.subrange(x, x));
        assert(s.subrange(x, y) =~= s.subrange(x, x));
        (x, x)
    }
}

/// Whitespace added around `k` is trimmed away with `k`'s own.
pub proof fn lemma_trim_padded(a: Seq<char>, k: Seq<char>, b: Seq<char>)
    requires
        forall|i: int| 0 <= i < a.len() ==> is_ws(#[trigger] a[i]),
        forall|i: int| 0 <= i < b.len() ==> is_ws(#[trigger] b[i]),
    ensures
        trim(a + k + b) == trim(k),
{
    let s = a + k + b;
    let off = a.len() as int;
    let (p, q) = lemma_trim_bounds(k);
    let (x, y) = lemma_trim_bounds(s);
    assert forall|j: int| 0 <= j < s.len() && !(off + p <= j < off + q) implies is_ws(
        #[trigger] s[j],
    ) by {
        if j < off {
            assert(s[j] == a[j]);
        } else if j < off + k.len() {
            assert(s[j] == k[j - off]);
        } else {
            assert(s[j] == b[j - off - k.len()]);
        }
    }
    if p < q {
        assert(s[off + p] == k[p]);
        assert(s[off + q - 1] == k[q - 1]);
        assert(x < y) by {
            if x >= y {
                assert(is_ws(s[off + p]));
            }
        }
        assert(x == off + p) by {
            if x > off + p {
                assert(is_ws(s[off + p]));
            }
        }
        assert(y == off + q) by {
            if y < off + q {
                assert(is_ws(s[off + q - 1]));
            }
        }
        assert(s.subrange(x, y) =~= k.subrange(p, q));
    } else {
        assert(x >= y) by {
            if x < y {
                assert(is_ws(s[x]));
            }
        }
        assert(s.subrange(x, y) =~= k.subrange(p, q));
    }
}

/// Splitting always yields at least one piece.
pub proof fn lemma_split_nonempty(s: Seq<char>, sep: char)
    ensures
        split(s, sep).len() >= 1,
    decreases s.len(),
{
    if s.len() > 0 {
        lemma_split_nonempty(s.drop_last(), sep);
    }
}

/// Splitting text joined at a separator gives the pieces of each side, in
/// order.
pub proof fn lemma_split_at_separator(a: Seq<char>, b: Seq<char>, sep: char)
    ensures
        split(a + seq![sep] + b, sep) == split(a, sep) + split(b, sep),
    decreases b.len(),
{
    let s = a + seq![sep] + b;
    if b.len() == 0 {
        assert(s.drop_last() =~= a);
        assert(split(s, sep) =~= split(a, sep) + split(b, sep));
    } else {
        let b0 = b.drop_last();
        lemma_split_at_separator(a, b0, sep);
        lemma_split_nonempty(b0, sep);
        assert(s.drop_last() =~= a + seq![sep] + b0);
        let left = split(a, sep);
        let right = split(b0, sep);
        assert(right.len() > 0);
        if b.last() == sep {
            assert(split(s, sep) =~= left + split(b, sep));
        } else {
            assert(split(s, sep) =~= left + split(b, sep));
        }
    }
}

/// A run of `p` found inside a part of `s` is found in `s`.
pub proof fn lemma_contains_sub_widen(s: Seq<char>, lo: int, hi: int, p: Seq<char>)
    requires
        0 <= lo <= hi <= s.len(),
        contains_sub(s.subrange(lo, hi), p),
    ensures
        contains_sub(s, p),
{
    let part = s.subrange(lo, hi);
    let i = choose|i: int| 0 <= i <= part.len() - p.len() && #[trigger] part.subrange(i, i + p.len()) == p;
    assert(s.subrange(lo + i, lo + i + p.len()) =~= part.subrange(i, i + p.len()));
}

/// Whether `c` is Unicode whitespace.
pub fn is_whitespace(c: char) -> (r: bool)
    ensures
        r == is_ws(c),
{
    let u = c as u32;
    (9 <= u && u <= 13) || u == 32 || u == 0x85 || u == 0xA0 || u == 0x1680 || (0x2000 <= u
        && u <= 0x200A) || u == 0x2028 || u == 0x2029 || u == 0x202F || u == 0x205F || u == 0x3000
}

/// Whether `c`, folded to ASCII lower case, is `p`.
pub fn lower_char_is(c: char, p: char) -> (r: bool)
    ensures
        r == (ascii_lower(c) == p),
{
    let u = c as u32;
    if 65 <= u && u <= 90 {
        let l = u + 32;
        proof {
            assert(ascii_lower(c) == (l as char));
            assert((l as char) as u32 == l);
        }
        l == (p as u32)
    } else {
        c == p
    }
}

/// The characters of `s`, in order.
pub fn chars_of(s: &str) -> (v: Vec<char>)
    ensures
        v@ == s@,
{
    let n = s.unicode_len();
    let mut v: Vec<char> = Vec::new();
    let mut i: usize = 0;
    while i < n
        invariant
            n == s@.len(),
            i <= n,
            v@ == s@.take(i as int),
        decreases n - i,
    {
        let c = s.get_char(i);
        v.push(c);
        i = i + 1;
        assert(v@ =~= s@.take(i as int));
    }
    assert(v@ =~= s@);
    v
}


/// The bounds, within `lo..hi`, of the trimmed text of `v[lo..hi]`.
pub fn trim_bounds(v: &Vec<char>, lo: usize, hi: usize) -> (r: (usize, usize))
    requires
        lo <= hi <= v.len(),
    ensures
        lo <= r.0 <= r.1 <= hi,
        v@.subrange(r.0 as int, r.1 as int) == trim(v@.subrange(lo as int, hi as int)),
{
    let mut a = lo;
    while a < hi && is_whitespace(v[a])
        invariant
            lo <= a <= hi <= v.len(),
            trim_start(v@.subrange(lo as int, hi as int)) == trim_start(
                v@.subrange(a as int, hi as int),
            ),
        decreases hi - a,
    {
        assert(v@.subrange(a as int, hi as int).drop_first() =~= v@.subrange(a + 1, hi as int));
        a = a + 1;
    }
    let mut b = hi;
    while a < b && is_whitespace(v[b - 1])
        invariant
            lo <= a <= b <= hi <= v.len(),
            trim_end(v@.subrange(a as int, hi as int)) == trim_end(v@.subrange(a as int, b as int)),
        decreases b - a,
    {
        assert(v@.subrange(a as int, b as int).drop_last() =~= v@.subrange(a as int, b - 1));
        b = b - 1;
    }
    proof {
        if a == hi {
            assert(v@.subrange(a as int, hi as int) =~= Seq::<char>::empty());
        }
    }
    (a, b)
}

/// The first position of `c` in `v[lo..hi]`, if there is one.
pub fn find_char(v: &Vec<char>, lo: usize, hi: usize, c: char) -> (r: Option<usize>)
    requires
        lo <= hi <= v.len(),
    ensures
        match r {
            Some(i) => lo <= i < hi && is_first_index(
                v@.subrange(lo as int, hi as int),
                c,
                i - lo,
            ),
            None => forall|j: int| lo <= j < hi ==> v@[j] != c,
        },
{
    let mut i = lo;
    while i < hi
        invariant
            lo <= i <= hi <= v.len(),
            forall|j: int| lo <= j < i ==> v@[j] != c,
        decreases hi - i,
    {
        if v[i] == c {
            return Some(i);
        }
        i = i + 1;
    }
    None
}

/// The bounds of the pieces of `v` between occurrences of `sep`, one for each
/// piece of `split(v@, sep)`.
pub fn split_bounds(v: &Vec<char>, sep: char) -> (r: Vec<(usize, usize)>)
    ensures
        r@.len() == split(v@, sep).len(),
        forall|k: int| 0 <= k < r@.len() ==> #[trigger] r@[k].0 <= r@[k].1 <= v.len(),
        forall|k: int|
            0 <= k < r@.len() ==> v@.subrange(r@[k].0 as int, r@[k].1 as int) == #[trigger] split(
                v@,
                sep,
            )[k],
{
    let n = v.len();
    let mut done: Vec<(usize, usize)> = Vec::new();
    let mut start: usize = 0;
    let mut i: usize = 0;
    while i < n
        invariant
            n == v.len(),
            start <= i <= n,
            done@.len() + 1 == split(v@.take(i as int), sep).len(),
            forall|k: int| 0 <= k < done@.len() ==> #[trigger] done@[k].0 <= done@[k].1 <= i,
            forall|k: int|
                0 <= k < done@.len() ==> v@.subrange(done@[k].0 as int, done@[k].1 as int)
                    == #[trigger] split(v@.take(i as int), sep)[k],
            v@.subrange(start as int, i as int) == split(v@.take(i as int), sep).last(),
        decreases n - i,
    {
        let ghost prev = split(v@.take(i as int), sep);
        let ghost old_done = done@;
        let ghost old_i = i;
        let ghost old_start = start;
        assert(v@.take(i + 1).drop_last() =~= v@.take(i as int));
        assert(v@.take(i + 1).last() == v@[i as int]);
        if v[i] == sep {
            done.push((start, i));
            start = i + 1;
            i = i + 1;
            assert(split(v@.take(i as int), sep) == prev.push(Seq::<char>::empty()));
            assert(v@.subrange(start as int, i as int) =~= Seq::<char>::empty());
            assert forall|k: int| 0 <= k < done@.len() implies #[trigger] done@[k].0 <= done@[k].1
                <= i by {
                if k < old_done.len() {
                    assert(done@[k] == old_done[k]);
                    assert(old_done[k].0 <= old_done[k].1 <= old_i);
                } else {
                    assert(done@[k].0 == old_start && done@[k].1 == old_i);
                }
            }
            assert forall|k: int| 0 <= k < done@.len() implies v@.subrange(
                done@[k].0 as int,
                done@[k].1 as int,
            ) == #[trigger] split(v@.take(i as int), sep)[k] by {
                if k < old_done.len() {
                    assert(done@[k] == old_done[k]);
                    assert(split(v@.take(old_i as int), sep)[k] == prev[k]);
                } else {
                    assert(done@[k].0 == old_start && done@[k].1 == old_i);
                }
            }
        } else {
            i = i + 1;
            assert(split(v@.take(i as int), sep) == prev.update(
                prev.len() - 1,
                prev.last().push(v@[i - 1]),
            ));
            assert(v@.subrange(start as int, i as int) =~= prev.last().push(v@[i - 1]));
            assert forall|k: int| 0 <= k < done@.len() implies v@.subrange(
                done@[k].0 as int,
                done@[k].1 as int,
            ) == #[trigger] split(v@.take(i as int), sep)[k] by {
                assert(split(v@.take(old_i as int), sep)[k] == prev[k]);
            }
        }
    }
    let ghost old_done = done@;
    done.push((start, n));
    assert(v@.take(n as int) =~= v@);
    assert forall|k: int| 0 <= k < done@.len() implies v@.subrange(
        done@[k].0 as int,
        done@[k].1 as int,
    ) == #[trigger] split(v@, sep)[k] by {
        assert(split(v@.take(n as int), sep)[k] == split(v@, sep)[k]);
        if k < old_done.len() {
            assert(done@[k] == old_done[k]);
        }
    }
    done
}

/// Whether `v[lo..hi]`, folded to ASCII lower case, is exactly `lit`.
pub fn lower_range_is(v: &Vec<char>, lo: usize, hi: usize, lit: &str) -> (r: bool)
    requires
        lo <= hi <= v.len(),
    ensures
        r == (lower(v@.subrange(lo as int, hi as int)) == lit@),
{
    let ghost sub = v@.subrange(lo as int, hi as int);
    let n = lit.unicode_len();
    if hi - lo != n {
        proof {
            assert(lower(sub).len() != lit@.len());
        }
        return false;
    }
    let mut t: usize = 0;
    while t < n
        invariant
            lo <= hi <= v.len(),
            hi - lo == n,
            n == lit@.len(),
            sub == v@.subrange(lo as int, hi as int),
            t <= n,
            forall|j: int| 0 <= j < t ==> ascii_lower(sub[j]) == lit@[j],
        decreases n - t,
    {
        if !lower_char_is(v[lo + t], lit.get_char(t)) {
            proof {
                assert(lower(sub)[t as int] != lit@[t as int]);
            }
            return false;
        }
        t = t + 1;
    }
    assert(lower(sub) =~= lit@);
    true
}

} // verus!
