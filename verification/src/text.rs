//! Character-level string helpers with exact specifications.

use vstd::prelude::*;
use vstd::string::*;

verus! {

/// The characters of `s`, in order.
pub fn chars_of(s: &str) -> (v: Vec<char>)
    ensures
        v@ == s@,
{
    let mut v: Vec<char> = Vec::new();
    for c in it: s.chars()
        invariant
            v@ == it.seq().take(it.index() as int),
    {
        v.push(c);
    }
    v
}

/// Whether two slices of characters hold the same characters.
fn chars_eq(a: &Vec<char>, b: &Vec<char>) -> (res: bool)
    ensures
        res == (a@ == b@),
{
    if a.len() != b.len() {
        return false;
    }
    let n = a.len();
    for i in 0..n
        invariant
            n == a.len(),
            n == b.len(),
            forall|j: int| 0 <= j < i ==> a@[j] == b@[j],
    {
        if a[i] != b[i] {
            return false;
        }
    }
    assert(a@ =~= b@);
    true
}

/// Whether two strings are equal.
pub fn str_eq(a: &str, b: &str) -> (res: bool)
    ensures
        res == (a@ == b@),
{
    let ca = chars_of(a);
    let cb = chars_of(b);
    chars_eq(&ca, &cb)
}

/// Whether `s` begins with `prefix`.
pub fn starts_with(s: &str, prefix: &str) -> (res: bool)
    ensures
        res == prefix@.is_prefix_of(s@),
{
    let cs = chars_of(s);
    let cp = chars_of(prefix);
    if cp.len() > cs.len() {
        return false;
    }
    let n = cp.len();
    for i in 0..n
        invariant
            n == cp.len(),
            n <= cs.len(),
            cs@ == s@,
            cp@ == prefix@,
            forall|j: int| 0 <= j < i ==> cp@[j] == cs@[j],
    {
        if cp[i] != cs[i] {
            return false;
        }
    }
    assert(prefix@ =~= s@.take(n as int));
    true
}

/// `s` with `prefix` removed from its front, or `None` when `s` does not
/// begin with `prefix`.
pub fn strip_prefix(s: &str, prefix: &str) -> (res: Option<String>)
    ensures
        prefix@.is_prefix_of(s@) <==> res is Some,
        res matches Some(r) ==> r@ == s@.skip(prefix@.len() as int),
{
    if starts_with(s, prefix) {
        let n = s.unicode_len();
        let p = prefix.unicode_len();
        let rest = s.substring_char(p, n);
        assert(rest@ =~= s@.skip(p as int));
        Some(rest.to_owned())
    } else {
        None
    }
}

/// Whether `suffix` ends `s`.
pub open spec fn is_suffix(suffix: Seq<char>, s: Seq<char>) -> bool {
    suffix.len() <= s.len() && s.skip(s.len() - suffix.len()) == suffix
}

/// `s` with `suffix` removed from its end, or `None` when `s` does not end
/// with `suffix`.
pub fn strip_suffix(s: &str, suffix: &str) -> (res: Option<String>)
    ensures
        is_suffix(suffix@, s@) <==> res is Some,
        res matches Some(r) ==> r@ == s@.take(s@.len() - suffix@.len()),
{
    let cs = chars_of(s);
    let cx = chars_of(suffix);
    if cx.len() > cs.len() {
        return None;
    }
    let n = cs.len();
    let m = cx.len();
    let off = n - m;
    for i in 0..m
        invariant
            n == cs.len(),
            m == cx.len(),
            off == n - m,
            cs@ == s@,
            cx@ == suffix@,
            forall|j: int| 0 <= j < i ==> cx@[j] == cs@[off + j],
    {
        if cx[i] != cs[off + i] {
            assert(s@.skip(off as int)[i as int] != suffix@[i as int]);
            return None;
        }
    }
    assert(s@.skip(off as int) =~= suffix@);
    let head = s.substring_char(0, off);
    assert(head@ =~= s@.take(off as int));
    Some(head.to_owned())
}


/// Unicode `White_Space`, the set that `char::is_whitespace` tests.
pub open spec fn is_ws(c: char) -> bool {
    let u = c as u32;
    ||| 0x9 <= u <= 0xd
    ||| u == 0x20
    ||| u == 0x85
    ||| u == 0xa0
    ||| u == 0x1680
    ||| 0x2000 <= u <= 0x200a
    ||| u == 0x2028
    ||| u == 0x2029
    ||| u == 0x202f
    ||| u == 0x205f
    ||| u == 0x3000
}

/// Whether `c` is Unicode white space.
pub fn is_whitespace(c: char) -> (res: bool)
    ensures
        res == is_ws(c),
{
    let u = c as u32;
    (0x9 <= u && u <= 0xd) || u == 0x20 || u == 0x85 || u == 0xa0 || u == 0x1680 || (0x2000 <= u
        && u <= 0x200a) || u == 0x2028 || u == 0x2029 || u == 0x202f || u == 0x205f || u == 0x3000
}

/// `s` without its leading white space.
pub open spec fn trim_start_spec(s: Seq<char>) -> Seq<char>
    decreases s.len(),
{
    if s.len() > 0 && is_ws(s[0]) {
        trim_start_spec(s.drop_first())
    } else {
        s
    }
}

/// `s` without its trailing white space.
pub open spec fn trim_end_spec(s: Seq<char>) -> Seq<char>
    decreases s.len(),
{
    if s.len() > 0 && is_ws(s.last()) {
        trim_end_spec(s.drop_last())
    } else {
        s
    }
}

/// `s` without leading and trailing white space.
pub open spec fn trim_spec(s: Seq<char>) -> Seq<char> {
    trim_end_spec(trim_start_spec(s))
}

proof fn lemma_trim_start_skip(s: Seq<char>, lo: int)
    requires
        0 <= lo <= s.len(),
        forall|j: int| 0 <= j < lo ==> is_ws(#[trigger] s[j]),
        lo == s.len() || !is_ws(s[lo]),
    ensures
        trim_start_spec(s) == s.skip(lo),
    decreases lo,
{
    if lo == 0 {
        assert(s.skip(0) =~= s);
    } else {
        let t = s.drop_first();
        assert forall|j: int| 0 <= j < lo - 1 implies is_ws(#[trigger] t[j]) by {
            assert(t[j] == s[j + 1]);
        }
        if lo - 1 < t.len() {
            assert(t[lo - 1] == s[lo]);
        }
        lemma_trim_start_skip(t, lo - 1);
        assert(t.skip(lo - 1) =~= s.skip(lo));
    }
}

proof fn lemma_trim_end_take(s: Seq<char>, hi: int)
    requires
        0 <= hi <= s.len(),
        forall|j: int| hi <= j < s.len() ==> is_ws(#[trigger] s[j]),
        hi == 0 || !is_ws(s[hi - 1]),
    ensures
        trim_end_spec(s) == s.take(hi),
    decreases s.len() - hi,
{
    if hi == s.len() {
        assert(s.take(hi) =~= s);
    } else {
        let t = s.drop_last();
        assert forall|j: int| hi <= j < t.len() implies is_ws(#[trigger] t[j]) by {
            assert(t[j] == s[j]);
        }
        if hi > 0 {
            assert(t[hi - 1] == s[hi - 1]);
        }
        lemma_trim_end_take(t, hi);
        assert(t.take(hi) =~= s.take(hi));
    }
}

/// Index of the first character of `cs` at or after `from` that is not
/// white space (the length when there is none).
fn skip_ws(cs: &Vec<char>, from: usize) -> (lo: usize)
    requires
        from <= cs.len(),
    ensures
        from <= lo <= cs.len(),
        forall|j: int| from <= j < lo ==> is_ws(#[trigger] cs@[j]),
        lo == cs.len() || !is_ws(cs@[lo as int]),
{
    let mut lo = from;
    while lo < cs.len() && is_whitespace(cs[lo])
        invariant
            from <= lo <= cs.len(),
            forall|j: int| from <= j < lo ==> is_ws(#[trigger] cs@[j]),
        decreases cs.len() - lo,
    {
        lo = lo + 1;
    }
    lo
}

/// `s` with leading white space removed.
pub fn trim_start(s: &str) -> (res: String)
    ensures
        res@ == trim_start_spec(s@),
{
    let cs = chars_of(s);
    let lo = skip_ws(&cs, 0);
    proof {
        lemma_trim_start_skip(s@, lo as int);
    }
    let r = s.substring_char(lo, cs.len());
    assert(r@ =~= s@.skip(lo as int));
    r.to_owned()
}

/// `s` with leading and trailing white space removed.
pub fn trim(s: &str) -> (res: String)
    ensures
        res@ == trim_spec(s@),
{
    let cs = chars_of(s);
    let n = cs.len();
    let lo = skip_ws(&cs, 0);
    let mut hi = n;
    while hi > lo && is_whitespace(cs[hi - 1])
        invariant
            lo <= hi <= n,
            n == cs.len(),
            cs@ == s@,
            forall|j: int| hi <= j < n ==> is_ws(#[trigger] cs@[j]),
        decreases hi,
    {
        hi = hi - 1;
    }
    proof {
        lemma_trim_start_skip(s@, lo as int);
        let t = s@.skip(lo as int);
        assert forall|j: int| hi - lo <= j < t.len() implies is_ws(#[trigger] t[j]) by {
            assert(t[j] == s@[j + lo]);
        }
        if hi > lo {
            assert(t[hi - lo - 1] == s@[hi - 1]);
        }
        lemma_trim_end_take(t, hi - lo);
        assert(t.take(hi - lo) =~= s@.subrange(lo as int, hi as int));
    }
    let r = s.substring_char(lo, hi);
    r.to_owned()
}

/// Number of leading characters of `s` that differ from `c` (the index of
/// the first `c`, or the length when `c` does not occur).
pub open spec fn count_until(s: Seq<char>, c: char) -> nat
    decreases s.len(),
{
    if s.len() == 0 || s[0] == c {
        0
    } else {
        1 + count_until(s.drop_first(), c)
    }
}

proof fn lemma_count_until(s: Seq<char>, c: char, k: int)
    requires
        0 <= k <= s.len(),
        forall|j: int| 0 <= j < k ==> #[trigger] s[j] != c,
        k == s.len() || s[k] == c,
    ensures
        count_until(s, c) == k,
    decreases k,
{
    if k > 0 {
        let t = s.drop_first();
        assert forall|j: int| 0 <= j < k - 1 implies #[trigger] t[j] != c by {
            assert(t[j] == s[j + 1]);
        }
        if k - 1 < t.len() {
            assert(t[k - 1] == s[k]);
        }
        lemma_count_until(t, c, k - 1);
    }
}

proof fn lemma_count_until_bound(s: Seq<char>, c: char)
    ensures
        count_until(s, c) <= s.len(),
        count_until(s, c) < s.len() ==> s[count_until(s, c) as int] == c,
    decreases s.len(),
{
    if s.len() > 0 && s[0] != c {
        lemma_count_until_bound(s.drop_first(), c);
    }
}

/// `line` without one carriage return at its end.
pub open spec fn strip_cr(line: Seq<char>) -> Seq<char> {
    if line.len() > 0 && line.last() == '\r' {
        line.drop_last()
    } else {
        line
    }
}

/// The lines of `s` as `str::lines` yields them: split at `\n`, a `\r`
/// just before a `\n` dropped, and no empty line after a final `\n`.
pub open spec fn lines_spec(s: Seq<char>) -> Seq<Seq<char>>
    decreases s.len(),
{
    if s.len() == 0 {
        Seq::empty()
    } else {
        let i = count_until(s, '\n');
        if i >= s.len() {
            seq![s]
        } else {
            seq![strip_cr(s.take(i as int))] + lines_spec(s.skip(i as int + 1))
        }
    }
}

/// Index of the first `c` in `cs` at or after `from` (the length when none).
fn find_char(cs: &Vec<char>, from: usize, c: char) -> (j: usize)
    requires
        from <= cs.len(),
    ensures
        from <= j <= cs.len(),
        forall|k: int| from <= k < j ==> #[trigger] cs@[k] != c,
        j == cs.len() || cs@[j as int] == c,
        j - from == count_until(cs@.skip(from as int), c),
{
    let mut j = from;
    while j < cs.len() && cs[j] != c
        invariant
            from <= j <= cs.len(),
            forall|k: int| from <= k < j ==> #[trigger] cs@[k] != c,
        decreases cs.len() - j,
    {
        j = j + 1;
    }
    proof {
        let t = cs@.skip(from as int);
        assert forall|k: int| 0 <= k < j - from implies #[trigger] t[k] != c by {
            assert(t[k] == cs@[k + from]);
        }
        if j < cs.len() {
            assert(t[j - from] == cs@[j as int]);
        }
        lemma_count_until(t, c, j - from);
    }
    j
}

/// The lines of `s`, as `str::lines` yields them.
pub fn lines(s: &str) -> (res: Vec<String>)
    ensures
        res.deep_view() == lines_spec(s@),
{
    let cs = chars_of(s);
    let n = cs.len();
    let mut res: Vec<String> = Vec::new();
    let mut start: usize = 0;
    assert(s@.skip(0) =~= s@);
    while start < n
        invariant
            n == cs.len(),
            cs@ == s@,
            start <= n,
            res.deep_view() + lines_spec(s@.skip(start as int)) == lines_spec(s@),
        decreases n - start,
    {
        let j = find_char(&cs, start, '\n');
        let ghost t = s@.skip(start as int);
        if j == n {
            let piece = s.substring_char(start, n);
            assert(piece@ =~= t);
            let ghost old_dv = res.deep_view();
            res.push(piece.to_owned());
            assert(res.deep_view() =~= old_dv.push(t));
            assert(lines_spec(t) == seq![t]);
            assert(s@.skip(n as int) =~= Seq::<char>::empty());
            assert(old_dv + seq![t] =~= res.deep_view() + lines_spec(s@.skip(n as int)));
            start = n;
        } else {
            let end = if j > start && cs[j - 1] == '\r' {
                j - 1
            } else {
                j
            };
            let piece = s.substring_char(start, end);
            let ghost line = t.take(j - start);
            assert(piece@ =~= strip_cr(line));
            let ghost old_dv = res.deep_view();
            res.push(piece.to_owned());
            assert(res.deep_view() =~= old_dv.push(strip_cr(line)));
            assert(t.skip(j - start + 1) =~= s@.skip(j + 1));
            assert(lines_spec(t) == seq![strip_cr(line)] + lines_spec(s@.skip(j + 1)));
            assert(old_dv + lines_spec(t) =~= res.deep_view() + lines_spec(s@.skip(j + 1)));
            start = j + 1;
        }
    }
    assert(s@.skip(n as int) =~= Seq::<char>::empty());
    assert(res.deep_view() + Seq::<Seq<char>>::empty() =~= res.deep_view());
    res
}


/// Number of leading characters of `s` that are not white space.
pub open spec fn count_until_ws(s: Seq<char>) -> nat
    decreases s.len(),
{
    if s.len() == 0 || is_ws(s[0]) {
        0
    } else {
        1 + count_until_ws(s.drop_first())
    }
}

/// The white-space separated words of `s`, as `str::split_whitespace`
/// yields them.
pub open spec fn words_spec(s: Seq<char>) -> Seq<Seq<char>>
    decreases s.len(),
{
    if s.len() == 0 {
        Seq::empty()
    } else if is_ws(s[0]) {
        words_spec(s.drop_first())
    } else {
        let k = count_until_ws(s);
        if k >= s.len() {
            seq![s]
        } else {
            seq![s.take(k as int)] + words_spec(s.skip(k as int))
        }
    }
}

proof fn lemma_count_until_ws(s: Seq<char>, k: int)
    requires
        0 <= k <= s.len(),
        forall|j: int| 0 <= j < k ==> !is_ws(#[trigger] s[j]),
        k == s.len() || is_ws(s[k]),
    ensures
        count_until_ws(s) == k,
    decreases k,
{
    if k > 0 {
        let t = s.drop_first();
        assert forall|j: int| 0 <= j < k - 1 implies !is_ws(#[trigger] t[j]) by {
            assert(t[j] == s[j + 1]);
        }
        if k - 1 < t.len() {
            assert(t[k - 1] == s[k]);
        }
        lemma_count_until_ws(t, k - 1);
    }
}

proof fn lemma_words_skip_ws(s: Seq<char>, lo: int)
    requires
        0 <= lo <= s.len(),
        forall|j: int| 0 <= j < lo ==> is_ws(#[trigger] s[j]),
    ensures
        words_spec(s) == words_spec(s.skip(lo)),
    decreases lo,
{
    if lo == 0 {
        assert(s.skip(0) =~= s);
    } else {
        let t = s.drop_first();
        assert forall|j: int| 0 <= j < lo - 1 implies is_ws(#[trigger] t[j]) by {
            assert(t[j] == s[j + 1]);
        }
        lemma_words_skip_ws(t, lo - 1);
        assert(t.skip(lo - 1) =~= s.skip(lo));
    }
}

/// The white-space separated words of `s`.
pub fn split_whitespace(s: &str) -> (res: Vec<String>)
    ensures
        res.deep_view() == words_spec(s@),
{
    let cs = chars_of(s);
    let n = cs.len();
    let mut res: Vec<String> = Vec::new();
    let mut start: usize = 0;
    assert(s@.skip(0) =~= s@);
    while start < n
        invariant
            n == cs.len(),
            cs@ == s@,
            start <= n,
            res.deep_view() + words_spec(s@.skip(start as int)) == words_spec(s@),
        decreases n - start,
    {
        let lo = skip_ws(&cs, start);
        proof {
            let t = s@.skip(start as int);
            assert forall|j: int| 0 <= j < lo - start implies is_ws(#[trigger] t[j]) by {
                assert(t[j] == cs@[j + start]);
            }
            lemma_words_skip_ws(t, lo - start);
            assert(t.skip(lo - start) =~= s@.skip(lo as int));
        }
        if lo == n {
            start = n;
        } else {
            let mut hi = lo;
            while hi < n && !is_whitespace(cs[hi])
                invariant
                    lo <= hi <= n,
                    n == cs.len(),
                    forall|j: int| lo <= j < hi ==> !is_ws(#[trigger] cs@[j]),
                decreases n - hi,
            {
                hi = hi + 1;
            }
            let ghost t = s@.skip(lo as int);
            proof {
                assert forall|j: int| 0 <= j < hi - lo implies !is_ws(#[trigger] t[j]) by {
                    assert(t[j] == cs@[j + lo]);
                }
                if hi < n {
                    assert(t[hi - lo] == cs@[hi as int]);
                }
                lemma_count_until_ws(t, hi - lo);
                assert(t[0] == cs@[lo as int]);
            }
            let piece = s.substring_char(lo, hi);
            assert(piece@ =~= t.take(hi - lo));
            let ghost old_dv = res.deep_view();
            res.push(piece.to_owned());
            assert(res.deep_view() =~= old_dv.push(t.take(hi - lo)));
            assert(t.skip(hi - lo) =~= s@.skip(hi as int));
            if hi == n {
                assert(t.take(hi - lo) =~= t);
                assert(s@.skip(hi as int) =~= Seq::<char>::empty());
            }
            assert(words_spec(t) == seq![t.take(hi - lo)] + words_spec(s@.skip(hi as int)));
            assert(old_dv + words_spec(t) =~= res.deep_view() + words_spec(s@.skip(hi as int)));
            start = hi;
        }
    }
    assert(s@.skip(n as int) =~= Seq::<char>::empty());
    assert(res.deep_view() + Seq::<Seq<char>>::empty() =~= res.deep_view());
    res
}

/// `s` with every occurrence of `pat` replaced by `rep`, matches taken
/// from the left without overlap, as `str::replace` does.
pub open spec fn replace_spec(s: Seq<char>, pat: Seq<char>, rep: Seq<char>) -> Seq<char>
    recommends
        pat.len() > 0,
    decreases s.len(),
{
    if s.len() == 0 {
        Seq::empty()
    } else if pat.len() > 0 && pat.is_prefix_of(s) {
        rep + replace_spec(s.skip(pat.len() as int), pat, rep)
    } else {
        seq![s[0]] + replace_spec(s.drop_first(), pat, rep)
    }
}

/// Whether `pat` occurs in `cs` at position `i`.
fn matches_at(cs: &Vec<char>, pat: &Vec<char>, i: usize) -> (res: bool)
    requires
        i <= cs.len(),
    ensures
        res == pat@.is_prefix_of(cs@.skip(i as int)),
{
    if pat.len() > cs.len() - i {
        return false;
    }
    let m = pat.len();
    for k in 0..m
        invariant
            m == pat.len(),
            i + m <= cs.len(),
            forall|j: int| 0 <= j < k ==> pat@[j] == cs@[i + j],
    {
        if pat[k] != cs[i + k] {
            assert(cs@.skip(i as int)[k as int] == cs@[i + k]);
            return false;
        }
    }
    assert(pat@ =~= cs@.skip(i as int).take(m as int));
    true
}

/// `s` with every occurrence of the non-empty `pat` replaced by `rep`.
pub fn replace(s: &str, pat: &str, rep: &str) -> (res: String)
    requires
        pat@.len() > 0,
    ensures
        res@ == replace_spec(s@, pat@, rep@),
{
    let cs = chars_of(s);
    let cp = chars_of(pat);
    let n = cs.len();
    let mut res = String::new();
    let mut i: usize = 0;
    assert(s@.skip(0) =~= s@);
    while i < n
        invariant
            n == cs.len(),
            cs@ == s@,
            cp@ == pat@,
            pat@.len() > 0,
            i <= n,
            res@ + replace_spec(s@.skip(i as int), pat@, rep@) == replace_spec(s@, pat@, rep@),
        decreases n - i,
    {
        let ghost t = s@.skip(i as int);
        if matches_at(&cs, &cp, i) {
            let ghost old_res = res@;
            res.append(rep);
            assert(t.skip(pat@.len() as int) =~= s@.skip(i + pat@.len()));
            assert(old_res + replace_spec(t, pat@, rep@) =~= res@ + replace_spec(
                s@.skip(i + pat@.len()),
                pat@,
                rep@,
            ));
            i = i + cp.len();
        } else {
            let ghost old_res = res@;
            res.append(s.substring_char(i, i + 1));
            assert(t.drop_first() =~= s@.skip(i + 1));
            assert(seq![t[0]] =~= s@.subrange(i as int, i + 1));
            assert(old_res + replace_spec(t, pat@, rep@) =~= res@ + replace_spec(
                s@.skip(i + 1),
                pat@,
                rep@,
            ));
            i = i + 1;
        }
    }
    assert(s@.skip(n as int) =~= Seq::<char>::empty());
    assert(res@ + Seq::<char>::empty() =~= res@);
    res
}

/// The pieces of `parts` with `sep` between each two, as `[T]::join` gives.
pub open spec fn join_spec(parts: Seq<Seq<char>>, sep: Seq<char>) -> Seq<char>
    decreases parts.len(),
{
    if parts.len() == 0 {
        Seq::empty()
    } else if parts.len() == 1 {
        parts[0]
    } else {
        join_spec(parts.drop_last(), sep) + sep + parts.last()
    }
}

/// The strings of `parts` joined with `sep` between each two.
pub fn join(parts: &Vec<String>, sep: &str) -> (res: String)
    ensures
        res@ == join_spec(parts.deep_view(), sep@),
{
    let mut res = String::new();
    let n = parts.len();
    for i in 0..n
        invariant
            n == parts.len(),
            res@ == join_spec(parts.deep_view().take(i as int), sep@),
    {
        let ghost pre = parts.deep_view().take(i as int);
        let ghost post = parts.deep_view().take(i + 1);
        assert(post.drop_last() =~= pre);
        if i > 0 {
            res.append(sep);
        } else {
            assert(pre =~= Seq::<Seq<char>>::empty());
        }
        res.append(parts[i].as_str());
    }
    assert(parts.deep_view().take(n as int) =~= parts.deep_view());
    res
}

/// The decimal digit for `d`.
pub open spec fn digit_char(d: nat) -> char {
    if d == 0 {
        '0'
    } else if d == 1 {
        '1'
    } else if d == 2 {
        '2'
    } else if d == 3 {
        '3'
    } else if d == 4 {
        '4'
    } else if d == 5 {
        '5'
    } else if d == 6 {
        '6'
    } else if d == 7 {
        '7'
    } else if d == 8 {
        '8'
    } else {
        '9'
    }
}

/// The decimal notation of `n`, without leading zeros.
pub open spec fn decimal_spec(n: nat) -> Seq<char>
    decreases n,
{
    if n < 10 {
        seq![digit_char(n)]
    } else {
        decimal_spec(n / 10) + seq![digit_char(n % 10)]
    }
}

/// The decimal notation of `n`, as `usize::to_string` writes it.
pub fn decimal_string(n: usize) -> (res: String)
    ensures
        res@ == decimal_spec(n as nat),
    decreases n,
{
    let digits = "0123456789";
    proof {
        reveal_strlit("0123456789");
    }
    let d = n % 10;
    let one = digits.substring_char(d, d + 1);
    assert(one@ =~= seq![digit_char(d as nat)]);
    if n < 10 {
        one.to_owned()
    } else {
        let mut head = decimal_string(n / 10);
        head.append(one);
        head
    }
}


/// Lexicographic order on character sequences by code point, the order
/// `String`'s `Ord` gives.
pub open spec fn seq_lt(a: Seq<char>, b: Seq<char>) -> bool
    decreases a.len(),
{
    if a.len() == 0 {
        b.len() > 0
    } else if b.len() == 0 {
        false
    } else if a[0] != b[0] {
        (a[0] as u32) < (b[0] as u32)
    } else {
        seq_lt(a.drop_first(), b.drop_first())
    }
}

/// The order is total and strict: exactly one of `a < b`, `a == b`,
/// `b < a` holds.
pub proof fn lemma_seq_lt_trichotomy(a: Seq<char>, b: Seq<char>)
    ensures
        seq_lt(a, b) || a == b || seq_lt(b, a),
        !(seq_lt(a, b) && seq_lt(b, a)),
        !(seq_lt(a, b) && a == b),
    decreases a.len(),
{
    if a.len() > 0 && b.len() > 0 && a[0] == b[0] {
        lemma_seq_lt_trichotomy(a.drop_first(), b.drop_first());
        if a.drop_first() == b.drop_first() {
            assert(a.len() == b.len());
            assert forall|i: int| 0 <= i < a.len() implies a[i] == b[i] by {
                if i > 0 {
                    assert(a[i] == a.drop_first()[i - 1]);
                    assert(b[i] == b.drop_first()[i - 1]);
                }
            }
            assert(a =~= b);
        }
    }
    if a.len() == 0 && b.len() == 0 {
        assert(a =~= b);
    }
    if a.len() > 0 && b.len() > 0 && a[0] != b[0] {
        assert((a[0] as u32) != (b[0] as u32)) by {
            if (a[0] as u32) == (b[0] as u32) {
                vstd::utf8::char_u32_cast(a[0], a[0] as u32);
                vstd::utf8::char_u32_cast(b[0], b[0] as u32);
                assert(a[0] == b[0]);
            }
        }
    }
}

/// The order is transitive.
pub proof fn lemma_seq_lt_transitive(a: Seq<char>, b: Seq<char>, c: Seq<char>)
    requires
        seq_lt(a, b),
        seq_lt(b, c),
    ensures
        seq_lt(a, c),
    decreases a.len(),
{
    if a.len() > 0 && b.len() > 0 && c.len() > 0 && a[0] == b[0] && b[0] == c[0] {
        lemma_seq_lt_transitive(a.drop_first(), b.drop_first(), c.drop_first());
    }
    if a.len() > 0 && b.len() > 0 && c.len() > 0 && (a[0] != b[0] || b[0] != c[0]) {
        if a[0] == c[0] {
            assert((a[0] as u32) == (c[0] as u32));
        }
    }
}

/// Whether `a` comes before `b` in code-point order.
pub fn str_lt(a: &str, b: &str) -> (res: bool)
    ensures
        res == seq_lt(a@, b@),
{
    let ca = chars_of(a);
    let cb = chars_of(b);
    let mut i: usize = 0;
    assert(a@.skip(0) =~= a@);
    assert(b@.skip(0) =~= b@);
    while i < ca.len() && i < cb.len() && ca[i] == cb[i]
        invariant
            i <= ca.len(),
            i <= cb.len(),
            ca@ == a@,
            cb@ == b@,
            seq_lt(a@, b@) == seq_lt(a@.skip(i as int), b@.skip(i as int)),
        decreases ca.len() - i,
    {
        proof {
            let x = a@.skip(i as int);
            let y = b@.skip(i as int);
            assert(x.drop_first() =~= a@.skip(i + 1));
            assert(y.drop_first() =~= b@.skip(i + 1));
        }
        i = i + 1;
    }
    let ghost x = a@.skip(i as int);
    let ghost y = b@.skip(i as int);
    if i == ca.len() {
        i < cb.len()
    } else if i == cb.len() {
        false
    } else {
        assert(x[0] == ca@[i as int] && y[0] == cb@[i as int]);
        (ca[i] as u32) < (cb[i] as u32)
    }
}


/// No character of `s` is `c`.
pub open spec fn lacks_char(s: Seq<char>, c: char) -> bool {
    forall|i: int| 0 <= i < s.len() ==> #[trigger] s[i] != c
}

proof fn lemma_count_until_lacks(s: Seq<char>, c: char)
    ensures
        lacks_char(s.take(count_until(s, c) as int), c),
    decreases s.len(),
{
    lemma_count_until_bound(s, c);
    if s.len() > 0 && s[0] != c {
        let t = s.drop_first();
        lemma_count_until_lacks(t, c);
        let k = count_until(s, c) as int;
        assert forall|i: int| 0 <= i < k implies #[trigger] s.take(k)[i] != c by {
            if i > 0 {
                assert(s.take(k)[i] == t.take(k - 1)[i - 1]);
            }
        }
    }
}

/// No line that `str::lines` yields holds a `\n`.
pub proof fn lemma_lines_lack_newline(s: Seq<char>)
    ensures
        forall|i: int| 0 <= i < lines_spec(s).len() ==> lacks_char(#[trigger] lines_spec(s)[i], '\n'),
    decreases s.len(),
{
    if s.len() > 0 {
        let k = count_until(s, '\n');
        lemma_count_until_bound(s, '\n');
        lemma_count_until_lacks(s, '\n');
        if k >= s.len() {
            assert(s.take(k as int) =~= s);
        } else {
            lemma_lines_lack_newline(s.skip(k as int + 1));
            let first = strip_cr(s.take(k as int));
            assert(lacks_char(first, '\n')) by {
                assert forall|i: int| 0 <= i < first.len() implies #[trigger] first[i] != '\n' by {
                    assert(first[i] == s.take(k as int)[i]);
                }
            }
            let rest = lines_spec(s.skip(k as int + 1));
            assert forall|i: int| 0 <= i < lines_spec(s).len() implies lacks_char(
                #[trigger] lines_spec(s)[i],
                '\n',
            ) by {
                if i > 0 {
                    assert(lines_spec(s)[i] == rest[i - 1]);
                }
            }
        }
    }
}

/// Each line followed by `\n`, all concatenated.
pub open spec fn terminated(ls: Seq<Seq<char>>) -> Seq<char>
    decreases ls.len(),
{
    if ls.len() == 0 {
        Seq::empty()
    } else {
        ls[0] + seq!['\n'] + terminated(ls.drop_first())
    }
}

proof fn lemma_terminated_push(ls: Seq<Seq<char>>, l: Seq<char>)
    ensures
        terminated(ls.push(l)) == terminated(ls) + l + seq!['\n'],
    decreases ls.len(),
{
    if ls.len() == 0 {
        assert(ls.push(l).drop_first() =~= Seq::<Seq<char>>::empty());
        assert(terminated(Seq::<Seq<char>>::empty()) == Seq::<char>::empty());
        assert(terminated(ls) == Seq::<char>::empty());
        assert(ls.push(l)[0] == l);
        assert(terminated(ls.push(l)) =~= l + seq!['\n']);
    } else {
        assert(ls.push(l).drop_first() =~= ls.drop_first().push(l));
        lemma_terminated_push(ls.drop_first(), l);
        assert(terminated(ls.push(l)) =~= terminated(ls) + l + seq!['\n']);
    }
}

/// Joining with `\n` and ending with `\n` puts a `\n` after each line.
pub proof fn lemma_join_newline_terminated(ls: Seq<Seq<char>>)
    requires
        ls.len() > 0,
    ensures
        join_spec(ls, "\n"@) + "\n"@ == terminated(ls),
    decreases ls.len(),
{
    reveal_strlit("\n");
    assert("\n"@ =~= seq!['\n']);
    if ls.len() == 1 {
        assert(ls.drop_first() =~= Seq::<Seq<char>>::empty());
        assert(terminated(Seq::<Seq<char>>::empty()) == Seq::<char>::empty());
        assert(terminated(ls) =~= ls[0] + seq!['\n']);
    } else {
        assert(ls.drop_last().len() > 0);
        lemma_join_newline_terminated(ls.drop_last());
        lemma_terminated_push(ls.drop_last(), ls.last());
        assert(ls.drop_last().push(ls.last()) =~= ls);
        assert(join_spec(ls, "\n"@) + "\n"@ =~= (join_spec(ls.drop_last(), "\n"@) + "\n"@) + ls.last()
            + seq!['\n']);
    }
}

/// Reading back lines that were each ended by `\n` gives them again, each
/// without a final carriage return.
pub proof fn lemma_lines_of_terminated(ls: Seq<Seq<char>>)
    requires
        forall|i: int| 0 <= i < ls.len() ==> lacks_char(#[trigger] ls[i], '\n'),
    ensures
        lines_spec(terminated(ls)) == Seq::new(ls.len(), |i: int| strip_cr(ls[i])),
    decreases ls.len(),
{
    if ls.len() == 0 {
        assert(lines_spec(terminated(ls)) =~= Seq::new(ls.len(), |i: int| strip_cr(ls[i])));
    } else {
        let l = ls[0];
        let rest = ls.drop_first();
        assert forall|i: int| 0 <= i < rest.len() implies lacks_char(#[trigger] rest[i], '\n') by {
            assert(rest[i] == ls[i + 1]);
        }
        lemma_lines_of_terminated(rest);
        let t = terminated(ls);
        assert(t == l + seq!['\n'] + terminated(rest));
        assert(lacks_char(ls[0], '\n'));
        assert forall|j: int| 0 <= j < l.len() implies #[trigger] t[j] != '\n' by {
            assert(t[j] == l[j]);
        }
        assert(t[l.len() as int] == '\n');
        lemma_count_until(t, '\n', l.len() as int);
        assert(t.take(l.len() as int) =~= l);
        assert(t.skip(l.len() as int + 1) =~= terminated(rest));
        assert(lines_spec(t) == seq![strip_cr(l)] + lines_spec(terminated(rest)));
        assert(lines_spec(t) =~= Seq::new(ls.len(), |i: int| strip_cr(ls[i])));
    }
}

/// Trimming the end keeps a prefix.
pub proof fn lemma_trim_end_prefix(s: Seq<char>)
    ensures
        trim_end_spec(s).is_prefix_of(s),
    decreases s.len(),
{
    if s.len() > 0 && is_ws(s.last()) {
        lemma_trim_end_prefix(s.drop_last());
        assert(s.drop_last().is_prefix_of(s));
    }
}

/// Dropping the last character and trimming the start keeps a prefix of
/// the trimmed whole.
pub proof fn lemma_trim_start_drop_last(s: Seq<char>)
    requires
        s.len() > 0,
    ensures
        trim_start_spec(s.drop_last()).is_prefix_of(trim_start_spec(s)),
    decreases s.len(),
{
    if is_ws(s[0]) {
        if s.len() == 1 {
            assert(s.drop_last() =~= Seq::<char>::empty());
        } else {
            assert(s.drop_last().drop_first() =~= s.drop_first().drop_last());
            assert(s.drop_last()[0] == s[0]);
            lemma_trim_start_drop_last(s.drop_first());
        }
    } else {
        if s.len() > 1 {
            assert(s.drop_last()[0] == s[0]);
        }
    }
}

/// A sequence that starts and ends with a non-space is its own trim.
pub proof fn lemma_trim_unchanged(s: Seq<char>)
    requires
        s.len() > 0,
        !is_ws(s[0]),
        !is_ws(s.last()),
    ensures
        trim_spec(s) == s,
{
}

proof fn lemma_trim_start_len(s: Seq<char>)
    ensures
        trim_start_spec(s).len() <= s.len(),
        s.len() > 0 && is_ws(s[0]) ==> trim_start_spec(s).len() < s.len(),
    decreases s.len(),
{
    if s.len() > 0 && is_ws(s[0]) {
        lemma_trim_start_len(s.drop_first());
    }
}

proof fn lemma_trim_end_len(s: Seq<char>)
    ensures
        trim_end_spec(s).len() <= s.len(),
        s.len() > 0 && is_ws(s.last()) ==> trim_end_spec(s).len() < s.len(),
    decreases s.len(),
{
    if s.len() > 0 && is_ws(s.last()) {
        lemma_trim_end_len(s.drop_last());
    }
}

/// A non-empty sequence that is its own trim starts and ends with a
/// non-space.
pub proof fn lemma_trimmed_ends(s: Seq<char>)
    requires
        s.len() > 0,
        trim_spec(s) == s,
    ensures
        !is_ws(s[0]),
        !is_ws(s.last()),
{
    lemma_trim_start_len(s);
    lemma_trim_end_len(trim_start_spec(s));
    if !is_ws(s[0]) {
        lemma_trim_end_len(s);
    }
}

/// Trimming the start of `s` with a white-space character appended gives
/// the trimmed start of `s` with it appended, or nothing when `s` is all
/// white space.
proof fn lemma_trim_start_push_ws(s: Seq<char>, c: char)
    requires
        is_ws(c),
    ensures
        trim_start_spec(s.push(c)) == if trim_start_spec(s).len() == 0 {
            Seq::<char>::empty()
        } else {
            trim_start_spec(s).push(c)
        },
    decreases s.len(),
{
    let t = s.push(c);
    if s.len() == 0 {
        assert(t[0] == c);
        assert(t.drop_first() =~= Seq::<char>::empty());
        assert(trim_start_spec(Seq::<char>::empty()) == Seq::<char>::empty());
        assert(trim_start_spec(t) == trim_start_spec(t.drop_first()));
    } else if is_ws(s[0]) {
        assert(t[0] == s[0]);
        assert(t.drop_first() =~= s.drop_first().push(c));
        lemma_trim_start_push_ws(s.drop_first(), c);
    } else {
        assert(t[0] == s[0]);
    }
}

/// A final white-space character does not change the trim.
pub proof fn lemma_trim_push_ws(s: Seq<char>, c: char)
    requires
        is_ws(c),
    ensures
        trim_spec(s.push(c)) == trim_spec(s),
{
    lemma_trim_start_push_ws(s, c);
    let z = trim_start_spec(s);
    if z.len() > 0 {
        assert(z.push(c).drop_last() =~= z);
    } else {
        assert(trim_end_spec(z) =~= z);
    }
}

/// Dropping a final carriage return does not change the trim.
pub proof fn lemma_trim_strip_cr(s: Seq<char>)
    ensures
        trim_spec(strip_cr(s)) == trim_spec(s),
{
    if s.len() > 0 && s.last() == '\r' {
        assert(is_ws('\r'));
        lemma_trim_push_ws(s.drop_last(), '\r');
        assert(s.drop_last().push('\r') =~= s);
    }
}

} // verus!

