//! Verified character-level string helpers.
//!
//! Episode titles and URLs are ordinary strings; the matching and filename
//! rules need equality, substring search, suffix tests and simple rewriting,
//! all specified over the string views (`Seq<char>`).

use vstd::prelude::*;

verus! {

use vstd::string::StrSliceExecFns;

/// True when `n` occurs in `h` starting at index `i`.
pub open spec fn matches_at(h: Seq<char>, n: Seq<char>, i: int) -> bool {
    0 <= i && i + n.len() <= h.len() && h.subrange(i, i + n.len() as int) == n
}

/// True when `n` occurs somewhere in `h`.
pub open spec fn contains_seq(h: Seq<char>, n: Seq<char>) -> bool {
    exists|i: int| matches_at(h, n, i)
}

/// True when `h` ends with `n`.
pub open spec fn ends_with_seq(h: Seq<char>, n: Seq<char>) -> bool {
    n.len() <= h.len() && h.subrange(h.len() - n.len(), h.len() as int) == n
}

/// The largest index at or below `i` where `n` matches in `h`, if any.
pub open spec fn rfind_from(h: Seq<char>, n: Seq<char>, i: int) -> Option<int>
    decreases i + 1,
{
    if i < 0 {
        None
    } else if matches_at(h, n, i) {
        Some(i)
    } else {
        rfind_from(h, n, i - 1)
    }
}

/// The start of the last match of `n` in `h`, if any.
pub open spec fn rfind_seq(h: Seq<char>, n: Seq<char>) -> Option<int> {
    rfind_from(h, n, h.len() - n.len())
}

/// `t` with every occurrence of the character `from` rewritten to `to`.
pub open spec fn replaced(t: Seq<char>, from: char, to: char) -> Seq<char> {
    t.map_values(|c: char| if c == from { to } else { c })
}

/// What Unicode lowercasing returns for a character sequence: a function of
/// the characters alone (one character may lowercase to several).
pub uninterp spec fn lower_of(s: Seq<char>) -> Seq<char>;

/// Relies on std's `str::to_lowercase`: the Unicode lowercase mapping
/// depends on the characters alone.
#[verifier::external_body]
pub(crate) fn lowercase(s: &str) -> (r: String)
    ensures
        r@ == lower_of(s@),
{
    s.to_lowercase()
}

/// Relies on std's `String::push`: appends the given character to the string.
#[verifier::external_body]
pub(crate) fn push_char(s: &mut String, c: char)
    ensures
        final(s)@ == old(s)@.push(c),
{
    s.push(c);
}

/// Character-for-character equality of two string slices.
pub fn str_eq(a: &str, b: &str) -> (r: bool)
    ensures
        r == (a@ == b@),
{
    let alen = a.unicode_len();
    let blen = b.unicode_len();
    if alen != blen {
        return false;
    }
    let mut i: usize = 0;
    while i < alen
        invariant
            alen == a@.len(),
            alen == b@.len(),
            i <= alen,
            forall|j: int| 0 <= j < i ==> a@[j] == b@[j],
        decreases alen - i,
    {
        if a.get_char(i) != b.get_char(i) {
            return false;
        }
        i += 1;
    }
    proof {
        assert(a@ =~= b@);
    }
    true
}

/// Whether `n` matches inside `h` at position `i`.
fn is_match_at(h: &str, n: &str, i: usize, nl: usize, hl: usize) -> (r: bool)
    requires
        nl == n@.len(),
        hl == h@.len(),
        i + nl <= hl,
    ensures
        r == matches_at(h@, n@, i as int),
{
    let mut j: usize = 0;
    while j < nl
        invariant
            nl == n@.len(),
            hl == h@.len(),
            i + nl <= hl,
            j <= nl,
            forall|k: int| 0 <= k < j ==> h@[i + k] == n@[k],
        decreases nl - j,
    {
        if h.get_char(i + j) != n.get_char(j) {
            proof {
                if h@.subrange(i as int, i + nl as int) == n@ {
                    assert(h@.subrange(i as int, i + nl as int)[j as int] == h@[i + j]);
                }
            }
            return false;
        }
        j += 1;
    }
    proof {
        assert(h@.subrange(i as int, i + nl as int) =~= n@);
    }
    true
}

/// Substring search, specified by `contains_seq`.
pub fn str_contains(h: &str, n: &str) -> (r: bool)
    ensures
        r == contains_seq(h@, n@),
{
    let hl = h.unicode_len();
    let nl = n.unicode_len();
    if nl > hl {
        proof {
            assert(forall|i: int| !matches_at(h@, n@, i));
        }
        return false;
    }
    if nl == 0 {
        proof {
            assert(h@.subrange(0, 0) =~= n@);
            assert(matches_at(h@, n@, 0));
        }
        return true;
    }
    let mut i: usize = 0;
    while i <= hl - nl
        invariant
            hl == h@.len(),
            nl == n@.len(),
            1 <= nl <= hl,
            i <= hl - nl + 1,
            forall|k: int| 0 <= k < i ==> !matches_at(h@, n@, k),
        decreases hl + 1 - i,
    {
        if is_match_at(h, n, i, nl, hl) {
            return true;
        }
        i += 1;
    }
    proof {
        assert(forall|k: int| k >= i ==> !matches_at(h@, n@, k));
    }
    false
}

/// Suffix test, specified by `ends_with_seq`.
pub fn str_ends_with(h: &str, n: &str) -> (r: bool)
    ensures
        r == ends_with_seq(h@, n@),
{
    let hl = h.unicode_len();
    let nl = n.unicode_len();
    if nl > hl {
        return false;
    }
    is_match_at(h, n, hl - nl, nl, hl)
}

proof fn lemma_rfind_skip(h: Seq<char>, n: Seq<char>, i: int, j: int)
    requires
        i <= j,
        forall|k: int| i < k <= j ==> !matches_at(h, n, k),
    ensures
        rfind_from(h, n, j) == rfind_from(h, n, i),
    decreases j - i,
{
    if i < j {
        lemma_rfind_skip(h, n, i, j - 1);
    }
}

/// The start of the last occurrence of `n` in `h`, specified by `rfind_seq`.
pub fn str_rfind(h: &str, n: &str) -> (r: Option<usize>)
    ensures
        match r {
            Some(i) => rfind_seq(h@, n@) == Some(i as int),
            None => rfind_seq(h@, n@) is None,
        },
{
    let hl = h.unicode_len();
    let nl = n.unicode_len();
    if nl > hl {
        proof {
            assert(h@.len() - n@.len() < 0);
        }
        return None;
    }
    let mut i: usize = hl - nl;
    loop
        invariant
            hl == h@.len(),
            nl == n@.len(),
            nl <= hl,
            i <= hl - nl,
            forall|k: int| i < k <= hl - nl ==> !matches_at(h@, n@, k),
        decreases i,
    {
        if is_match_at(h, n, i, nl, hl) {
            proof {
                lemma_rfind_skip(h@, n@, i as int, h@.len() - n@.len());
            }
            return Some(i);
        }
        if i == 0 {
            proof {
                lemma_rfind_skip(h@, n@, 0, h@.len() - n@.len());
                assert(rfind_from(h@, n@, -1) is None);
                assert(rfind_from(h@, n@, 0) is None);
            }
            return None;
        }
        i -= 1;
    }
}

/// A fresh `String` holding `s[from..to]` (in characters).
pub fn substring_string(s: &str, from: usize, to: usize) -> (r: String)
    requires
        from <= to <= s@.len(),
    ensures
        r@ == s@.subrange(from as int, to as int),
{
    s.substring_char(from, to).to_owned()
}

/// Whether the list holds a string with this view.
pub open spec fn contains_str(list: Seq<String>, t: Seq<char>) -> bool {
    exists|i: int| 0 <= i < list.len() && list[i]@ == t
}

/// Linear membership search in a list of strings.
pub fn list_contains_str(list: &Vec<String>, t: &str) -> (r: bool)
    ensures
        r == contains_str(list@, t@),
{
    let mut i: usize = 0;
    while i < list.len()
        invariant
            i <= list@.len(),
            forall|j: int| 0 <= j < i ==> list@[j]@ != t@,
        decreases list@.len() - i,
    {
        if str_eq(list[i].as_str(), t) {
            return true;
        }
        i += 1;
    }
    false
}

/// A whitespace character for the purposes of trimming.
pub open spec fn is_trim_space(c: char) -> bool {
    c == ' ' || c == '\t' || c == '\n' || c == '\r'
}

/// `t` without its leading whitespace.
pub open spec fn trim_front(t: Seq<char>) -> Seq<char>
    decreases t.len(),
{
    if t.len() > 0 && is_trim_space(t[0]) {
        trim_front(t.drop_first())
    } else {
        t
    }
}

/// `t` without its trailing whitespace.
pub open spec fn trim_back(t: Seq<char>) -> Seq<char>
    decreases t.len(),
{
    if t.len() > 0 && is_trim_space(t.last()) {
        trim_back(t.drop_last())
    } else {
        t
    }
}

/// `t` without leading and trailing whitespace.
pub open spec fn trimmed(t: Seq<char>) -> Seq<char> {
    trim_back(trim_front(t))
}

proof fn lemma_trim_front_skip(t: Seq<char>, a: int)
    requires
        0 <= a <= t.len(),
        forall|j: int| 0 <= j < a ==> is_trim_space(#[trigger] t[j]),
        a < t.len() ==> !is_trim_space(t[a]),
    ensures
        trim_front(t) == t.skip(a),
    decreases a,
{
    if a == 0 {
        assert(t.skip(0) =~= t);
    } else {
        lemma_trim_front_skip(t.drop_first(), a - 1);
        assert(t.drop_first().skip(a - 1) =~= t.skip(a));
    }
}

proof fn lemma_trim_back_take(t: Seq<char>, b: int)
    requires
        0 <= b <= t.len(),
        forall|j: int| b <= j < t.len() ==> is_trim_space(#[trigger] t[j]),
        b > 0 ==> !is_trim_space(t[b - 1]),
    ensures
        trim_back(t) == t.take(b),
    decreases t.len() - b,
{
    if b == t.len() {
        assert(t.take(b) =~= t);
    } else {
        lemma_trim_back_take(t.drop_last(), b);
        assert(t.drop_last().take(b) =~= t.take(b));
    }
}

/// Whether a character is whitespace for trimming.
fn is_space_char(c: char) -> (r: bool)
    ensures
        r == is_trim_space(c),
{
    c == ' ' || c == '\t' || c == '\n' || c == '\r'
}

/// A copy of `s` without leading and trailing whitespace.
pub fn trim_str(s: &str) -> (r: String)
    ensures
        r@ == trimmed(s@),
{
    let len = s.unicode_len();
    let mut a: usize = 0;
    while a < len && is_space_char(s.get_char(a))
        invariant
            len == s@.len(),
            a <= len,
            forall|j: int| 0 <= j < a ==> is_trim_space(#[trigger] s@[j]),
        decreases len - a,
    {
        a += 1;
    }
    proof {
        lemma_trim_front_skip(s@, a as int);
    }
    let mut b: usize = len;
    while b > a && is_space_char(s.get_char(b - 1))
        invariant
            len == s@.len(),
            a <= b <= len,
            forall|j: int| b <= j < len ==> is_trim_space(#[trigger] s@[j]),
        decreases b,
    {
        b -= 1;
    }
    proof {
        let u = s@.skip(a as int);
        assert(forall|j: int| b - a <= j < u.len() ==> is_trim_space(#[trigger] u[j]));
        assert(b - a > 0 ==> u[b - a - 1] == s@[b - 1]);
        lemma_trim_back_take(u, b - a as int);
        assert(u.take(b - a as int) =~= s@.subrange(a as int, b as int));
    }
    substring_string(s, a, b)
}

/// The view of a list of strings.
pub open spec fn seqs_view(v: Seq<String>) -> Seq<Seq<char>> {
    v.map_values(|x: String| x@)
}

/// The segments of `t` between occurrences of `c`.  There is always at
/// least one segment; leading, trailing and adjacent separators yield empty
/// segments.
pub open spec fn split_on(t: Seq<char>, c: char) -> Seq<Seq<char>>
    decreases t.len(),
{
    if t.len() == 0 {
        seq![Seq::<char>::empty()]
    } else if t.last() == c {
        split_on(t.drop_last(), c).push(Seq::empty())
    } else {
        let s = split_on(t.drop_last(), c);
        s.update(s.len() - 1, s.last().push(t.last()))
    }
}

/// Splits `s` on the character `c`, specified by `split_on`.
pub fn split_on_char(s: &str, c: char) -> (r: Vec<String>)
    ensures
        seqs_view(r@) == split_on(s@, c),
{
    let len = s.unicode_len();
    let mut out: Vec<String> = Vec::new();
    let mut cur = String::new();
    let mut i: usize = 0;
    while i < len
        invariant
            len == s@.len(),
            i <= len,
            split_on(s@.subrange(0, i as int), c) == seqs_view(out@).push(cur@),
        decreases len - i,
    {
        proof {
            assert(s@.subrange(0, i + 1 as int).drop_last() =~= s@.subrange(0, i as int));
            assert(s@.subrange(0, i + 1 as int).last() == s@[i as int]);
        }
        let ch = s.get_char(i);
        if ch == c {
            let ghost prev_out = out@;
            let ghost prev_cur = cur@;
            out.push(cur);
            cur = String::new();
            proof {
                assert(seqs_view(out@) =~= seqs_view(prev_out).push(prev_cur));
                assert(split_on(s@.subrange(0, i + 1 as int), c) =~= seqs_view(out@).push(cur@));
            }
        } else {
            let ghost prev_cur = cur@;
            push_char(&mut cur, ch);
            proof {
                let base = seqs_view(out@).push(prev_cur);
                assert(base.len() > 0);
                assert(base.last() == prev_cur);
                assert(split_on(s@.subrange(0, i + 1 as int), c) == base.update(
                    base.len() - 1,
                    base.last().push(ch),
                ));
                assert(base.update(base.len() - 1, prev_cur.push(ch)) =~= seqs_view(out@).push(
                    cur@,
                ));
            }
        }
        i += 1;
    }
    proof {
        assert(s@.subrange(0, len as int) =~= s@);
        let ghost fin_out = out@;
        assert(seqs_view(fin_out.push(cur)) =~= seqs_view(fin_out).push(cur@));
    }
    out.push(cur);
    out
}

/// `t` with each leftmost pair `cc` collapsed to a single `c`.
pub open spec fn collapse_pairs(t: Seq<char>, c: char) -> Seq<char>
    decreases t.len(),
{
    if t.len() < 2 {
        t
    } else if t[0] == c && t[1] == c {
        seq![c] + collapse_pairs(t.skip(2), c)
    } else {
        seq![t[0]] + collapse_pairs(t.skip(1), c)
    }
}

/// A copy of `s` with each doubled `c` collapsed to one, specified by
/// `collapse_pairs`.
pub fn collapse_pairs_str(s: &str, c: char) -> (r: String)
    ensures
        r@ == collapse_pairs(s@, c),
{
    let len = s.unicode_len();
    let mut out = String::new();
    let mut i: usize = 0;
    proof {
        assert(s@.skip(0) =~= s@);
    }
    while i < len
        invariant
            len == s@.len(),
            i <= len,
            out@ + collapse_pairs(s@.skip(i as int), c) == collapse_pairs(s@, c),
        decreases len - i,
    {
        let ghost rest = s@.skip(i as int);
        let ghost prev = out@;
        let ch = s.get_char(i);
        if ch == c && i + 1 < len && s.get_char(i + 1) == c {
            push_char(&mut out, c);
            proof {
                assert(rest[0] == c && rest[1] == c);
                assert(rest.skip(2) =~= s@.skip(i + 2 as int));
                assert(collapse_pairs(rest, c) == seq![c] + collapse_pairs(
                    s@.skip(i + 2 as int),
                    c,
                ));
                assert(prev + (seq![c] + collapse_pairs(s@.skip(i + 2 as int), c)) =~= out@
                    + collapse_pairs(s@.skip(i + 2 as int), c));
            }
            i += 2;
        } else {
            push_char(&mut out, ch);
            proof {
                assert(rest[0] == ch);
                assert(rest.len() >= 2 ==> !(rest[0] == c && rest[1] == c));
                assert(rest.skip(1) =~= s@.skip(i + 1 as int));
                if rest.len() == 1 {
                    assert(s@.skip(i + 1 as int) =~= Seq::<char>::empty());
                    assert(collapse_pairs(s@.skip(i + 1 as int), c) == Seq::<char>::empty());
                    assert(collapse_pairs(rest, c) == rest);
                    assert(rest =~= seq![ch] + collapse_pairs(s@.skip(i + 1 as int), c));
                } else {
                    assert(collapse_pairs(rest, c) == seq![rest[0]] + collapse_pairs(
                        rest.skip(1),
                        c,
                    ));
                }
                assert(collapse_pairs(rest, c) == seq![ch] + collapse_pairs(
                    s@.skip(i + 1 as int),
                    c,
                ));
                assert(prev + (seq![ch] + collapse_pairs(s@.skip(i + 1 as int), c)) =~= out@
                    + collapse_pairs(s@.skip(i + 1 as int), c));
            }
            i += 1;
        }
    }
    proof {
        assert(s@.skip(len as int) =~= Seq::<char>::empty());
        assert(out@ + Seq::<char>::empty() =~= out@);
    }
    out
}

/// A copy of `s` with every `from` character rewritten to `to`.
pub fn replace_char(s: &str, from: char, to: char) -> (r: String)
    ensures
        r@ == replaced(s@, from, to),
{
    let len = s.unicode_len();
    let mut out = String::new();
    let mut i: usize = 0;
    while i < len
        invariant
            len == s@.len(),
            i <= len,
            out@ == replaced(s@.subrange(0, i as int), from, to),
        decreases len - i,
    {
        let c = s.get_char(i);
        let d = if c == from {
            to
        } else {
            c
        };
        push_char(&mut out, d);
        proof {
            assert(replaced(s@.subrange(0, i + 1 as int), from, to) =~= replaced(
                s@.subrange(0, i as int),
                from,
                to,
            ).push(d));
        }
        i += 1;
    }
    proof {
        assert(s@.subrange(0, len as int) =~= s@);
    }
    out
}

} // verus!
