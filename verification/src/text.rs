//! Character-sequence helpers shared by the URL builder, the expander and the
//! failure-record formatter.

use vstd::prelude::*;

verus! {

/// The contents of a list of strings.
pub open spec fn texts(s: Seq<String>) -> Seq<Seq<char>> {
    Seq::new(s.len(), |i: int| s[i]@)
}

/// The contents of an optional string.
pub open spec fn opt_text(o: Option<String>) -> Option<Seq<char>> {
    match o {
        Some(s) => Some(s@),
        None => None,
    }
}

/// `pat` occurs in `s` at offset `i`.
pub open spec fn occurs_at(s: Seq<char>, pat: Seq<char>, i: int) -> bool {
    0 <= i && i + pat.len() <= s.len() && s.subrange(i, i + pat.len()) == pat
}

/// `pat` occurs somewhere in `s`.
pub open spec fn contains(s: Seq<char>, pat: Seq<char>) -> bool {
    exists|i: int| occurs_at(s, pat, i)
}

/// `s` with every occurrence of `pat` replaced by `with`, scanning from the
/// left and never revisiting replaced text. An empty pattern matches nothing.
pub open spec fn replace_all(s: Seq<char>, pat: Seq<char>, with: Seq<char>) -> Seq<char>
    decreases s.len(),
{
    if pat.len() == 0 || s.len() < pat.len() {
        s
    } else if occurs_at(s, pat, 0) {
        with + replace_all(s.skip(pat.len() as int), pat, with)
    } else {
        seq![s[0]] + replace_all(s.skip(1), pat, with)
    }
}

/// Where `pat` first occurs in `s`; the length of `s` where it does not occur.
pub open spec fn first_match(s: Seq<char>, pat: Seq<char>) -> int
    decreases s.len(),
{
    if s.len() < pat.len() || s.len() == 0 {
        s.len() as int
    } else if occurs_at(s, pat, 0) {
        0
    } else {
        1 + first_match(s.skip(1), pat)
    }
}

/// `value`, laid `shift` characters behind the start of `pat`, reads as
/// `pat` does wherever the two lie over each other.
pub open spec fn agrees_at(value: Seq<char>, pat: Seq<char>, shift: int) -> bool {
    forall|k: int| 0 <= k < pat.len() && 0 <= k - shift < value.len() ==> pat[k] == value[k - shift]
}

/// Some part of `value` can pass for a part of `pat`: there is a way to lay
/// the two over each other, by at least one character, so that they agree.
/// This holds where `value` holds `pat`, lies within it, ends as `pat`
/// starts, or starts as `pat` ends.
pub open spec fn clashes(value: Seq<char>, pat: Seq<char>) -> bool {
    exists|shift: int| -value.len() < shift < pat.len() && agrees_at(value, pat, shift)
}

/// No proper, non-empty start of `pat` is also its end.
pub open spec fn unbordered(pat: Seq<char>) -> bool {
    forall|n: int| 0 < n < pat.len() ==> #[trigger] pat.take(n) != pat.skip(pat.len() - n)
}

/// `s` without its leading run of `c`.
pub open spec fn trim_start(s: Seq<char>, c: char) -> Seq<char>
    decreases s.len(),
{
    if s.len() > 0 && s[0] == c {
        trim_start(s.skip(1), c)
    } else {
        s
    }
}

/// `s` without its trailing run of `c`.
pub open spec fn trim_end(s: Seq<char>, c: char) -> Seq<char>
    decreases s.len(),
{
    if s.len() > 0 && s.last() == c {
        trim_end(s.drop_last(), c)
    } else {
        s
    }
}

/// The decimal digit `d`, for `0 <= d <= 9`.
pub open spec fn digit(d: int) -> char {
    (48 + d) as char
}

/// The decimal numeral of `n`, without leading zeros.
pub open spec fn decimal(n: nat) -> Seq<char>
    decreases n,
{
    if n < 10 {
        seq![digit(n as int)]
    } else {
        decimal(n / 10).push(digit((n % 10) as int))
    }
}

/// The characters of a string slice, in order.
pub fn to_chars(s: &str) -> (out: Vec<char>)
    ensures
        out@ == s@,
{
    let mut out: Vec<char> = Vec::new();
    for c in it: s.chars()
        invariant
            out@ == it.seq().take(it.index()),
    {
        out.push(c);
    }
    out
}

/// Builds a `String` from characters with `String::from_iter`, which
/// collects them in order: the result reads exactly as `chars`.
#[verifier::external_body]
pub(crate) fn to_text(chars: &Vec<char>) -> (out: String)
    ensures
        out@ == chars@,
{
    String::from_iter(chars.iter())
}

/// Appends `tail` to `out`.
pub fn push_all(out: &mut Vec<char>, tail: &Vec<char>)
    ensures
        final(out)@ == old(out)@ + tail@,
{
    let mut i: usize = 0;
    while i < tail.len()
        invariant
            i <= tail.len(),
            out@ == old(out)@ + tail@.take(i as int),
        decreases tail.len() - i,
    {
        out.push(tail[i]);
        i += 1;
    }
}

/// The characters of `s` from index `from` up to, not including, `to`.
pub fn copy_range(s: &Vec<char>, from: usize, to: usize) -> (out: Vec<char>)
    requires
        from <= to <= s.len(),
    ensures
        out@ == s@.subrange(from as int, to as int),
{
    let mut out: Vec<char> = Vec::new();
    let mut i: usize = from;
    while i < to
        invariant
            from <= i <= to <= s.len(),
            out@ == s@.subrange(from as int, i as int),
        decreases to - i,
    {
        out.push(s[i]);
        i += 1;
    }
    out
}

/// Whether `pat` occurs in `text` at offset `at`.
pub fn matches_at(text: &Vec<char>, pat: &Vec<char>, at: usize) -> (hit: bool)
    ensures
        hit == occurs_at(text@, pat@, at as int),
{
    if at > text.len() || text.len() - at < pat.len() {
        return false;
    }
    let mut k: usize = 0;
    while k < pat.len()
        invariant
            k <= pat.len(),
            at + pat.len() <= text.len(),
            forall|j: int| 0 <= j < k ==> text@[at + j] == pat@[j],
        decreases pat.len() - k,
    {
        if text[at + k] != pat[k] {
            assert(text@.subrange(at as int, at + pat.len())[k as int] != pat@[k as int]);
            return false;
        }
        k += 1;
    }
    assert(text@.subrange(at as int, at + pat.len()) =~= pat@);
    true
}

/// `text` with every occurrence of `pat` replaced by `with`.
pub fn replace_chars(text: &Vec<char>, pat: &Vec<char>, with: &Vec<char>) -> (out: Vec<char>)
    ensures
        out@ == replace_all(text@, pat@, with@),
{
    let mut out: Vec<char> = Vec::new();
    let mut i: usize = 0;
    if pat.len() == 0 {
        push_all(&mut out, text);
        return out;
    }
    assert(text@.skip(0) =~= text@);
    assert(out@ + replace_all(text@, pat@, with@) =~= replace_all(text@, pat@, with@));
    while i < text.len()
        invariant
            i <= text.len(),
            pat.len() > 0,
            out@ + replace_all(text@.skip(i as int), pat@, with@) == replace_all(
                text@,
                pat@,
                with@,
            ),
        decreases text.len() - i,
    {
        let ghost rest = text@.skip(i as int);
        if matches_at(text, pat, i) {
            proof {
                assert(rest.subrange(0, pat@.len() as int) =~= text@.subrange(
                    i as int,
                    i + pat@.len(),
                ));
                assert(rest.skip(pat@.len() as int) =~= text@.skip(i + pat@.len()));
                assert((out@ + with@) + replace_all(rest.skip(pat@.len() as int), pat@, with@)
                    =~= out@ + (with@ + replace_all(rest.skip(pat@.len() as int), pat@, with@)));
            }
            push_all(&mut out, with);
            i += pat.len();
        } else {
            proof {
                if rest.len() >= pat@.len() {
                    assert(rest.subrange(0, pat@.len() as int) =~= text@.subrange(
                        i as int,
                        i + pat@.len(),
                    ));
                }
                assert(rest.skip(1) =~= text@.skip(i + 1));
                lemma_replace_all_step(rest, pat@, with@);
                assert(out@.push(text@[i as int]) + replace_all(rest.skip(1), pat@, with@)
                    =~= out@ + (seq![rest[0]] + replace_all(rest.skip(1), pat@, with@)));
            }
            out.push(text[i]);
            i += 1;
        }
    }
    proof {
        assert(text@.skip(i as int) =~= Seq::<char>::empty());
        assert(out@ + Seq::<char>::empty() =~= out@);
    }
    out
}

/// `s` without its leading run of `c`.
pub fn trim_start_chars(s: &Vec<char>, c: char) -> (out: Vec<char>)
    ensures
        out@ == trim_start(s@, c),
{
    let mut i: usize = 0;
    assert(s@.skip(0) =~= s@);
    while i < s.len() && s[i] == c
        invariant
            i <= s.len(),
            trim_start(s@.skip(i as int), c) == trim_start(s@, c),
        decreases s.len() - i,
    {
        assert(s@.skip(i as int).skip(1) =~= s@.skip(i + 1));
        i += 1;
    }
    copy_range(s, i, s.len())
}

/// `s` without its trailing run of `c`.
pub fn trim_end_chars(s: &Vec<char>, c: char) -> (out: Vec<char>)
    ensures
        out@ == trim_end(s@, c),
{
    let mut j: usize = s.len();
    assert(s@.take(j as int) =~= s@);
    while j > 0 && s[j - 1] == c
        invariant
            j <= s.len(),
            trim_end(s@.take(j as int), c) == trim_end(s@, c),
        decreases j,
    {
        assert(s@.take(j as int).drop_last() =~= s@.take(j - 1));
        j -= 1;
    }
    copy_range(s, 0, j)
}

/// Appends the decimal numeral of `n` to `out`.
pub fn push_decimal(out: &mut Vec<char>, n: u64)
    ensures
        final(out)@ == old(out)@ + decimal(n as nat),
    decreases n,
{
    if n >= 10 {
        push_decimal(out, n / 10);
    }
    let d: u8 = (n % 10) as u8;
    out.push((48u8 + d) as char);
    proof {
        if n >= 10 {
            assert(old(out)@ + decimal(n as nat) =~= (old(out)@ + decimal((n / 10) as nat)).push(
                digit((n % 10) as int),
            ));
        } else {
            assert(old(out)@ + decimal(n as nat) =~= old(out)@.push(digit(n as int)));
        }
    }
}

/// What is left of a trim is an end of the text, has nothing more to trim
/// at its start, and is left as it is by another trim.
pub proof fn lemma_trim_start_is_done(s: Seq<char>, c: char)
    ensures
        trim_start(s, c).len() <= s.len(),
        trim_start(s, c) == s.skip(s.len() - trim_start(s, c).len()),
        trim_start(s, c).len() > 0 ==> trim_start(s, c)[0] != c,
        trim_start(trim_start(s, c), c) == trim_start(s, c),
    decreases s.len(),
{
    if s.len() > 0 && s[0] == c {
        let rest = s.skip(1);
        lemma_trim_start_is_done(rest, c);
        assert(rest.skip(rest.len() - trim_start(rest, c).len()) =~= s.skip(
            s.len() - trim_start(s, c).len(),
        ));
    } else {
        assert(s.skip(0) =~= s);
    }
}

/// What is left of a trim is a start of the text, has nothing more to trim
/// at its end, and is left as it is by another trim.
pub proof fn lemma_trim_end_is_done(s: Seq<char>, c: char)
    ensures
        trim_end(s, c).len() <= s.len(),
        trim_end(s, c) == s.take(trim_end(s, c).len() as int),
        trim_end(s, c).len() > 0 ==> trim_end(s, c).last() != c,
        trim_end(trim_end(s, c), c) == trim_end(s, c),
    decreases s.len(),
{
    if s.len() > 0 && s.last() == c {
        let rest = s.drop_last();
        lemma_trim_end_is_done(rest, c);
        assert(rest.take(trim_end(rest, c).len() as int) =~= s.take(trim_end(s, c).len() as int));
    } else {
        assert(s.take(s.len() as int) =~= s);
    }
}

/// Where the pattern does not occur at the front of a non-empty `s`, the
/// replacement keeps the first character and goes on behind it.
pub proof fn lemma_replace_all_step(s: Seq<char>, pat: Seq<char>, with: Seq<char>)
    requires
        s.len() > 0,
        pat.len() > 0,
        !occurs_at(s, pat, 0),
    ensures
        replace_all(s, pat, with) == seq![s[0]] + replace_all(s.skip(1), pat, with),
{
    if s.len() < pat.len() {
        assert(replace_all(s.skip(1), pat, with) == s.skip(1));
        assert(seq![s[0]] + s.skip(1) =~= s);
    }
}

/// Up to the first occurrence of the pattern the replacement copies its
/// input; there it puts `with`, and goes on behind the occurrence.
pub proof fn lemma_replace_all_first_match(s: Seq<char>, pat: Seq<char>, with: Seq<char>)
    requires
        pat.len() > 0,
    ensures
        0 <= first_match(s, pat) <= s.len(),
        forall|i: int| 0 <= i < first_match(s, pat) ==> !occurs_at(s, pat, i),
        first_match(s, pat) < s.len() ==> occurs_at(s, pat, first_match(s, pat)),
        first_match(s, pat) == s.len() ==> replace_all(s, pat, with) == s,
        first_match(s, pat) < s.len() ==> replace_all(s, pat, with) == s.take(first_match(s, pat))
            + with + replace_all(s.skip(first_match(s, pat) + pat.len()), pat, with),
    decreases s.len(),
{
    let m = pat.len() as int;
    if s.len() < pat.len() {
    } else if occurs_at(s, pat, 0) {
        assert(s.take(0) + with =~= with);
    } else {
        let rest = s.skip(1);
        let j = first_match(rest, pat);
        lemma_replace_all_first_match(rest, pat, with);
        lemma_replace_all_step(s, pat, with);
        assert forall|i: int| 0 <= i < 1 + j implies !occurs_at(s, pat, i) by {
            if i >= 1 && i + m <= s.len() {
                assert(rest.subrange(i - 1, i - 1 + m) =~= s.subrange(i, i + m));
                assert(!occurs_at(rest, pat, i - 1));
            }
        }
        if j < rest.len() {
            assert(rest.subrange(j, j + m) =~= s.subrange(1 + j, 1 + j + m));
            assert(rest.skip(j + m) =~= s.skip(1 + j + m));
            assert(seq![s[0]] + (rest.take(j) + with + replace_all(rest.skip(j + m), pat, with))
                =~= s.take(1 + j) + with + replace_all(s.skip(1 + j + m), pat, with));
        } else {
            assert(seq![s[0]] + rest =~= s);
        }
    }
}

/// After the replacement the pattern is gone, for every text, where the
/// value that went in does not clash with the pattern.
pub proof fn lemma_replace_all_leaves_none(text: Seq<char>, pat: Seq<char>, with: Seq<char>)
    requires
        pat.len() > 0,
        !clashes(with, pat),
    ensures
        !contains(replace_all(text, pat, with), pat),
    decreases text.len(),
{
    let m = pat.len() as int;
    let j = first_match(text, pat);
    let out = replace_all(text, pat, with);
    lemma_replace_all_first_match(text, pat, with);
    if j < text.len() {
        let head = text.take(j);
        let rest = text.skip(j + m);
        let tail = replace_all(rest, pat, with);
        lemma_replace_all_leaves_none(rest, pat, with);
        assert forall|a: int| !occurs_at(out, pat, a) by {
            if occurs_at(out, pat, a) {
                let found = out.subrange(a, a + m);
                if a + m <= j {
                    assert(text.subrange(a, a + m) =~= found);
                    assert(occurs_at(text, pat, a));
                } else if a >= j + with.len() {
                    let b = a - j - with.len();
                    assert(tail.subrange(b, b + m) =~= found);
                    assert(occurs_at(tail, pat, b));
                } else {
                    let shift = j - a;
                    assert forall|k: int|
                        0 <= k < pat.len() && 0 <= k - shift < with.len() implies pat[k] == with[k
                        - shift] by {
                        assert(found[k] == out[a + k]);
                        assert(out[a + k] == with[k - shift]);
                    }
                    assert(agrees_at(with, pat, shift));
                }
            }
        }
    } else {
        assert forall|a: int| !occurs_at(out, pat, a) by {
            if occurs_at(out, pat, a) {
                assert(a < j);
            }
        }
    }
}

/// Behind a proper start of an unbordered pattern, the pattern is first
/// found where it was put, not earlier.
proof fn lemma_first_match_behind_start(pat: Seq<char>, h: int, tail: Seq<char>)
    requires
        0 <= h < pat.len(),
        unbordered(pat),
    ensures
        first_match(pat.take(h) + pat + tail, pat) == h,
{
    let m = pat.len() as int;
    let text = pat.take(h) + pat + tail;
    assert(text.subrange(h, h + m) =~= pat);
    assert forall|e: int| 0 <= e < h implies !occurs_at(text, pat, e) by {
        if occurs_at(text, pat, e) {
            let n = m - (h - e);
            let window = text.subrange(e, e + m);
            assert forall|k: int| 0 <= k < n implies pat.take(n)[k] == pat.skip(m - n)[k] by {
                assert(window[m - n + k] == text[h + k]);
                assert(text[h + k] == pat[k]);
            }
            assert(pat.take(n) =~= pat.skip(m - n));
        }
    }
    lemma_replace_all_first_match(text, pat, Seq::empty());
    let found = first_match(text, pat);
    assert(occurs_at(text, pat, h));
    if found < h {
        assert(occurs_at(text, pat, found));
    }
}

/// Where the value clashes with a pattern that is unbordered, there is a
/// text in which the replacement leaves the pattern behind.
pub proof fn lemma_clash_leaves_some(pat: Seq<char>, with: Seq<char>)
    requires
        pat.len() > 0,
        unbordered(pat),
        clashes(with, pat),
    ensures
        exists|text: Seq<char>| contains(#[trigger] replace_all(text, pat, with), pat),
{
    let m = pat.len() as int;
    let shift = choose|shift: int| -with.len() < shift < pat.len() && agrees_at(with, pat, shift);
    let h = if shift >= 0 {
        shift
    } else {
        0
    };
    let head = pat.take(h);
    let tail = if shift + with.len() < m {
        pat.skip(shift + with.len())
    } else {
        Seq::empty()
    };
    let text = head + pat + tail;
    let out = head + with + tail;
    assert(replace_all(text, pat, with) == out) by {
        lemma_first_match_behind_start(pat, h, tail);
        lemma_replace_all_first_match(text, pat, with);
        assert(text.take(h) =~= head);
        assert(text.skip(h + m) =~= tail);
        assert(replace_all(tail, pat, with) == tail);
    }
    let a = h - shift;
    assert(occurs_at(out, pat, a)) by {
        assert forall|k: int| 0 <= k < m implies out[a + k] == pat[k] by {
            if 0 <= k - shift < with.len() {
                assert(out[a + k] == with[k - shift]);
            }
        }
        assert(out.subrange(a, a + m) =~= pat);
    }
}

} // verus!
