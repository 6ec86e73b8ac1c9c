//! Character-level text handling: whitespace, trimming, substring search,
//! splitting and decimal formatting, each stated over `Seq<char>`.

use vstd::prelude::*;

verus! {

/// The characters that carry the Unicode `White_Space` property.
pub open spec fn is_ws(c: char) -> bool {
    let u = c as u32;
    ||| (0x9 <= u && u <= 0xd)
    ||| u == 0x20 || u == 0x85 || u == 0xa0 || u == 0x1680
    ||| (0x2000 <= u && u <= 0x200a)
    ||| u == 0x2028 || u == 0x2029 || u == 0x202f || u == 0x205f || u == 0x3000
}

pub fn is_whitespace(c: char) -> (r: bool)
    ensures
        r == is_ws(c),
{
    let u = c as u32;
    (0x9 <= u && u <= 0xd) || u == 0x20 || u == 0x85 || u == 0xa0 || u == 0x1680 || (0x2000 <= u
        && u <= 0x200a) || u == 0x2028 || u == 0x2029 || u == 0x202f || u == 0x205f || u == 0x3000
}

/// The characters of `s`, in order.
pub fn chars_of(s: &str) -> (v: Vec<char>)
    ensures
        v@ == s@,
{
    let mut v: Vec<char> = Vec::new();
    for c in it: s.chars()
        invariant
            v@ == it.seq().take(it.index() as int),
            it.seq() == s@,
    {
        v.push(c);
    }
    v
}

/// `s` without its leading whitespace.
pub open spec fn trim_start(s: Seq<char>) -> Seq<char>
    decreases s.len(),
{
    if s.len() > 0 && is_ws(s[0]) {
        trim_start(s.drop_first())
    } else {
        s
    }
}

/// `s` without its trailing whitespace.
pub open spec fn trim_end(s: Seq<char>) -> Seq<char>
    decreases s.len(),
{
    if s.len() > 0 && is_ws(s.last()) {
        trim_end(s.drop_last())
    } else {
        s
    }
}

/// `s` without leading and trailing whitespace.
pub open spec fn trim(s: Seq<char>) -> Seq<char> {
    trim_end(trim_start(s))
}

/// Returns `s` with leading and trailing whitespace removed.
pub fn trimmed(s: &str) -> (r: &str)
    ensures
        r@ == trim(s@),
{
    let v = chars_of(s);
    let n = v.len();
    let mut i: usize = 0;
    assert(s@.skip(0) =~= s@);
    while i < n && is_whitespace(v[i])
        invariant
            v@ == s@,
            n == v@.len(),
            i <= n,
            trim_start(s@) == trim_start(s@.skip(i as int)),
        decreases n - i,
    {
        assert(s@.skip(i as int).drop_first() =~= s@.skip(i + 1));
        i = i + 1;
    }
    assert(trim_start(s@) == s@.subrange(i as int, n as int)) by {
        assert(s@.skip(i as int) =~= s@.subrange(i as int, n as int));
    }
    let mut j: usize = n;
    while j > i && is_whitespace(v[j - 1])
        invariant
            v@ == s@,
            n == v@.len(),
            i <= j <= n,
            trim(s@) == trim_end(s@.subrange(i as int, j as int)),
        decreases j,
    {
        assert(s@.subrange(i as int, j as int).drop_last() =~= s@.subrange(i as int, j - 1));
        j = j - 1;
    }
    s.substring_char(i, j)
}

/// `p` occurs in `s` starting at index `i`.
pub open spec fn occurs_at(s: Seq<char>, p: Seq<char>, i: int) -> bool {
    0 <= i && i + p.len() <= s.len() && s.subrange(i, i + p.len()) == p
}

/// `p` occurs somewhere in `s`.
pub open spec fn contains(s: Seq<char>, p: Seq<char>) -> bool {
    exists|i: int| occurs_at(s, p, i)
}

/// Whether `p` occurs in `s`.
pub fn has_substring(s: &Vec<char>, p: &Vec<char>) -> (r: bool)
    ensures
        r == contains(s@, p@),
{
    let n = s.len();
    let m = p.len();
    if m > n {
        return false;
    }
    let mut i: usize = 0;
    while i <= n - m
        invariant
            n == s@.len(),
            m == p@.len(),
            m <= n,
            i <= n - m + 1,
            forall|k: int| 0 <= k < i ==> !occurs_at(s@, p@, k),
        decreases n - m + 1 - i,
    {
        let mut j: usize = 0;
        let mut same = true;
        while j < m
            invariant
                n == s@.len(),
                m == p@.len(),
                i + m <= n,
                j <= m,
                same <==> (forall|k: int| 0 <= k < j ==> s@[i + k] == p@[k]),
            decreases m - j,
        {
            if s[i + j] != p[j] {
                same = false;
            }
            j = j + 1;
        }
        if same {
            assert(s@.subrange(i as int, i + m) =~= p@);
            assert(occurs_at(s@, p@, i as int));
            return true;
        }
        assert(!occurs_at(s@, p@, i as int)) by {
            if s@.subrange(i as int, i + m) == p@ {
                assert forall|k: int| 0 <= k < m implies s@[i + k] == p@[k] by {
                    assert(s@.subrange(i as int, i + m)[k] == s@[i + k]);
                }
            }
        }
        i = i + 1;
    }
    assert forall|k: int| !occurs_at(s@, p@, k) by {
        if 0 <= k && k + m <= n {
            assert(k < i);
        }
    }
    false
}

/// What separates the pieces of a split.
#[derive(Clone, Copy)]
pub enum Sep {
    /// One given character.
    Char(char),
    /// Any Unicode whitespace character.
    Whitespace,
}

pub open spec fn separates(sep: Sep, c: char) -> bool {
    match sep {
        Sep::Char(d) => c == d,
        Sep::Whitespace => is_ws(c),
    }
}

fn is_separator(sep: Sep, c: char) -> (r: bool)
    ensures
        r == separates(sep, c),
{
    match sep {
        Sep::Char(d) => c == d,
        Sep::Whitespace => is_whitespace(c),
    }
}

/// The pieces of `s` between separators, empty ones included, in the way
/// `str::split` yields them: `k` separators give `k + 1` pieces.
pub open spec fn split_by(s: Seq<char>, sep: Sep) -> Seq<Seq<char>>
    decreases s.len(),
{
    if s.len() == 0 {
        seq![Seq::<char>::empty()]
    } else {
        let prev = split_by(s.drop_last(), sep);
        if separates(sep, s.last()) {
            prev.push(Seq::<char>::empty())
        } else {
            prev.update(prev.len() - 1, prev.last().push(s.last()))
        }
    }
}

/// The pieces `ps` joined again, with `c` between each two.
pub open spec fn join_with(ps: Seq<Seq<char>>, c: char) -> Seq<char>
    decreases ps.len(),
{
    if ps.len() == 0 {
        Seq::empty()
    } else if ps.len() == 1 {
        ps[0]
    } else {
        join_with(ps.drop_last(), c) + seq![c] + ps.last()
    }
}

/// Splitting at `c` and joining with `c` gives the text back.
pub proof fn lemma_join_split(s: Seq<char>, c: char)
    ensures
        join_with(split_by(s, Sep::Char(c)), c) == s,
    decreases s.len(),
{
    let sep = Sep::Char(c);
    if s.len() == 0 {
        assert(split_by(s, sep) =~= seq![Seq::<char>::empty()]);
        assert(s =~= Seq::<char>::empty());
    } else {
        lemma_join_split(s.drop_last(), c);
        lemma_split_by_nonempty(s.drop_last(), sep);
        let prev = split_by(s.drop_last(), sep);
        if s.last() == c {
            let ps = prev.push(Seq::<char>::empty());
            assert(ps.drop_last() =~= prev);
            assert(join_with(ps, c) == join_with(prev, c) + seq![c] + Seq::<char>::empty());
            assert(s =~= s.drop_last() + seq![c] + Seq::<char>::empty());
        } else {
            let ps = prev.update(prev.len() - 1, prev.last().push(s.last()));
            if prev.len() == 1 {
                assert(join_with(prev, c) == prev[0]);
                assert(s =~= prev[0].push(s.last()));
            } else {
                assert(ps.drop_last() =~= prev.drop_last());
                assert(join_with(prev, c) == join_with(prev.drop_last(), c) + seq![c] + prev.last());
                assert(s =~= s.drop_last().push(s.last()));
                assert(s =~= join_with(prev.drop_last(), c) + seq![c] + prev.last().push(s.last()));
            }
        }
    }
}

pub proof fn lemma_split_by_nonempty(s: Seq<char>, sep: Sep)
    ensures
        split_by(s, sep).len() >= 1,
    decreases s.len(),
{
    if s.len() > 0 {
        lemma_split_by_nonempty(s.drop_last(), sep);
    }
}

/// Index ranges `[start, end)` that all lie within a text of length `n`.
pub open spec fn ranges_within(r: Seq<(usize, usize)>, n: nat) -> bool {
    forall|k: int| 0 <= k < r.len() ==> #[trigger] r[k].0 <= r[k].1 && r[k].1 <= n
}

/// The pieces of `s` that the ranges `r` cut out.
pub open spec fn pieces(s: Seq<char>, r: Seq<(usize, usize)>) -> Seq<Seq<char>> {
    r.map_values(|x: (usize, usize)| s.subrange(x.0 as int, x.1 as int))
}

/// Ranges of the pieces that `split_by` gives.
pub fn split_ranges(s: &Vec<char>, sep: Sep) -> (r: Vec<(usize, usize)>)
    ensures
        ranges_within(r@, s@.len()),
        pieces(s@, r@) == split_by(s@, sep),
{
    let n = s.len();
    let mut r: Vec<(usize, usize)> = Vec::new();
    let mut start: usize = 0;
    let mut i: usize = 0;
    assert(s@.take(0) =~= Seq::<char>::empty());
    assert(pieces(s@, r@).push(s@.subrange(0, 0)) =~= seq![Seq::<char>::empty()]);
    while i < n
        invariant
            n == s@.len(),
            start <= i <= n,
            ranges_within(r@, n as nat),
            split_by(s@.take(i as int), sep) == pieces(s@, r@).push(
                s@.subrange(start as int, i as int),
            ),
        decreases n - i,
    {
        let ghost prev_r = r@;
        assert(s@.take(i + 1).drop_last() =~= s@.take(i as int));
        assert(s@.take(i + 1).last() == s@[i as int]);
        if is_separator(sep, s[i]) {
            r.push((start, i));
            start = i + 1;
            assert(pieces(s@, r@) =~= pieces(s@, prev_r).push(
                s@.subrange(r@.last().0 as int, i as int),
            ));
            assert(s@.subrange(i + 1, i + 1) =~= Seq::<char>::empty());
        } else {
            assert(s@.subrange(start as int, i + 1) =~= s@.subrange(start as int, i as int).push(
                s@[i as int],
            ));
        }
        i = i + 1;
    }
    let ghost prev_r = r@;
    r.push((start, n));
    assert(s@.take(n as int) =~= s@);
    assert(pieces(s@, r@) =~= pieces(s@, prev_r).push(s@.subrange(start as int, n as int)));
    r
}

/// The non-empty pieces of `ps`, in order.
pub open spec fn nonempty_pieces(ps: Seq<Seq<char>>) -> Seq<Seq<char>>
    decreases ps.len(),
{
    if ps.len() == 0 {
        ps
    } else {
        let rest = nonempty_pieces(ps.drop_last());
        if ps.last().len() > 0 {
            rest.push(ps.last())
        } else {
            rest
        }
    }
}

/// The whitespace-separated words of `s`, as `str::split_whitespace` yields them.
pub open spec fn words(s: Seq<char>) -> Seq<Seq<char>> {
    nonempty_pieces(split_by(s, Sep::Whitespace))
}

/// Ranges of the words of `s`.
pub fn word_ranges(s: &Vec<char>) -> (r: Vec<(usize, usize)>)
    ensures
        ranges_within(r@, s@.len()),
        pieces(s@, r@) == words(s@),
{
    let sr = split_ranges(s, Sep::Whitespace);
    let ghost all = pieces(s@, sr@);
    let mut r: Vec<(usize, usize)> = Vec::new();
    let mut k: usize = 0;
    assert(all.take(0) =~= Seq::<Seq<char>>::empty());
    assert(pieces(s@, r@) =~= Seq::<Seq<char>>::empty());
    while k < sr.len()
        invariant
            all == pieces(s@, sr@),
            ranges_within(sr@, s@.len()),
            ranges_within(r@, s@.len()),
            k <= sr@.len(),
            pieces(s@, r@) == nonempty_pieces(all.take(k as int)),
        decreases sr@.len() - k,
    {
        assert(all.take(k + 1).drop_last() =~= all.take(k as int));
        let (a, b) = sr[k];
        assert(sr@[k as int].0 <= sr@[k as int].1);
        let ghost prev_r = r@;
        if a < b {
            r.push((a, b));
            assert(pieces(s@, r@) =~= pieces(s@, prev_r).push(all[k as int]));
        }
        k = k + 1;
    }
    assert(all.take(sr@.len() as int) =~= all);
    r
}

/// `p` without one trailing carriage return.
pub open spec fn strip_cr(p: Seq<char>) -> Seq<char> {
    if p.len() > 0 && p.last() == '\r' {
        p.drop_last()
    } else {
        p
    }
}

/// The lines of `s`, as `str::lines` yields them: split at `\n`, a `\r` before
/// a `\n` dropped, and no empty line after a final `\n`.
pub open spec fn lines(s: Seq<char>) -> Seq<Seq<char>> {
    let ps = split_by(s, Sep::Char('\n'));
    let ended = ps.drop_last().map_values(|p: Seq<char>| strip_cr(p));
    if ps.last().len() == 0 {
        ended
    } else {
        ended.push(ps.last())
    }
}

/// Ranges of the lines of `s`.
pub fn line_ranges(s: &Vec<char>) -> (r: Vec<(usize, usize)>)
    ensures
        ranges_within(r@, s@.len()),
        pieces(s@, r@) == lines(s@),
{
    let sr = split_ranges(s, Sep::Char('\n'));
    proof {
        lemma_split_by_nonempty(s@, Sep::Char('\n'));
    }
    let ghost all = pieces(s@, sr@);
    let m = sr.len();
    let mut r: Vec<(usize, usize)> = Vec::new();
    let mut k: usize = 0;
    while k + 1 < m
        invariant
            all == pieces(s@, sr@),
            m == sr@.len(),
            m >= 1,
            ranges_within(sr@, s@.len()),
            ranges_within(r@, s@.len()),
            k < m,
            r@.len() == k,
            forall|j: int| 0 <= j < k ==> #[trigger] pieces(s@, r@)[j] == strip_cr(all[j]),
        decreases m - k,
    {
        let (a, b) = sr[k];
        assert(sr@[k as int].0 <= sr@[k as int].1 <= s@.len());
        let ghost prev_r = r@;
        if a < b && s[b - 1] == '\r' {
            r.push((a, b - 1));
            assert(s@.subrange(a as int, b - 1) =~= s@.subrange(a as int, b as int).drop_last());
        } else {
            r.push((a, b));
        }
        assert forall|j: int| 0 <= j < r@.len() implies #[trigger] r@[j].0 <= r@[j].1 && r@[j].1
            <= s@.len() by {
            if j < k {
                assert(r@[j] == prev_r[j]);
            }
        }
        assert forall|j: int| 0 <= j < k + 1 implies #[trigger] pieces(s@, r@)[j] == strip_cr(
            all[j],
        ) by {
            if j < k {
                assert(pieces(s@, r@)[j] == pieces(s@, prev_r)[j]);
            }
        }
        k = k + 1;
    }
    let ghost ended = all.drop_last().map_values(|p: Seq<char>| strip_cr(p));
    assert(pieces(s@, r@) =~= ended);
    let (a, b) = sr[m - 1];
    assert(sr@[m - 1].0 <= sr@[m - 1].1 <= s@.len());
    if a < b {
        r.push((a, b));
        assert(pieces(s@, r@) =~= ended.push(all.last()));
    }
    r
}

/// The decimal digit for `d < 10`.
pub open spec fn digit(d: nat) -> char {
    (48 + d) as char
}

/// The decimal numeral of `n`, without leading zeros.
pub open spec fn decimal(n: nat) -> Seq<char>
    decreases n,
{
    if n < 10 {
        seq![digit(n)]
    } else {
        decimal(n / 10).push(digit(n % 10))
    }
}

/// The decimal numeral of `n`, with a leading `-` when negative.
pub open spec fn signed_decimal(n: int) -> Seq<char> {
    if n < 0 {
        seq!['-'] + decimal((-n) as nat)
    } else {
        decimal(n as nat)
    }
}

fn digit_str(d: u64) -> (r: &'static str)
    requires
        d < 10,
    ensures
        r@ == seq![digit(d as nat)],
{
    proof {
        reveal_strlit("0");
        reveal_strlit("1");
        reveal_strlit("2");
        reveal_strlit("3");
        reveal_strlit("4");
        reveal_strlit("5");
        reveal_strlit("6");
        reveal_strlit("7");
        reveal_strlit("8");
        reveal_strlit("9");
    }
    if d == 0 {
        "0"
    } else if d == 1 {
        "1"
    } else if d == 2 {
        "2"
    } else if d == 3 {
        "3"
    } else if d == 4 {
        "4"
    } else if d == 5 {
        "5"
    } else if d == 6 {
        "6"
    } else if d == 7 {
        "7"
    } else if d == 8 {
        "8"
    } else {
        "9"
    }
}

fn push_decimal(out: &mut String, m: u64)
    ensures
        final(out)@ == old(out)@ + decimal(m as nat),
    decreases m,
{
    if m >= 10 {
        push_decimal(out, m / 10);
    }
    out.append(digit_str(m % 10));
    assert(old(out)@ + decimal(m as nat) =~= old(out)@ + (if m >= 10 {
        decimal((m / 10) as nat)
    } else {
        Seq::<char>::empty()
    }) + seq![digit((m % 10) as nat)]);
}

/// The decimal text of `n`, as `i32::to_string` writes it.
pub fn i32_to_decimal(n: i32) -> (r: String)
    ensures
        r@ == signed_decimal(n as int),
{
    let mut out = String::new();
    if n < 0 {
        out.append("-");
        proof {
            reveal_strlit("-");
        }
        let m = (0 - (n as i64)) as u64;
        push_decimal(&mut out, m);
    } else {
        push_decimal(&mut out, n as u64);
    }
    out
}

/// `c` lies between `lo` and `hi`, both included, in code point order.
pub open spec fn in_range(c: char, lo: char, hi: char) -> bool {
    (lo as u32) <= (c as u32) && (c as u32) <= (hi as u32)
}

/// An ASCII decimal digit.
pub open spec fn is_digit(c: char) -> bool {
    48 <= (c as u32) && (c as u32) <= 57
}

/// Every character of `d` is an ASCII decimal digit.
pub open spec fn all_digits(d: Seq<char>) -> bool {
    forall|i: int| 0 <= i < d.len() ==> #[trigger] is_digit(d[i])
}

/// The number that the digits `d` denote, leading zeros allowed.
pub open spec fn digits_value(d: Seq<char>) -> nat
    decreases d.len(),
{
    if d.len() == 0 {
        0
    } else {
        digits_value(d.drop_last()) * 10 + ((d.last() as u32) - 48) as nat
    }
}

/// `p` is the decimal text of a byte: one or more ASCII digits, without sign,
/// whose value is at most 255 (leading zeros allowed).
pub open spec fn byte_text(p: Seq<char>) -> bool {
    &&& p.len() > 0
    &&& all_digits(p)
    &&& digits_value(p) <= 255
}

/// Whether `s[a..b]` is the decimal text of a byte.
pub fn is_byte_text(s: &Vec<char>, a: usize, b: usize) -> (r: bool)
    requires
        a <= b <= s@.len(),
    ensures
        r == byte_text(s@.subrange(a as int, b as int)),
{
    let ghost p = s@.subrange(a as int, b as int);
    let mut i = a;
    if i == b {
        return false;
    }
    let start = i;
    let mut capped: u32 = 0;
    assert(s@.subrange(start as int, start as int) =~= Seq::<char>::empty());
    while i < b
        invariant
            a == start <= i <= b <= s@.len(),
            p == s@.subrange(a as int, b as int),
            all_digits(s@.subrange(start as int, i as int)),
            capped == (if digits_value(s@.subrange(start as int, i as int)) > 255 {
                256
            } else {
                digits_value(s@.subrange(start as int, i as int))
            }),
        decreases b - i,
    {
        let c = s[i];
        let u = c as u32;
        if !(48 <= u && u <= 57) {
            assert(!all_digits(s@.subrange(start as int, b as int))) by {
                assert(s@.subrange(start as int, b as int)[i - start] == c);
                assert(!is_digit(s@.subrange(start as int, b as int)[i - start]));
            }
            return false;
        }
        let ghost prefix = s@.subrange(start as int, i as int);
        assert(s@.subrange(start as int, i + 1).drop_last() =~= prefix);
        assert(s@.subrange(start as int, i + 1).last() == c);
        assert(all_digits(s@.subrange(start as int, i + 1))) by {
            assert forall|j: int| 0 <= j < i + 1 - start implies #[trigger] is_digit(
                s@.subrange(start as int, i + 1)[j],
            ) by {
                if j < i - start {
                    assert(s@.subrange(start as int, i + 1)[j] == prefix[j]);
                }
            }
        }
        if capped > 255 {
            capped = 256;
        } else {
            capped = capped * 10 + (u - 48);
            if capped > 255 {
                capped = 256;
            }
        }
        i = i + 1;
    }
    assert(s@.subrange(start as int, i as int) == p);
    capped <= 255
}

/// The text of `s[a..b]`, counted in characters.
pub fn slice_text(s: &str, a: usize, b: usize) -> (r: String)
    requires
        a <= b <= s@.len(),
    ensures
        r@ == s@.subrange(a as int, b as int),
{
    String::from_str(s.substring_char(a, b))
}

/// `s` with leading and trailing whitespace removed, as an owned string.
pub fn trim_text(s: &str) -> (r: String)
    ensures
        r@ == trim(s@),
{
    String::from_str(trimmed(s))
}

/// The last of the lines `ls` that contains `p`, or empty text when none does.
pub open spec fn last_line_with(ls: Seq<Seq<char>>, p: Seq<char>) -> Seq<char>
    decreases ls.len(),
{
    if ls.len() == 0 {
        Seq::empty()
    } else if contains(ls.last(), p) {
        ls.last()
    } else {
        last_line_with(ls.drop_last(), p)
    }
}

/// The last line of `s` that contains `p`, or empty text when none does.
pub fn last_line_containing(s: &str, p: &str) -> (r: String)
    ensures
        r@ == last_line_with(lines(s@), p@),
{
    let v = chars_of(s);
    let pv = chars_of(p);
    let lr = line_ranges(&v);
    let ghost ls = pieces(v@, lr@);
    let mut k = lr.len();
    assert(ls.take(k as int) =~= ls);
    while k > 0
        invariant
            v@ == s@,
            pv@ == p@,
            ls == pieces(v@, lr@),
            ls == lines(s@),
            ranges_within(lr@, v@.len()),
            k <= lr@.len(),
            last_line_with(ls, p@) == last_line_with(ls.take(k as int), p@),
        decreases k,
    {
        let (a, b) = lr[k - 1];
        assert(lr@[k - 1].0 <= lr@[k - 1].1 <= v@.len());
        let line = slice_text(s, a, b);
        let lv = chars_of(line.as_str());
        assert(ls.take(k as int).last() == lv@);
        assert(ls.take(k as int).drop_last() =~= ls.take(k - 1));
        if has_substring(&lv, &pv) {
            return line;
        }
        k = k - 1;
    }
    String::new()
}

/// Text that contains `p` still contains it with more text around it.
pub proof fn lemma_contains_within(x: Seq<char>, y: Seq<char>, z: Seq<char>, p: Seq<char>)
    requires
        contains(y, p),
    ensures
        contains(x + y + z, p),
{
    let i = choose|i: int| occurs_at(y, p, i);
    let s = x + y + z;
    assert(s.subrange(x.len() + i, x.len() + i + p.len()) =~= y.subrange(i, i + p.len()));
    assert(occurs_at(s, p, x.len() + i));
}

/// Text contains itself.
pub proof fn lemma_contains_self(p: Seq<char>)
    ensures
        contains(p, p),
{
    assert(p.subrange(0, p.len() as int) =~= p);
    assert(occurs_at(p, p, 0));
}

/// The line picked as "the last line containing `p`" does contain `p`, and no
/// later line does; where no line contains `p`, empty text is picked.
pub proof fn lemma_last_line_with_is_last(ls: Seq<Seq<char>>, p: Seq<char>)
    ensures
        (exists|k: int| 0 <= k < ls.len() && contains(#[trigger] ls[k], p)) ==> exists|k: int|
            0 <= k < ls.len() && contains(#[trigger] ls[k], p) && last_line_with(ls, p) == ls[k]
                && forall|j: int| k < j < ls.len() ==> !contains(#[trigger] ls[j], p),
        (forall|k: int| 0 <= k < ls.len() ==> !contains(#[trigger] ls[k], p)) ==> last_line_with(
            ls,
            p,
        ) == Seq::<char>::empty(),
    decreases ls.len(),
{
    if ls.len() > 0 {
        let prev = ls.drop_last();
        lemma_last_line_with_is_last(prev, p);
        let n = ls.len() - 1;
        if contains(ls[n], p) {
            assert(contains(ls[n], p) && last_line_with(ls, p) == ls[n]);
        } else {
            if exists|k: int| 0 <= k < ls.len() && contains(#[trigger] ls[k], p) {
                let k0 = choose|k: int| 0 <= k < ls.len() && contains(#[trigger] ls[k], p);
                assert(prev[k0] == ls[k0]);
                assert(contains(prev[k0], p));
                let k = choose|k: int|
                    0 <= k < prev.len() && contains(#[trigger] prev[k], p) && last_line_with(prev, p)
                        == prev[k] && forall|j: int| k < j < prev.len() ==> !contains(#[trigger] prev[j], p);
                assert(ls[k] == prev[k]);
                assert forall|j: int| k < j < ls.len() implies !contains(#[trigger] ls[j], p) by {
                    if j < n {
                        assert(ls[j] == prev[j]);
                    }
                }
            }
            if forall|k: int| 0 <= k < ls.len() ==> !contains(#[trigger] ls[k], p) {
                assert forall|k: int| 0 <= k < prev.len() implies !contains(#[trigger] prev[k], p) by {
                    assert(prev[k] == ls[k]);
                }
            }
        }
    }
}

proof fn lemma_trim_start_skips(s: Seq<char>)
    ensures
        exists|a: int|
            0 <= a <= s.len() && trim_start(s) == s.skip(a) && (forall|i: int|
                0 <= i < a ==> is_ws(#[trigger] s[i])) && (a < s.len() ==> !is_ws(s[a])),
    decreases s.len(),
{
    if s.len() > 0 && is_ws(s[0]) {
        let t = s.drop_first();
        lemma_trim_start_skips(t);
        let a = choose|a: int|
            0 <= a <= t.len() && trim_start(t) == t.skip(a) && (forall|i: int|
                0 <= i < a ==> is_ws(#[trigger] t[i])) && (a < t.len() ==> !is_ws(t[a]));
        assert(t.skip(a) =~= s.skip(a + 1));
        assert forall|i: int| 0 <= i < a + 1 implies is_ws(#[trigger] s[i]) by {
            if i > 0 {
                assert(s[i] == t[i - 1]);
            }
        }
        assert(a + 1 < s.len() ==> s[a + 1] == t[a]);
    } else {
        assert(s.skip(0) =~= s);
    }
}

proof fn lemma_trim_end_takes(s: Seq<char>)
    ensures
        exists|b: int|
            0 <= b <= s.len() && trim_end(s) == s.take(b) && (forall|i: int|
                b <= i < s.len() ==> is_ws(#[trigger] s[i])) && (b > 0 ==> !is_ws(s[b - 1])),
    decreases s.len(),
{
    if s.len() > 0 && is_ws(s.last()) {
        let t = s.drop_last();
        lemma_trim_end_takes(t);
        let b = choose|b: int|
            0 <= b <= t.len() && trim_end(t) == t.take(b) && (forall|i: int|
                b <= i < t.len() ==> is_ws(#[trigger] t[i])) && (b > 0 ==> !is_ws(t[b - 1]));
        assert(t.take(b) =~= s.take(b));
        assert forall|i: int| b <= i < s.len() implies is_ws(#[trigger] s[i]) by {
            if i < s.len() - 1 {
                assert(s[i] == t[i]);
            }
        }
        assert(b > 0 ==> s[b - 1] == t[b - 1]);
    } else {
        assert(s.take(s.len() as int) =~= s);
    }
}

/// Trimming cuts a piece out of the text: everything before it and after it
/// is whitespace, and the piece, unless empty, starts and ends with a
/// character that is not.
pub proof fn lemma_trim_cuts_whitespace(s: Seq<char>)
    ensures
        exists|a: int, b: int|
            {
                &&& 0 <= a <= b <= s.len()
                &&& trim(s) == s.subrange(a, b)
                &&& forall|i: int| 0 <= i < a ==> is_ws(#[trigger] s[i])
                &&& forall|i: int| b <= i < s.len() ==> is_ws(#[trigger] s[i])
                &&& a < b ==> !is_ws(s[a]) && !is_ws(s[b - 1])
            },
{
    lemma_trim_start_skips(s);
    let a = choose|a: int|
        0 <= a <= s.len() && trim_start(s) == s.skip(a) && (forall|i: int|
            0 <= i < a ==> is_ws(#[trigger] s[i])) && (a < s.len() ==> !is_ws(s[a]));
    let t = s.skip(a);
    lemma_trim_end_takes(t);
    let b = choose|b: int|
        0 <= b <= t.len() && trim_end(t) == t.take(b) && (forall|i: int|
            b <= i < t.len() ==> is_ws(#[trigger] t[i])) && (b > 0 ==> !is_ws(t[b - 1]));
    assert(t.take(b) =~= s.subrange(a, a + b));
    assert forall|i: int| a + b <= i < s.len() implies is_ws(#[trigger] s[i]) by {
        assert(s[i] == t[i - a]);
    }
    if b > 0 {
        assert(s[a] == t[0]);
        assert(s[a + b - 1] == t[b - 1]);
    }
    assert(a < a + b ==> !is_ws(s[a]) && !is_ws(s[a + b - 1]));
}

/// The decimal numeral of `n` is one or more ASCII digits, without a leading
/// zero unless it is `0` itself, and it reads back as `n`.
pub proof fn lemma_decimal_reads_back(n: nat)
    ensures
        decimal(n).len() > 0,
        all_digits(decimal(n)),
        digits_value(decimal(n)) == n,
        decimal(n)[0] != '+',
        decimal(n).len() > 1 ==> decimal(n)[0] != '0',
        n > 0 ==> decimal(n)[0] != '0',
    decreases n,
{
    assert((digit(n % 10) as u32) == 48 + n % 10);
    if n < 10 {
        assert(decimal(n).drop_last() =~= Seq::<char>::empty());
        assert((digit(n) as u32) == 48 + n);
        assert(decimal(n).last() == digit(n));
        assert(digits_value(decimal(n)) == digits_value(Seq::<char>::empty()) * 10
            + ((digit(n) as u32) - 48) as nat);
    } else {
        lemma_decimal_reads_back(n / 10);
        let d = decimal(n);
        assert(d.drop_last() =~= decimal(n / 10));
        assert(n == (n / 10) * 10 + n % 10) by {
            vstd::arithmetic::div_mod::lemma_fundamental_div_mod(n as int, 10);
        }
        assert(d.last() == digit(n % 10));
        assert(digits_value(d) == digits_value(decimal(n / 10)) * 10
            + ((d.last() as u32) - 48) as nat);
        assert(digits_value(d) == (n / 10) * 10 + n % 10);
        assert forall|i: int| 0 <= i < d.len() implies #[trigger] is_digit(d[i]) by {
            if i < d.len() - 1 {
                assert(d[i] == decimal(n / 10)[i]);
            }
        }
    }
}

/// No piece of a split holds a separator.
pub proof fn lemma_split_pieces_have_no_separator(s: Seq<char>, sep: Sep)
    ensures
        forall|k: int, i: int|
            0 <= k < split_by(s, sep).len() && 0 <= i < split_by(s, sep)[k].len() ==> !separates(
                sep,
                #[trigger] split_by(s, sep)[k][i],
            ),
    decreases s.len(),
{
    if s.len() > 0 {
        lemma_split_pieces_have_no_separator(s.drop_last(), sep);
        lemma_split_by_nonempty(s.drop_last(), sep);
        let prev = split_by(s.drop_last(), sep);
        let ps = split_by(s, sep);
        assert forall|k: int, i: int| 0 <= k < ps.len() && 0 <= i < ps[k].len() implies !separates(
            sep,
            #[trigger] ps[k][i],
        ) by {
            if k < prev.len() - 1 {
                assert(ps[k] == prev[k]);
            } else if k == prev.len() - 1 {
                if !separates(sep, s.last()) {
                    if i < prev[k].len() {
                        assert(ps[k][i] == prev[k][i]);
                    }
                } else {
                    assert(ps[k] == prev[k]);
                }
            }
        }
    }
}

proof fn lemma_nonempty_pieces_from(ps: Seq<Seq<char>>)
    ensures
        forall|k: int| 0 <= k < nonempty_pieces(ps).len() ==> #[trigger] nonempty_pieces(ps)[k].len()
            > 0 && exists|j: int| 0 <= j < ps.len() && ps[j] == nonempty_pieces(ps)[k],
    decreases ps.len(),
{
    if ps.len() > 0 {
        let prev = ps.drop_last();
        lemma_nonempty_pieces_from(prev);
        let r = nonempty_pieces(ps);
        assert forall|k: int| 0 <= k < r.len() implies #[trigger] r[k].len() > 0 && exists|j: int|
            0 <= j < ps.len() && ps[j] == r[k] by {
            if k < nonempty_pieces(prev).len() {
                assert(r[k] == nonempty_pieces(prev)[k]);
                let j = choose|j: int| 0 <= j < prev.len() && prev[j] == nonempty_pieces(prev)[k];
                assert(ps[j] == prev[j]);
            } else {
                assert(r[k] == ps.last());
                assert(ps[ps.len() - 1] == r[k]);
            }
        }
    }
}

/// Every word is non-empty and holds no whitespace.
pub proof fn lemma_words_are_plain(s: Seq<char>)
    ensures
        forall|k: int| 0 <= k < words(s).len() ==> #[trigger] words(s)[k].len() > 0,
        forall|k: int, i: int|
            0 <= k < words(s).len() && 0 <= i < words(s)[k].len() ==> !is_ws(
                #[trigger] words(s)[k][i],
            ),
{
    let ps = split_by(s, Sep::Whitespace);
    lemma_nonempty_pieces_from(ps);
    lemma_split_pieces_have_no_separator(s, Sep::Whitespace);
    assert forall|k: int, i: int| 0 <= k < words(s).len() && 0 <= i < words(s)[k].len() implies !is_ws(
        #[trigger] words(s)[k][i],
    ) by {
        let j = choose|j: int| 0 <= j < ps.len() && ps[j] == words(s)[k];
        assert(!separates(Sep::Whitespace, ps[j][i]));
    }
}

} // verus!
