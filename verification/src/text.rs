//! Character-level text helpers: whitespace trimming, splitting on a
//! separator, decimal parsing and printing.
use vstd::prelude::*;

verus! {

/// The characters that carry the Unicode `White_Space` property.
pub open spec fn is_whitespace(c: char) -> bool {
    let u = c as u32;
    ||| (0x9 <= u && u <= 0xd)
    ||| u == 0x20
    ||| u == 0x85
    ||| u == 0xa0
    ||| u == 0x1680
    ||| (0x2000 <= u && u <= 0x200a)
    ||| u == 0x2028
    ||| u == 0x2029
    ||| u == 0x202f
    ||| u == 0x205f
    ||| u == 0x3000
}

/// Tests whether a character is Unicode white space.
pub fn is_ws(c: char) -> (b: bool)
    ensures
        b == is_whitespace(c),
{
    let u = c as u32;
    (0x9 <= u && u <= 0xd) || u == 0x20 || u == 0x85 || u == 0xa0 || u == 0x1680 || (0x2000 <= u
        && u <= 0x200a) || u == 0x2028 || u == 0x2029 || u == 0x202f || u == 0x205f || u == 0x3000
}

/// Copies the characters of a string into a vector.
pub fn chars_of(s: &str) -> (v: Vec<char>)
    ensures
        v@ == s@,
{
    let n = s.unicode_len();
    let mut v: Vec<char> = Vec::new();
    let mut i: usize = 0;
    while i < n
        invariant
            n == s@.len(),
            i <= n,
            v@ == s@.subrange(0, i as int),
        decreases n - i,
    {
        v.push(s.get_char(i));
        i += 1;
        assert(v@ =~= s@.subrange(0, i as int));
    }
    assert(v@ =~= s@);
    v
}

/// The first position at or after `i` that does not hold white space.
pub open spec fn skip_leading(s: Seq<char>, i: int) -> int
    decreases s.len() - i,
{
    if 0 <= i < s.len() && is_whitespace(s[i]) {
        skip_leading(s, i + 1)
    } else {
        i
    }
}

/// The end of `s[lo..j]` once trailing white space is dropped.
pub open spec fn skip_trailing(s: Seq<char>, lo: int, j: int) -> int
    decreases j - lo,
{
    if lo < j <= s.len() && is_whitespace(s[j - 1]) {
        skip_trailing(s, lo, j - 1)
    } else {
        j
    }
}

/// `s` without leading and trailing white space (what `str::trim` gives).
pub open spec fn trim(s: Seq<char>) -> Seq<char> {
    let a = skip_leading(s, 0);
    s.subrange(a, skip_trailing(s, a, s.len() as int))
}

/// The bounds of the trimmed part of `v[a..b]`.
pub fn trim_range(v: &Vec<char>, a: usize, b: usize) -> (r: (usize, usize))
    requires
        a <= b <= v@.len(),
    ensures
        a <= r.0 <= r.1 <= b,
        v@.subrange(r.0 as int, r.1 as int) == trim(v@.subrange(a as int, b as int)),
{
    let ghost t = v@.subrange(a as int, b as int);
    let mut i = a;
    while i < b && is_ws(v[i])
        invariant
            a <= i <= b,
            b <= v@.len(),
            t == v@.subrange(a as int, b as int),
            skip_leading(t, 0) == skip_leading(t, i - a),
        decreases b - i,
    {
        assert(t[i - a] == v@[i as int]);
        i += 1;
    }
    proof {
        if i < b {
            assert(t[i - a] == v@[i as int]);
        }
        assert(skip_leading(t, i - a) == i - a);
    }
    let mut j = b;
    while j > i && is_ws(v[j - 1])
        invariant
            a <= i <= j <= b,
            b <= v@.len(),
            t == v@.subrange(a as int, b as int),
            skip_leading(t, 0) == i - a,
            skip_trailing(t, i - a, t.len() as int) == skip_trailing(t, i - a, j - a),
        decreases j - i,
    {
        assert(t[j - 1 - a] == v@[j - 1]);
        j -= 1;
    }
    proof {
        if j > i {
            assert(t[j - 1 - a] == v@[j - 1]);
        }
        assert(skip_trailing(t, i - a, j - a) == j - a);
        assert(v@.subrange(i as int, j as int) =~= t.subrange(i - a, j - a));
    }
    (i, j)
}

/// The pieces of `s[start..]` split at `sep`, scanning from `i`.
pub open spec fn split_from(s: Seq<char>, sep: char, start: int, i: int) -> Seq<Seq<char>>
    decreases s.len() - i,
{
    if i >= s.len() {
        seq![s.subrange(start, s.len() as int)]
    } else if s[i] == sep {
        seq![s.subrange(start, i)] + split_from(s, sep, i + 1, i + 1)
    } else {
        split_from(s, sep, start, i + 1)
    }
}

/// The pieces of `s` between occurrences of `sep` (what `str::split` gives).
pub open spec fn split(s: Seq<char>, sep: char) -> Seq<Seq<char>> {
    split_from(s, sep, 0, 0)
}

/// Pieces joined with `sep` between them (what `slice::join` gives).
pub open spec fn join(parts: Seq<Seq<char>>, sep: char) -> Seq<char>
    decreases parts.len(),
{
    if parts.len() == 0 {
        seq![]
    } else if parts.len() == 1 {
        parts[0]
    } else {
        parts[0] + seq![sep] + join(parts.drop_first(), sep)
    }
}

/// Whether `sep` does not occur in `s`.
pub open spec fn free_of(s: Seq<char>, sep: char) -> bool {
    forall|k: int| 0 <= k < s.len() ==> #[trigger] s[k] != sep
}

proof fn lemma_split_no_sep(t: Seq<char>, sep: char, start: int, i: int)
    requires
        0 <= start <= i <= t.len(),
        forall|k: int| i <= k < t.len() ==> #[trigger] t[k] != sep,
    ensures
        split_from(t, sep, start, i) == seq![t.subrange(start, t.len() as int)],
    decreases t.len() - i,
{
    if i < t.len() {
        lemma_split_no_sep(t, sep, start, i + 1);
    }
}

proof fn lemma_split_to_sep(t: Seq<char>, sep: char, start: int, i: int, j: int)
    requires
        0 <= start <= i <= j < t.len(),
        forall|k: int| i <= k < j ==> #[trigger] t[k] != sep,
        t[j] == sep,
    ensures
        split_from(t, sep, start, i) == seq![t.subrange(start, j)] + split_from(t, sep, j + 1, j + 1),
    decreases j - i,
{
    if i < j {
        lemma_split_to_sep(t, sep, start, i + 1, j);
    }
}

proof fn lemma_split_join_from(t: Seq<char>, sep: char, a: int, parts: Seq<Seq<char>>)
    requires
        parts.len() >= 1,
        forall|p: int| 0 <= p < parts.len() ==> free_of(#[trigger] parts[p], sep),
        0 <= a <= t.len(),
        t.subrange(a, t.len() as int) == join(parts, sep),
    ensures
        split_from(t, sep, a, a) == parts,
    decreases parts.len(),
{
    let p0 = parts[0];
    assert(free_of(p0, sep));
    if parts.len() == 1 {
        assert forall|k: int| a <= k < t.len() implies #[trigger] t[k] != sep by {
            assert(t[k] == t.subrange(a, t.len() as int)[k - a]);
        }
        lemma_split_no_sep(t, sep, a, a);
        assert(seq![p0] =~= parts);
    } else {
        let rest = parts.drop_first();
        let j = a + p0.len();
        let jr = join(rest, sep);
        assert(t.subrange(a, t.len() as int) == p0 + seq![sep] + jr);
        assert forall|k: int| a <= k < j implies #[trigger] t[k] != sep by {
            assert(t[k] == t.subrange(a, t.len() as int)[k - a]);
            assert((p0 + seq![sep] + jr)[k - a] == p0[k - a]);
        }
        assert(t[j] == t.subrange(a, t.len() as int)[j - a]);
        assert((p0 + seq![sep] + jr)[j - a] == sep);
        lemma_split_to_sep(t, sep, a, a, j);
        assert(t.subrange(a, j) =~= p0);
        let w = t.subrange(a, t.len() as int);
        assert(w.len() == p0.len() + 1 + jr.len());
        assert forall|m: int| 0 <= m < jr.len() implies #[trigger] t.subrange(
            j + 1,
            t.len() as int,
        )[m] == jr[m] by {
            assert(t[j + 1 + m] == w[j + 1 + m - a]);
            assert((p0 + seq![sep] + jr)[p0.len() + 1 + m] == jr[m]);
        }
        assert(t.subrange(j + 1, t.len() as int) =~= jr);
        assert forall|p: int| 0 <= p < rest.len() implies free_of(#[trigger] rest[p], sep) by {
            assert(rest[p] == parts[p + 1]);
        }
        lemma_split_join_from(t, sep, j + 1, rest);
        assert(seq![p0] + rest =~= parts);
    }
}

/// Splitting joined pieces gives the pieces back, when none holds `sep`.
pub proof fn lemma_split_join(parts: Seq<Seq<char>>, sep: char)
    requires
        parts.len() >= 1,
        forall|p: int| 0 <= p < parts.len() ==> free_of(#[trigger] parts[p], sep),
    ensures
        split(join(parts, sep), sep) == parts,
{
    let t = join(parts, sep);
    assert(t.subrange(0, t.len() as int) =~= t);
    lemma_split_join_from(t, sep, 0, parts);
}

/// The pieces that a list of bounds marks out in `s`.
pub open spec fn pieces(s: Seq<char>, ranges: Seq<(usize, usize)>) -> Seq<Seq<char>> {
    Seq::new(ranges.len(), |k: int| s.subrange(ranges[k].0 as int, ranges[k].1 as int))
}

/// Bounds that lie inside a sequence of length `n`.
pub open spec fn ranges_within(ranges: Seq<(usize, usize)>, n: int) -> bool {
    forall|k: int| 0 <= k < ranges.len() ==> #[trigger] ranges[k].0 <= ranges[k].1 <= n
}

/// Splits `v` at every `sep`, returning the bounds of the pieces.
pub fn split_ranges(v: &Vec<char>, sep: char) -> (r: Vec<(usize, usize)>)
    ensures
        ranges_within(r@, v@.len() as int),
        pieces(v@, r@) == split(v@, sep),
        r@.len() >= 1,
{
    let n = v.len();
    let mut r: Vec<(usize, usize)> = Vec::new();
    let mut start: usize = 0;
    let mut i: usize = 0;
    while i < n
        invariant
            n == v@.len(),
            start <= i <= n,
            ranges_within(r@, n as int),
            pieces(v@, r@) + split_from(v@, sep, start as int, i as int) == split(v@, sep),
        decreases n - i,
    {
        let ghost old_r = r@;
        if v[i] == sep {
            r.push((start, i));
            assert(ranges_within(r@, n as int)) by {
                assert forall|k: int| 0 <= k < r@.len() implies #[trigger] r@[k].0 <= r@[k].1 <= n by {
                    if k < old_r.len() {
                        assert(r@[k] == old_r[k]);
                    }
                }
            }
            assert(pieces(v@, r@) =~= pieces(v@, old_r) + seq![v@.subrange(start as int, i as int)]);
            start = i + 1;
        }
        i += 1;
    }
    let ghost old_r = r@;
    r.push((start, n));
    assert(pieces(v@, r@) =~= pieces(v@, old_r) + seq![v@.subrange(start as int, n as int)]);
    r
}

/// Whether `c` is one of the ASCII digits.
pub open spec fn is_digit(c: char) -> bool {
    '0' as u32 <= c as u32 && c as u32 <= '9' as u32
}

/// The number that a string of decimal digits denotes.
pub open spec fn digits_value(s: Seq<char>) -> nat
    decreases s.len(),
{
    if s.len() == 0 {
        0
    } else {
        digits_value(s.drop_last()) * 10 + (s.last() as u32 - '0' as u32) as nat
    }
}

/// The digits that follow an optional leading `+`.
pub open spec fn unsigned_digits(s: Seq<char>) -> Seq<char> {
    if s.len() > 0 && s[0] == '+' {
        s.drop_first()
    } else {
        s
    }
}

/// What `str::parse::<u32>` gives for `s`: an optional `+` and then one or
/// more ASCII digits whose value fits in 32 bits.
pub open spec fn parse_u32(s: Seq<char>) -> Option<u32> {
    let d = unsigned_digits(s);
    if d.len() > 0 && (forall|k: int| 0 <= k < d.len() ==> is_digit(#[trigger] d[k]))
        && digits_value(d) <= u32::MAX {
        Some(digits_value(d) as u32)
    } else {
        None
    }
}

proof fn lemma_digits_value_grows(s: Seq<char>, k: int)
    requires
        0 <= k <= s.len(),
        forall|m: int| 0 <= m < s.len() ==> is_digit(#[trigger] s[m]),
    ensures
        digits_value(s.subrange(0, k)) <= digits_value(s),
    decreases s.len() - k,
{
    if k < s.len() {
        lemma_digits_value_grows(s, k + 1);
        let p = s.subrange(0, k + 1);
        assert(p.drop_last() =~= s.subrange(0, k));
    } else {
        assert(s.subrange(0, k) =~= s);
    }
}

/// Parses `v[a..b]` as `str::parse::<u32>` does.
pub fn parse_u32_range(v: &Vec<char>, a: usize, b: usize) -> (r: Option<u32>)
    requires
        a <= b <= v@.len(),
    ensures
        r == parse_u32(v@.subrange(a as int, b as int)),
{
    let ghost s = v@.subrange(a as int, b as int);
    let mut i = a;
    if i < b && v[i] == '+' {
        i += 1;
    }
    let ghost d = v@.subrange(i as int, b as int);
    assert(d =~= unsigned_digits(s));
    if i == b {
        return None;
    }
    let start = i;
    let mut acc: u64 = 0;
    while i < b
        invariant
            a <= start <= i <= b <= v@.len(),
            d == v@.subrange(start as int, b as int),
            s == v@.subrange(a as int, b as int),
            d == unsigned_digits(s),
            d.len() > 0,
            forall|m: int| start <= m < i ==> is_digit(#[trigger] v@[m]),
            acc == digits_value(v@.subrange(start as int, i as int)),
            acc <= u32::MAX,
        decreases b - i,
    {
        let c = v[i];
        if !((c as u32) >= ('0' as u32) && (c as u32) <= ('9' as u32)) {
            assert(d[i - start] == c);
            assert(!is_digit(d[i - start]));
            return None;
        }
        let ghost p = v@.subrange(start as int, i + 1);
        assert(p.drop_last() =~= v@.subrange(start as int, i as int));
        acc = acc * 10 + ((c as u32) - ('0' as u32)) as u64;
        i += 1;
        if acc > 0xffff_ffff {
            proof {
                if forall|k: int| 0 <= k < d.len() ==> is_digit(#[trigger] d[k]) {
                    lemma_digits_value_grows(d, i - start);
                    assert(d.subrange(0, i - start) =~= v@.subrange(start as int, i as int));
                }
            }
            return None;
        }
    }
    assert(v@.subrange(start as int, i as int) =~= d);
    Some(acc as u32)
}

/// The character of a decimal digit.
pub open spec fn digit_char(d: nat) -> char {
    if d == 0 {
        '0'
    } else if d == 1 {
        '1'
    } else if d == 2 {
        '2'
    } else if d == 3 {
        '3'
    } else if d == 4 {
        '4'
    } else if d == 5 {
        '5'
    } else if d == 6 {
        '6'
    } else if d == 7 {
        '7'
    } else if d == 8 {
        '8'
    } else {
        '9'
    }
}

/// The decimal representation of `n`, without sign or leading zeros.
pub open spec fn decimal(n: nat) -> Seq<char>
    decreases n,
{
    if n < 10 {
        seq![digit_char(n)]
    } else {
        decimal(n / 10).push(digit_char(n % 10))
    }
}

fn digit_str(d: u128) -> (s: &'static str)
    requires
        d < 10,
    ensures
        s@ == seq![digit_char(d as nat)],
{
    proof {
        reveal_strlit("0");
        reveal_strlit("1");
        reveal_strlit("2");
        reveal_strlit("3");
        reveal_strlit("4");
        reveal_strlit("5");
        reveal_strlit("6");
        reveal_strlit("7");
        reveal_strlit("8");
        reveal_strlit("9");
    }
    let s = if d == 0 {
        "0"
    } else if d == 1 {
        "1"
    } else if d == 2 {
        "2"
    } else if d == 3 {
        "3"
    } else if d == 4 {
        "4"
    } else if d == 5 {
        "5"
    } else if d == 6 {
        "6"
    } else if d == 7 {
        "7"
    } else if d == 8 {
        "8"
    } else {
        "9"
    };
    assert(s@ =~= seq![digit_char(d as nat)]);
    s
}

/// Writes `n` in decimal, as `format!("{}", n)` does.
pub fn decimal_string(n: u128) -> (s: String)
    ensures
        s@ == decimal(n as nat),
    decreases n,
{
    if n < 10 {
        String::from_str(digit_str(n))
    } else {
        let mut s = decimal_string(n / 10);
        s.append(digit_str(n % 10));
        s
    }
}

} // verus!
