//! Text utilities over sequences of characters: conversions between
//! strings and character vectors, decimal notation, splitting, joining
//! and replacing.

use vstd::prelude::*;

verus! {

/// The views of the elements of `items`, in order.
pub open spec fn views<T: View>(items: Seq<T>) -> Seq<T::V> {
    Seq::new(items.len(), |i: int| items[i]@)
}

/// The characters of `s`, in order.
pub fn chars_of(s: &str) -> (r: Vec<char>)
    ensures
        r@ == s@,
{
    let mut out: Vec<char> = Vec::new();
    for c in it: s.chars()
        invariant
            it.seq() == s@,
            out@ == it.seq().take(it.index() as int),
    {
        out.push(c);
    }
    assert(out@ == s@.take(s@.len() as int));
    out
}

/// Collects characters into a `String` through std's `FromIterator<&char>`
/// for `String`. Trusted: the string holds exactly the given characters, in
/// order.
#[verifier::external_body]
pub(crate) fn string_of(chars: &Vec<char>) -> (r: String)
    ensures
        r@ == chars@,
{
    chars.iter().collect()
}

/// The characters `s[from..to]` as a new vector.
pub fn slice_of(s: &Vec<char>, from: usize, to: usize) -> (r: Vec<char>)
    requires
        from <= to <= s.len(),
    ensures
        r@ == s@.subrange(from as int, to as int),
{
    let mut out: Vec<char> = Vec::new();
    let mut i: usize = from;
    while i < to
        invariant
            from <= i <= to <= s.len(),
            out@ == s@.subrange(from as int, i as int),
        decreases to - i,
    {
        out.push(s[i]);
        i += 1;
    }
    out
}

/// Appends all of `tail` to `out`.
pub fn extend_chars(out: &mut Vec<char>, tail: &Vec<char>)
    ensures
        final(out)@ == old(out)@ + tail@,
{
    let mut i: usize = 0;
    while i < tail.len()
        invariant
            i <= tail.len(),
            out@ == old(out)@ + tail@.take(i as int),
        decreases tail.len() - i,
    {
        out.push(tail[i]);
        i += 1;
    }
    assert(tail@.take(tail@.len() as int) == tail@);
}

/// Whether `a` and `b` hold the same characters.
pub fn same_chars(a: &Vec<char>, b: &Vec<char>) -> (r: bool)
    ensures
        r == (a@ == b@),
{
    if a.len() != b.len() {
        return false;
    }
    let mut k: usize = 0;
    while k < a.len()
        invariant
            k <= a.len() == b.len(),
            forall|j: int| 0 <= j < k ==> a@[j] == b@[j],
        decreases a.len() - k,
    {
        if a[k] != b[k] {
            return false;
        }
        k += 1;
    }
    assert(a@ =~= b@);
    true
}

/// Whether `pat` occurs in `s` at position `i`.
pub open spec fn occurs_at(s: Seq<char>, pat: Seq<char>, i: int) -> bool {
    0 <= i && i + pat.len() <= s.len() && s.subrange(i, i + pat.len()) == pat
}

/// Whether `pat` occurs in `s` at position `i`.
pub fn matches_at(s: &Vec<char>, pat: &Vec<char>, i: usize) -> (r: bool)
    requires
        i <= s.len(),
    ensures
        r == occurs_at(s@, pat@, i as int),
{
    if pat.len() > s.len() - i {
        return false;
    }
    let mut k: usize = 0;
    while k < pat.len()
        invariant
            k <= pat.len(),
            i + pat.len() <= s.len(),
            s@.subrange(i as int, i + k) == pat@.take(k as int),
        decreases pat.len() - k,
    {
        if s[i + k] != pat[k] {
            assert(s@.subrange(i as int, i + pat.len())[k as int] != pat@[k as int]);
            return false;
        }
        k += 1;
        assert(s@.subrange(i as int, i + k) == s@.subrange(i as int, i + k - 1).push(
            s@[i + k - 1],
        ));
        assert(pat@.take(k as int) == pat@.take(k - 1).push(pat@[k - 1]));
    }
    assert(pat@.take(pat@.len() as int) == pat@);
    true
}

/// Whether `pat` occurs somewhere in `s`.
pub open spec fn contains_seq(s: Seq<char>, pat: Seq<char>) -> bool {
    exists|i: int| occurs_at(s, pat, i)
}

/// Whether `pat` occurs somewhere in `s`, as `str::contains` decides it for
/// a string pattern.
pub fn contains_chars(s: &Vec<char>, pat: &Vec<char>) -> (r: bool)
    ensures
        r == contains_seq(s@, pat@),
{
    let mut i: usize = 0;
    while i < s.len()
        invariant
            i <= s.len(),
            forall|j: int| 0 <= j < i ==> !occurs_at(s@, pat@, j),
        decreases s.len() - i,
    {
        if matches_at(s, pat, i) {
            return true;
        }
        i += 1;
    }
    matches_at(s, pat, i)
}

/// The character that writes the decimal digit `d`.
pub open spec fn digit_char(d: int) -> char {
    if d == 0 {
        '0'
    } else if d == 1 {
        '1'
    } else if d == 2 {
        '2'
    } else if d == 3 {
        '3'
    } else if d == 4 {
        '4'
    } else if d == 5 {
        '5'
    } else if d == 6 {
        '6'
    } else if d == 7 {
        '7'
    } else if d == 8 {
        '8'
    } else {
        '9'
    }
}

/// Whether `c` is one of the ASCII digits `0` to `9`.
pub open spec fn is_digit(c: char) -> bool {
    '0' <= c <= '9'
}

/// The number that the ASCII digit `c` writes.
pub open spec fn digit_value(c: char) -> int {
    c as int - '0' as int
}

/// The decimal digits of `n`, most significant first, without leading zeros.
pub open spec fn nat_digits(n: nat) -> Seq<char>
    decreases n,
{
    if n < 10 {
        seq![digit_char(n as int)]
    } else {
        nat_digits(n / 10).push(digit_char((n % 10) as int))
    }
}

/// Decimal notation of an integer: a minus sign for negative numbers, then
/// the digits of the magnitude.
pub open spec fn decimal(v: int) -> Seq<char> {
    if v < 0 {
        seq!['-'] + nat_digits((-v) as nat)
    } else {
        nat_digits(v as nat)
    }
}

fn digit_of(d: u32) -> (c: char)
    requires
        d < 10,
    ensures
        c == digit_char(d as int),
{
    if d == 0 {
        '0'
    } else if d == 1 {
        '1'
    } else if d == 2 {
        '2'
    } else if d == 3 {
        '3'
    } else if d == 4 {
        '4'
    } else if d == 5 {
        '5'
    } else if d == 6 {
        '6'
    } else if d == 7 {
        '7'
    } else if d == 8 {
        '8'
    } else {
        '9'
    }
}

fn push_nat_digits(n: u64, out: &mut Vec<char>)
    ensures
        final(out)@ == old(out)@ + nat_digits(n as nat),
    decreases n,
{
    if n >= 10 {
        push_nat_digits(n / 10, out);
    }
    let d: u32 = (n % 10) as u32;
    out.push(digit_of(d));
}

/// Decimal notation of `n`, as `u64::to_string` writes it.
pub fn nat_chars(n: u64) -> (r: Vec<char>)
    ensures
        r@ == nat_digits(n as nat),
{
    let mut out: Vec<char> = Vec::new();
    push_nat_digits(n, &mut out);
    out
}

/// Decimal notation of `v`, as `i64::to_string` writes it.
pub fn decimal_chars(v: i64) -> (r: Vec<char>)
    ensures
        r@ == decimal(v as int),
{
    let mut out: Vec<char> = Vec::new();
    if v < 0 {
        out.push('-');
        let magnitude: u64 = if v == i64::MIN {
            0x8000_0000_0000_0000u64
        } else {
            (-v) as u64
        };
        push_nat_digits(magnitude, &mut out);
    } else {
        push_nat_digits(v as u64, &mut out);
    }
    out
}

/// The number written by a sequence of ASCII digits (0 for the empty
/// sequence).
pub open spec fn digits_value(s: Seq<char>) -> nat
    decreases s.len(),
{
    if s.len() == 0 {
        0
    } else {
        (digits_value(s.drop_last()) * 10 + digit_value(s.last())) as nat
    }
}

/// Whether every character of `s` is an ASCII digit.
pub open spec fn all_digits(s: Seq<char>) -> bool {
    forall|i: int| 0 <= i < s.len() ==> is_digit(#[trigger] s[i])
}

/// The integer that `s` writes in decimal: an optional `+` or `-`, then at
/// least one ASCII digit and nothing else. `None` where `s` is not of that
/// form.
pub open spec fn parse_int(s: Seq<char>) -> Option<int> {
    let signed = s.len() > 0 && (s[0] == '-' || s[0] == '+');
    let body = if signed {
        s.subrange(1, s.len() as int)
    } else {
        s
    };
    if body.len() == 0 || !all_digits(body) {
        None
    } else if s[0] == '-' {
        Some(-(digits_value(body) as int))
    } else {
        Some(digits_value(body) as int)
    }
}

/// The `i32` that `s` writes in decimal, as `str::parse::<i32>` reads it:
/// `None` where `s` is not a decimal integer or the integer does not fit.
pub open spec fn parse_i32(s: Seq<char>) -> Option<i32> {
    match parse_int(s) {
        Some(v) => if i32::MIN <= v <= i32::MAX {
            Some(v as i32)
        } else {
            None
        },
        None => None,
    }
}

/// The `i64` that `s` writes in decimal, as `str::parse::<i64>` reads it:
/// `None` where `s` is not a decimal integer or the integer does not fit.
pub open spec fn parse_i64(s: Seq<char>) -> Option<i64> {
    match parse_int(s) {
        Some(v) => if i64::MIN <= v <= i64::MAX {
            Some(v as i64)
        } else {
            None
        },
        None => None,
    }
}

/// Reads a decimal integer of a magnitude up to `limit` from `s`: whether
/// it has a minus sign, and its magnitude.
fn parse_magnitude(s: &Vec<char>, limit: u64) -> (r: Option<(bool, u64)>)
    ensures
        match parse_int(s@) {
            Some(v) => if -limit <= v <= limit {
                r == Some((s@[0] == '-', (if v < 0 { -v } else { v }) as u64))
            } else {
                r is None
            },
            None => r is None,
        },
        r is Some ==> (r->Some_0.0 ==> parse_int(s@)->Some_0 <= 0),
        r is Some ==> (!r->Some_0.0 ==> parse_int(s@)->Some_0 >= 0),
{
    let n: usize = s.len();
    if n == 0 {
        return None;
    }
    let negative: bool = s[0] == '-';
    let start: usize = if s[0] == '-' || s[0] == '+' {
        1
    } else {
        0
    };
    if start == n {
        return None;
    }
    let ghost body = s@.subrange(start as int, n as int);
    let mut acc: u128 = 0;
    let mut too_large: bool = false;
    let mut i: usize = start;
    while i < n
        invariant
            start <= i <= n == s.len(),
            start < n,
            start == 1 <==> (s@[0] == '-' || s@[0] == '+'),
            start == 0 || start == 1,
            body == s@.subrange(start as int, n as int),
            all_digits(body.take(i - start)),
            too_large ==> digits_value(body.take(i - start)) > limit,
            !too_large ==> acc == digits_value(body.take(i - start)) && acc <= limit,
        decreases n - i,
    {
        let c: char = s[i];
        if !(c >= '0' && c <= '9') {
            assert(!is_digit(body[i - start]));
            return None;
        }
        let d: u128 = (c as u32 - '0' as u32) as u128;
        proof {
            let next = body.take(i - start + 1);
            assert(next.drop_last() == body.take(i - start));
            assert(next.last() == c);
        }
        if !too_large {
            acc = acc * 10 + d;
            if acc > limit as u128 {
                too_large = true;
            }
        }
        i += 1;
    }
    assert(body.take(body.len() as int) == body);
    assert(start == 0 ==> body == s@);
    if too_large {
        None
    } else {
        Some((negative, acc as u64))
    }
}

/// Reads a decimal `i32` from `s`.
pub fn parse_i32_chars(s: &Vec<char>) -> (r: Option<i32>)
    ensures
        r == parse_i32(s@),
{
    match parse_magnitude(s, 0x8000_0000) {
        Some((negative, magnitude)) => if negative {
            Some((-(magnitude as i64)) as i32)
        } else if magnitude == 0x8000_0000 {
            None
        } else {
            Some(magnitude as i32)
        },
        None => None,
    }
}

/// Reads a decimal `i64` from `s`.
pub fn parse_i64_chars(s: &Vec<char>) -> (r: Option<i64>)
    ensures
        r == parse_i64(s@),
{
    match parse_magnitude(s, 0x8000_0000_0000_0000) {
        Some((negative, magnitude)) => if negative {
            if magnitude == 0x8000_0000_0000_0000 {
                Some(i64::MIN)
            } else {
                Some(-(magnitude as i64))
            }
        } else if magnitude == 0x8000_0000_0000_0000 {
            None
        } else {
            Some(magnitude as i64)
        },
        None => None,
    }
}

/// The pieces of `s` from position `start` on, where the scan for the next
/// occurrence of the non-empty separator `pat` stands at `i`.
pub open spec fn split_walk(s: Seq<char>, pat: Seq<char>, start: int, i: int) -> Seq<Seq<char>>
    decreases s.len() - i,
{
    if pat.len() == 0 || i + pat.len() > s.len() {
        seq![s.subrange(start, s.len() as int)]
    } else if s.subrange(i, i + pat.len()) == pat {
        seq![s.subrange(start, i)] + split_walk(s, pat, i + pat.len(), i + pat.len())
    } else {
        split_walk(s, pat, start, i + 1)
    }
}

/// The pieces between the occurrences of `pat` in `s`, found from the left
/// and not overlapping, as `str::split` yields them. With an empty `pat`
/// every character is a piece of its own, between two empty pieces.
pub open spec fn split(s: Seq<char>, pat: Seq<char>) -> Seq<Seq<char>> {
    if pat.len() == 0 {
        seq![Seq::<char>::empty()] + Seq::new(s.len(), |k: int| seq![s[k]]) + seq![
            Seq::<char>::empty(),
        ]
    } else {
        split_walk(s, pat, 0, 0)
    }
}

/// The pieces joined with `sep` between each two neighbours.
pub open spec fn join(parts: Seq<Seq<char>>, sep: Seq<char>) -> Seq<char>
    decreases parts.len(),
{
    if parts.len() == 0 {
        Seq::<char>::empty()
    } else if parts.len() == 1 {
        parts[0]
    } else {
        parts[0] + sep + join(parts.drop_first(), sep)
    }
}

/// `s` with every occurrence of `pat` replaced by `with`, as `str::replace`
/// does it: the pieces between the occurrences, joined by `with`.
pub open spec fn replace(s: Seq<char>, pat: Seq<char>, with: Seq<char>) -> Seq<char> {
    join(split(s, pat), with)
}

/// Splits `s` at the occurrences of `pat`.
pub fn split_chars(s: &Vec<char>, pat: &Vec<char>) -> (r: Vec<Vec<char>>)
    ensures
        views(r@) == split(s@, pat@),
        r.len() >= 1,
{
    let mut out: Vec<Vec<char>> = Vec::new();
    if pat.len() == 0 {
        out.push(Vec::new());
        let mut k: usize = 0;
        while k < s.len()
            invariant
                k <= s.len(),
                views(out@) == seq![Seq::<char>::empty()] + Seq::new(
                    k as nat,
                    |j: int| seq![s@[j]],
                ),
            decreases s.len() - k,
        {
            let ghost before = views(out@);
            let mut one: Vec<char> = Vec::new();
            one.push(s[k]);
            out.push(one);
            k += 1;
            assert(views(out@) == before.push(seq![s@[k - 1]]));
        }
        let ghost before = views(out@);
        out.push(Vec::new());
        assert(views(out@) == before.push(Seq::<char>::empty()));
        return out;
    }
    let mut start: usize = 0;
    let mut i: usize = 0;
    while pat.len() <= s.len() - i
        invariant
            start <= i <= s.len(),
            pat.len() > 0,
            views(out@) + split_walk(s@, pat@, start as int, i as int) == split_walk(
                s@,
                pat@,
                0,
                0,
            ),
        decreases s.len() - i,
    {
        let ghost before = views(out@);
        if matches_at(s, pat, i) {
            let ghost piece_view = s@.subrange(start as int, i as int);
            let piece = slice_of(s, start, i);
            out.push(piece);
            assert(views(out@) == before.push(piece_view));
            i = i + pat.len();
            start = i;
            assert(views(out@) + split_walk(s@, pat@, start as int, i as int) == before + (
            seq![piece_view] + split_walk(s@, pat@, start as int, i as int)));
        } else {
            i += 1;
        }
    }
    let ghost before = views(out@);
    let piece = slice_of(s, start, s.len());
    out.push(piece);
    assert(views(out@) == before.push(s@.subrange(start as int, s@.len() as int)));
    assert(views(out@) == before + seq![s@.subrange(start as int, s@.len() as int)]);
    out
}

/// Joins the pieces with `sep` between each two neighbours.
pub fn join_chars(parts: &Vec<Vec<char>>, sep: &Vec<char>) -> (r: Vec<char>)
    ensures
        r@ == join(views(parts@), sep@),
{
    let mut out: Vec<char> = Vec::new();
    if parts.len() == 0 {
        return out;
    }
    let ghost all = views(parts@);
    extend_chars(&mut out, &parts[0]);
    assert(all.skip(0) == all);
    let mut k: usize = 1;
    while k < parts.len()
        invariant
            1 <= k <= parts.len(),
            all == views(parts@),
            join(all, sep@) == out@ + (if k < all.len() {
                sep@ + join(all.skip(k as int), sep@)
            } else {
                Seq::<char>::empty()
            }),
        decreases parts.len() - k,
    {
        let ghost rest = all.skip(k as int);
        proof {
            assert(rest[0] == all[k as int]);
            assert(rest.drop_first() == all.skip(k + 1));
        }
        extend_chars(&mut out, sep);
        extend_chars(&mut out, &parts[k]);
        k += 1;
    }
    out
}

/// Replaces every occurrence of `pat` in `s` by `with`.
pub fn replace_chars(s: &Vec<char>, pat: &Vec<char>, with: &Vec<char>) -> (r: Vec<char>)
    ensures
        r@ == replace(s@, pat@, with@),
{
    let pieces = split_chars(s, pat);
    join_chars(&pieces, with)
}

/// Whether the character `d` occurs nowhere in `s`.
pub open spec fn free_of(s: Seq<char>, d: char) -> bool {
    forall|j: int| 0 <= j < s.len() ==> s[j] != d
}

/// The scan for a delimiter of one character passes over characters that
/// are not the delimiter.
pub proof fn lemma_walk_skips(s: Seq<char>, d: char, start: int, i: int, m: int)
    requires
        0 <= start <= i <= m <= s.len(),
        forall|j: int| i <= j < m ==> s[j] != d,
    ensures
        split_walk(s, seq![d], start, i) == split_walk(s, seq![d], start, m),
    decreases m - i,
{
    if i < m {
        assert(s.subrange(i, i + 1)[0] == s[i]);
        assert(seq![d][0] == d);
        lemma_walk_skips(s, d, start, i + 1, m);
    }
}

/// The scan of a text behind a prefix finds what the scan of the text
/// alone finds.
pub proof fn lemma_walk_shifts(a: Seq<char>, b: Seq<char>, pat: Seq<char>, start: int, i: int)
    requires
        0 <= start <= i <= b.len(),
        pat.len() > 0,
    ensures
        split_walk(a + b, pat, a.len() + start, a.len() + i) == split_walk(b, pat, start, i),
    decreases b.len() - i,
{
    let s = a + b;
    let n = a.len() as int;
    if i + pat.len() > b.len() {
        assert(s.subrange(n + start, s.len() as int) == b.subrange(start, b.len() as int));
    } else {
        assert(s.subrange(n + i, n + i + pat.len()) == b.subrange(i, i + pat.len()));
        if b.subrange(i, i + pat.len()) == pat {
            assert(s.subrange(n + start, n + i) == b.subrange(start, i));
            lemma_walk_shifts(a, b, pat, i + pat.len(), i + pat.len());
        } else {
            lemma_walk_shifts(a, b, pat, start, i + 1);
        }
    }
}

/// Splitting at a character what was joined with it gives the pieces back,
/// where no piece holds the character and there is at least one piece.
pub proof fn lemma_split_join(parts: Seq<Seq<char>>, d: char)
    requires
        parts.len() >= 1,
        forall|k: int| 0 <= k < parts.len() ==> free_of(#[trigger] parts[k], d),
    ensures
        split(join(parts, seq![d]), seq![d]) == parts,
    decreases parts.len(),
{
    let pat = seq![d];
    let s = join(parts, pat);
    let first = parts[0];
    assert(free_of(first, d));
    if parts.len() == 1 {
        lemma_walk_skips(s, d, 0, 0, s.len() as int);
        assert(s.subrange(0, s.len() as int) == s);
        assert(split(s, pat) == parts);
    } else {
        let rest = parts.drop_first();
        let tail = join(rest, pat);
        assert forall|k: int| 0 <= k < rest.len() implies free_of(#[trigger] rest[k], d) by {
            assert(rest[k] == parts[k + 1]);
        }
        lemma_split_join(rest, d);
        let head = first + pat;
        assert(s == head + tail);
        let n = first.len() as int;
        assert forall|j: int| 0 <= j < n implies s[j] != d by {
            assert(s[j] == first[j]);
        }
        lemma_walk_skips(s, d, 0, 0, n);
        assert(s.subrange(n, n + 1) == pat);
        assert(s.subrange(0, n) == first);
        lemma_walk_shifts(head, tail, pat, 0, 0);
        assert(split_walk(s, pat, n + 1, n + 1) == rest);
        assert(seq![first] + rest == parts);
    }
}

/// The digits of a number are digits, are at least one, and write the
/// number.
pub proof fn lemma_digits_write_the_number(n: nat)
    ensures
        nat_digits(n).len() >= 1,
        all_digits(nat_digits(n)),
        digits_value(nat_digits(n)) == n,
    decreases n,
{
    let s = nat_digits(n);
    assert(digit_value(digit_char((n % 10) as int)) == n % 10);
    if n < 10 {
        assert(s.drop_last() == Seq::<char>::empty());
        assert(s.last() == digit_char(n as int));
        assert(digits_value(s.drop_last()) == 0);
        assert(digits_value(s) == digits_value(s.drop_last()) * 10 + digit_value(s.last()));
    } else {
        lemma_digits_write_the_number(n / 10);
        assert(s.drop_last() == nat_digits(n / 10));
        assert(s.last() == digit_char((n % 10) as int));
        assert(digits_value(s) == digits_value(s.drop_last()) * 10 + digit_value(s.last()));
        assert forall|i: int| 0 <= i < s.len() implies is_digit(#[trigger] s[i]) by {
            if i < s.len() - 1 {
                assert(s[i] == nat_digits(n / 10)[i]);
            }
        }
    }
}

/// Reading the decimal notation of an integer gives the integer back.
pub proof fn lemma_parse_decimal(v: int)
    ensures
        parse_int(decimal(v)) == Some(v),
{
    let s = decimal(v);
    if v < 0 {
        let digits = nat_digits((-v) as nat);
        lemma_digits_write_the_number((-v) as nat);
        assert(s.subrange(1, s.len() as int) == digits);
        assert(s[0] == '-');
    } else {
        lemma_digits_write_the_number(v as nat);
        assert(is_digit(s[0]));
    }
}

} // verus!
