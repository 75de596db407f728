//! Character-level helpers: decimal numerals, splitting, comparison.

use vstd::prelude::*;

verus! {

/// `String::push` appends one character to the end of the string.
pub assume_specification[ String::push ](s: &mut String, c: char)
    ensures
        final(s)@ == old(s)@.push(c),
;

/// The characters of `s`, in order.
pub fn chars_of(s: &str) -> (r: Vec<char>)
    ensures
        r@ == s@,
{
    let mut out: Vec<char> = Vec::new();
    for c in it: s.chars()
        invariant
            out@ == it.seq().take(it.index()),
            it.seq() == s@,
    {
        out.push(c);
    }
    out
}

/// The string made of the characters `cs[from..to]`.
pub fn string_of(cs: &Vec<char>, from: usize, to: usize) -> (r: String)
    requires
        from <= to <= cs.len(),
    ensures
        r@ == cs@.subrange(from as int, to as int),
{
    let mut out = String::new();
    let mut i: usize = from;
    while i < to
        invariant
            from <= i <= to <= cs.len(),
            out@ == cs@.subrange(from as int, i as int),
        decreases to - i,
    {
        out.push(cs[i]);
        i += 1;
    }
    out
}

/// Whether two strings hold the same characters.
pub fn str_eq(a: &str, b: &str) -> (r: bool)
    ensures
        r == (a@ == b@),
{
    let x = chars_of(a);
    let y = chars_of(b);
    if x.len() != y.len() {
        return false;
    }
    let mut i: usize = 0;
    while i < x.len()
        invariant
            i <= x.len(),
            x.len() == y.len(),
            x@ == a@,
            y@ == b@,
            forall|k: int| 0 <= k < i ==> x@[k] == y@[k],
        decreases x.len() - i,
    {
        if x[i] != y[i] {
            return false;
        }
        i += 1;
    }
    assert(x@ =~= y@);
    true
}

/// The character that writes the decimal digit `d`.
pub open spec fn digit_char(d: nat) -> char
    recommends
        d < 10,
{
    (('0' as u8) + (d as u8)) as char
}

/// The decimal numeral of `n`, without sign or padding.
pub open spec fn dec_text(n: nat) -> Seq<char>
    decreases n,
{
    if n < 10 {
        seq![digit_char(n)]
    } else {
        dec_text(n / 10).push(digit_char(n % 10))
    }
}

/// Whether `c` is one of `0` to `9`.
pub open spec fn is_digit(c: char) -> bool {
    '0' <= c <= '9'
}

/// The number that a string of decimal digits writes; the empty string
/// writes zero.
pub open spec fn digits_value(s: Seq<char>) -> nat
    decreases s.len(),
{
    if s.len() == 0 {
        0
    } else {
        digits_value(s.drop_last()) * 10 + ((s.last() as u8) - ('0' as u8)) as nat
    }
}

/// The number that `s` writes in decimal, where `s` is a non-empty string
/// of digits.
pub open spec fn dec_value(s: Seq<char>) -> Option<nat> {
    if s.len() > 0 && (forall|i: int| 0 <= i < s.len() ==> is_digit(#[trigger] s[i])) {
        Some(digits_value(s))
    } else {
        None
    }
}

/// Reading back a decimal numeral gives the number it was written from.
pub proof fn lemma_dec_round_trip(n: nat)
    ensures
        dec_value(dec_text(n)) == Some(n),
        dec_text(n).len() > 0,
    decreases n,
{
    if n < 10 {
        let s = dec_text(n);
        assert(digits_value(s.drop_last()) == 0);
    } else {
        lemma_dec_round_trip(n / 10);
        let p = dec_text(n / 10);
        let s = dec_text(n);
        assert(s.drop_last() =~= p);
    }
}

/// Appends the decimal numeral of `n` to `out`.
pub fn push_dec_wide(out: &mut String, n: u128)
    ensures
        final(out)@ == old(out)@ + dec_text(n as nat),
    decreases n,
{
    if n >= 10 {
        push_dec_wide(out, n / 10);
    }
    let d: u8 = (n % 10) as u8;
    out.push((48u8 + d) as char);
}

/// Appends the decimal numeral of `n` to `out`.
pub fn push_dec(out: &mut String, n: u64)
    ensures
        final(out)@ == old(out)@ + dec_text(n as nat),
{
    push_dec_wide(out, n as u128)
}

/// The decimal numeral of `n` as a string.
pub fn dec_string_wide(n: u128) -> (r: String)
    ensures
        r@ == dec_text(n as nat),
{
    let mut out = String::new();
    push_dec_wide(&mut out, n);
    out
}

/// The decimal numeral of `n` as a string.
pub fn dec_string(n: u64) -> (r: String)
    ensures
        r@ == dec_text(n as nat),
{
    let mut out = String::new();
    push_dec(&mut out, n);
    out
}

/// Reads `cs[from..to]` as a decimal numeral that fits in 128 bits.
pub fn parse_dec_wide(cs: &Vec<char>, from: usize, to: usize) -> (r: Option<u128>)
    requires
        from <= to <= cs.len(),
    ensures
        r == match dec_value(cs@.subrange(from as int, to as int)) {
            Some(v) => if v <= u128::MAX {
                Some(v as u128)
            } else {
                None
            },
            None => None,
        },
{
    let ghost s = cs@.subrange(from as int, to as int);
    if from == to {
        return None;
    }
    let mut acc: u128 = 0;
    let mut i: usize = from;
    while i < to
        invariant
            from <= i <= to <= cs.len(),
            s == cs@.subrange(from as int, to as int),
            forall|k: int| 0 <= k < i - from ==> is_digit(#[trigger] s[k]),
            acc == digits_value(s.subrange(0, i - from)),
        decreases to - i,
    {
        let c = cs[i];
        assert(c == s[i - from]);
        if c < '0' || c > '9' {
            return None;
        }
        let d: u128 = ((c as u8) - 48u8) as u128;
        let ghost next = s.subrange(0, i - from + 1);
        proof {
            assert(next.drop_last() =~= s.subrange(0, i - from));
            lemma_digits_value_grows(next, s);
        }
        if acc > (u128::MAX - d) / 10 {
            return None;
        }
        acc = acc * 10 + d;
        i += 1;
    }
    assert(s.subrange(0, to - from) =~= s);
    Some(acc)
}

/// Reads `cs[from..to]` as a decimal numeral that fits in 64 bits.
pub fn parse_dec(cs: &Vec<char>, from: usize, to: usize) -> (r: Option<u64>)
    requires
        from <= to <= cs.len(),
    ensures
        r == match dec_value(cs@.subrange(from as int, to as int)) {
            Some(v) => if v <= u64::MAX {
                Some(v as u64)
            } else {
                None
            },
            None => None,
        },
{
    match parse_dec_wide(cs, from, to) {
        Some(v) => if v <= u64::MAX as u128 {
            Some(v as u64)
        } else {
            None
        },
        None => {
            None
        },
    }
}

/// A string of digits writes a number at least as large as any prefix of it.
pub proof fn lemma_digits_value_grows(p: Seq<char>, s: Seq<char>)
    requires
        p.len() <= s.len(),
        p == s.subrange(0, p.len() as int),
    ensures
        digits_value(p) <= digits_value(s),
    decreases s.len(),
{
    if p.len() < s.len() {
        let t = s.drop_last();
        assert(p =~= t.subrange(0, p.len() as int));
        lemma_digits_value_grows(p, t);
    } else {
        assert(p =~= s);
    }
}

/// The pieces of `s` between occurrences of `sep`.  A text without `sep`
/// is one piece; two adjacent separators enclose an empty piece.
pub open spec fn split_text(s: Seq<char>, sep: char) -> Seq<Seq<char>>
    decreases s.len(),
{
    if s.len() == 0 {
        seq![Seq::<char>::empty()]
    } else {
        let head = split_text(s.drop_last(), sep);
        if s.last() == sep {
            head.push(Seq::<char>::empty())
        } else {
            head.drop_last().push(head.last().push(s.last()))
        }
    }
}

/// The pieces of `ranges`, each a half-open range of positions in `cs`.
pub open spec fn pieces_of(cs: Seq<char>, ranges: Seq<(usize, usize)>) -> Seq<Seq<char>> {
    Seq::new(ranges.len(), |k: int| cs.subrange(ranges[k].0 as int, ranges[k].1 as int))
}

/// Splits `cs` at each `sep`, giving the pieces as ranges of positions.
pub fn split_ranges(cs: &Vec<char>, sep: char) -> (r: Vec<(usize, usize)>)
    ensures
        pieces_of(cs@, r@) == split_text(cs@, sep),
        r@.len() >= 1,
        forall|k: int| 0 <= k < r@.len() ==> (#[trigger] r@[k]).0 <= r@[k].1 <= cs@.len(),
{
    let n = cs.len();
    let mut done: Vec<(usize, usize)> = Vec::new();
    let mut start: usize = 0;
    let mut i: usize = 0;
    proof {
        assert(cs@.subrange(0, 0) =~= Seq::<char>::empty());
    }
    while i < n
        invariant
            n == cs.len(),
            start <= i <= n,
            forall|k: int| 0 <= k < done@.len() ==> (#[trigger] done@[k]).0 <= done@[k].1 <= n,
            pieces_of(cs@, done@).push(cs@.subrange(start as int, i as int)) == split_text(
                cs@.subrange(0, i as int),
                sep,
            ),
        decreases n - i,
    {
        let ghost before = split_text(cs@.subrange(0, i as int), sep);
        proof {
            assert(cs@.subrange(0, i + 1).drop_last() =~= cs@.subrange(0, i as int));
        }
        if cs[i] == sep {
            done.push((start, i));
            start = i + 1;
            proof {
                assert(cs@.subrange(start as int, i + 1) =~= Seq::<char>::empty());
            }
        } else {
            proof {
                assert(before.last().push(cs@[i as int]) =~= cs@.subrange(start as int, i + 1));
            }
        }
        i += 1;
    }
    done.push((start, n));
    proof {
        assert(cs@.subrange(0, n as int) =~= cs@);
    }
    done
}

/// The number that `s` writes in decimal, if it is at most `max`.
pub open spec fn dec_bounded(s: Seq<char>, max: nat) -> Option<nat> {
    match dec_value(s) {
        Some(v) => if v <= max {
            Some(v)
        } else {
            None
        },
        None => None,
    }
}

/// Reads `cs[from..to]` as a decimal numeral of at most `max`.
pub fn parse_dec_bounded(cs: &Vec<char>, from: usize, to: usize, max: u64) -> (r: Option<u64>)
    requires
        from <= to <= cs.len(),
    ensures
        r matches Some(v) ==> dec_bounded(cs@.subrange(from as int, to as int), max as nat) == Some(
            v as nat,
        ),
        r is None ==> dec_bounded(cs@.subrange(from as int, to as int), max as nat) is None,
{
    match parse_dec(cs, from, to) {
        Some(v) => if v <= max {
            Some(v)
        } else {
            None
        },
        None => None,
    }
}

/// Reads a whole string as a decimal numeral of at most `max`.
pub fn parse_dec_str(s: &str, max: u64) -> (r: Option<u64>)
    ensures
        r matches Some(v) ==> dec_bounded(s@, max as nat) == Some(v as nat),
        r is None ==> dec_bounded(s@, max as nat) is None,
{
    let cs = chars_of(s);
    assert(cs@.subrange(0, cs@.len() as int) =~= s@);
    parse_dec_bounded(&cs, 0, cs.len(), max)
}

/// The strings that `cs` holds between the positions of `ranges`.
pub fn pieces(cs: &Vec<char>, ranges: &Vec<(usize, usize)>) -> (r: Vec<String>)
    requires
        forall|k: int| 0 <= k < ranges@.len() ==> (#[trigger] ranges@[k]).0 <= ranges@[k].1 <= cs@.len(),
    ensures
        r@.len() == ranges@.len(),
        forall|k: int| 0 <= k < r@.len() ==> (#[trigger] r@[k])@ == pieces_of(cs@, ranges@)[k],
{
    let mut out: Vec<String> = Vec::new();
    let mut i: usize = 0;
    while i < ranges.len()
        invariant
            i <= ranges.len(),
            out@.len() == i,
            forall|k: int| 0 <= k < ranges@.len() ==> (#[trigger] ranges@[k]).0 <= ranges@[k].1 <= cs@.len(),
            forall|k: int| 0 <= k < i ==> (#[trigger] out@[k])@ == pieces_of(cs@, ranges@)[k],
        decreases ranges.len() - i,
    {
        let (a, b) = ranges[i];
        out.push(string_of(cs, a, b));
        i += 1;
    }
    out
}

/// Splits a string at each `sep`.
pub fn split_str(s: &str, sep: char) -> (r: Vec<String>)
    ensures
        r@.len() == split_text(s@, sep).len(),
        r@.len() >= 1,
        forall|k: int| 0 <= k < r@.len() ==> (#[trigger] r@[k])@ == split_text(s@, sep)[k],
{
    let cs = chars_of(s);
    let ranges = split_ranges(&cs, sep);
    pieces(&cs, &ranges)
}

/// Whether `sep` does not occur in `s`.
pub open spec fn free_of(s: Seq<char>, sep: char) -> bool {
    forall|i: int| 0 <= i < s.len() ==> #[trigger] s[i] != sep
}

/// Text added behind a split text, without a separator in it, is added to
/// the last piece.
pub proof fn lemma_split_append(s: Seq<char>, t: Seq<char>, sep: char)
    requires
        free_of(t, sep),
    ensures
        split_text(s, sep).len() >= 1,
        split_text(s + t, sep) == split_text(s, sep).drop_last().push(
            split_text(s, sep).last() + t,
        ),
    decreases t.len(),
{
    let head = split_text(s, sep);
    if t.len() == 0 {
    } else {
        let t0 = t.drop_last();
        lemma_split_append(s, t0, sep);
        assert((s + t).drop_last() =~= s + t0);
        assert((head.last() + t0).push(t.last()) =~= head.last() + t);
    }
}

/// A text without a separator is one piece.
pub proof fn lemma_split_plain(t: Seq<char>, sep: char)
    requires
        free_of(t, sep),
    ensures
        split_text(t, sep) == seq![t],
{
    let e = Seq::<char>::empty();
    lemma_split_append(e, t, sep);
}

/// Two texts without a separator, put together with one between them, are
/// split into the two.
pub proof fn lemma_split_pair(a: Seq<char>, b: Seq<char>, sep: char)
    requires
        free_of(a, sep),
        free_of(b, sep),
    ensures
        split_text(a.push(sep) + b, sep) == seq![a, b],
{
    lemma_split_plain(a, sep);
    let s = a.push(sep);
    assert(s.drop_last() =~= a);
    lemma_split_append(s, b, sep);
}

/// Zeros in front of digits do not change the number that they write.
pub proof fn lemma_leading_zeros(k: nat, d: Seq<char>)
    ensures
        digits_value(Seq::new(k, |i: int| '0') + d) == digits_value(d),
    decreases d.len(), k,
{
    let z = Seq::new(k, |i: int| '0');
    if d.len() == 0 {
        if k > 0 {
            let z0 = Seq::new((k - 1) as nat, |i: int| '0');
            assert(z.drop_last() =~= z0);
            lemma_leading_zeros((k - 1) as nat, d);
        }
    } else {
        assert((z + d).drop_last() =~= z + d.drop_last());
        lemma_leading_zeros(k, d.drop_last());
    }
}

/// A text without a separator, put in front of another text with a
/// separator between them, is the first piece, and the pieces of the other
/// text follow.
pub proof fn lemma_split_first(a: Seq<char>, r: Seq<char>, sep: char)
    requires
        free_of(a, sep),
    ensures
        split_text(a.push(sep) + r, sep) == seq![a] + split_text(r, sep),
    decreases r.len(),
{
    let s = a.push(sep);
    if r.len() == 0 {
        assert(s.drop_last() =~= a);
        lemma_split_plain(a, sep);
    } else {
        let r0 = r.drop_last();
        lemma_split_first(a, r0, sep);
        assert((s + r).drop_last() =~= s + r0);
    }
}

} // verus!
