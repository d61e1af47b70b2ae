use vstd::prelude::*;

use crate::text::{chars_of, is_space, is_space_char};

verus! {

/// `str::split_whitespace` on characters, read from the left: the words
/// already closed, and the word still open at the end of `s`.
pub open spec fn split_state(s: Seq<char>) -> (Seq<Seq<char>>, Seq<char>)
    decreases s.len(),
{
    if s.len() == 0 {
        (seq![], seq![])
    } else {
        let (done, open) = split_state(s.drop_last());
        if is_space(s.last()) {
            if open.len() > 0 {
                (done.push(open), seq![])
            } else {
                (done, seq![])
            }
        } else {
            (done, open.push(s.last()))
        }
    }
}

/// `str::split_whitespace`: the maximal runs of characters that are not
/// white space, in order.
pub open spec fn words(s: Seq<char>) -> Seq<Seq<char>> {
    let (done, open) = split_state(s);
    if open.len() > 0 {
        done.push(open)
    } else {
        done
    }
}

pub open spec fn is_digit(c: char) -> bool {
    '0' <= c && c <= '9'
}

pub open spec fn digit_value(c: char) -> nat {
    (c as int - '0' as int) as nat
}

/// The number that a run of decimal digits writes.
pub open spec fn decimal_value(d: Seq<char>) -> nat
    decreases d.len(),
{
    if d.len() == 0 {
        0
    } else {
        decimal_value(d.drop_last()) * 10 + digit_value(d.last())
    }
}

/// The digits of a number for `u32::from_str`: one leading `+` is dropped.
pub open spec fn unsigned_digits(s: Seq<char>) -> Seq<char> {
    if s.len() > 0 && s[0] == '+' {
        s.drop_first()
    } else {
        s
    }
}

/// `u32::from_str`: an optional `+`, then at least one ASCII digit and
/// nothing else, for a value that fits in a `u32`.
pub open spec fn parse_u32(s: Seq<char>) -> Option<u32> {
    let d = unsigned_digits(s);
    if d.len() > 0 && (forall|i: int| 0 <= i < d.len() ==> is_digit(#[trigger] d[i]))
        && decimal_value(d) <= u32::MAX {
        Some(decimal_value(d) as u32)
    } else {
        None
    }
}

/// The seconds that one word of a time stands for: `<n>h` is `n` hours,
/// `<n>m` is `n` minutes, anything else (a number that does not parse
/// included) is nothing.
pub open spec fn word_seconds(w: Seq<char>) -> nat {
    if w.len() > 0 && w.last() == 'h' {
        match parse_u32(w.drop_last()) {
            Some(h) => h as nat * 3600,
            None => 0,
        }
    } else if w.len() > 0 && w.last() == 'm' {
        match parse_u32(w.drop_last()) {
            Some(m) => m as nat * 60,
            None => 0,
        }
    } else {
        0
    }
}

/// The seconds of a list of words, added up.
pub open spec fn words_seconds(ws: Seq<Seq<char>>) -> nat
    decreases ws.len(),
{
    if ws.len() == 0 {
        0
    } else {
        words_seconds(ws.drop_last()) + word_seconds(ws.last())
    }
}

/// The duration that a time such as `"1h 30m"` writes, in seconds: the sum
/// over its white-space separated words.
pub open spec fn time_seconds(s: Seq<char>) -> nat {
    words_seconds(words(s))
}

proof fn lemma_decimal_prefix(d: Seq<char>, k: int)
    requires
        0 <= k <= d.len(),
    ensures
        decimal_value(d.take(k)) <= decimal_value(d),
    decreases d.len(),
{
    if k < d.len() {
        assert(d.drop_last().take(k) == d.take(k));
        lemma_decimal_prefix(d.drop_last(), k);
    } else {
        assert(d.take(k) == d);
    }
}

/// `u32::from_str` on the characters `v[lo..hi]`.
pub fn parse_u32_chars(v: &Vec<char>, lo: usize, hi: usize) -> (r: Option<u32>)
    requires
        lo <= hi <= v@.len(),
    ensures
        r == parse_u32(v@.subrange(lo as int, hi as int)),
{
    let ghost s = v@.subrange(lo as int, hi as int);
    let mut p = lo;
    if p < hi && v[p] == '+' {
        p += 1;
    }
    let ghost d = v@.subrange(p as int, hi as int);
    assert(unsigned_digits(s) == d);
    if p == hi {
        return None;
    }
    let mut val: u64 = 0;
    let mut k = p;
    while k < hi
        invariant
            lo <= p <= k <= hi <= v@.len(),
            d == v@.subrange(p as int, hi as int),
            d == unsigned_digits(s),
            s == v@.subrange(lo as int, hi as int),
            val == decimal_value(d.take(k - p)),
            val <= u32::MAX,
            forall|i: int| 0 <= i < k - p ==> is_digit(#[trigger] d[i]),
        decreases hi - k,
    {
        let c = v[k];
        if !('0' <= c && c <= '9') {
            assert(!is_digit(d[k - p]));
            return None;
        }
        assert(d.take(k - p + 1).drop_last() == d.take(k - p));
        val = val * 10 + (c as u32 - '0' as u32) as u64;
        if val > 4294967295 {
            proof {
                lemma_decimal_prefix(d, k - p + 1);
            }
            return None;
        }
        k += 1;
    }
    assert(d.take(k - p) == d);
    Some(val as u32)
}

/// The seconds that the word `v[lo..hi]` stands for.
fn word_seconds_chars(v: &Vec<char>, lo: usize, hi: usize) -> (r: u64)
    requires
        lo < hi <= v@.len(),
    ensures
        r == word_seconds(v@.subrange(lo as int, hi as int)),
{
    let ghost w = v@.subrange(lo as int, hi as int);
    assert(w.drop_last() == v@.subrange(lo as int, hi - 1));
    let last = v[hi - 1];
    if last == 'h' {
        match parse_u32_chars(v, lo, hi - 1) {
            Some(h) => h as u64 * 3600,
            None => 0,
        }
    } else if last == 'm' {
        match parse_u32_chars(v, lo, hi - 1) {
            Some(m) => m as u64 * 60,
            None => 0,
        }
    } else {
        0
    }
}

proof fn lemma_words_seconds_prefix(a: Seq<Seq<char>>, b: Seq<Seq<char>>)
    requires
        a.is_prefix_of(b),
    ensures
        words_seconds(a) <= words_seconds(b),
    decreases b.len(),
{
    if a.len() < b.len() {
        assert(a.is_prefix_of(b.drop_last()));
        lemma_words_seconds_prefix(a, b.drop_last());
    } else {
        assert(a == b);
    }
}

proof fn lemma_split_grows(s: Seq<char>, i: int, j: int)
    requires
        0 <= i <= j <= s.len(),
    ensures
        split_state(s.take(i)).0.is_prefix_of(split_state(s.take(j)).0),
    decreases j - i,
{
    if i < j {
        lemma_split_grows(s, i, j - 1);
        assert(s.take(j).drop_last() == s.take(j - 1));
        let a = split_state(s.take(i)).0;
        let b = split_state(s.take(j - 1)).0;
        let c = split_state(s.take(j)).0;
        assert(b.is_prefix_of(c));
        assert(a.is_prefix_of(c)) by {
            assert forall|k: int| 0 <= k < a.len() implies a[k] == c[k] by {
                assert(a[k] == b[k]);
                assert(b[k] == c[k]);
            }
        }
    }
}

proof fn lemma_done_within(s: Seq<char>, i: int)
    requires
        0 <= i <= s.len(),
    ensures
        words_seconds(split_state(s.take(i)).0) <= time_seconds(s),
{
    lemma_split_grows(s, i, s.len() as int);
    assert(s.take(s.len() as int) == s);
    let d = split_state(s).0;
    assert(d.is_prefix_of(words(s)));
    lemma_words_seconds_prefix(split_state(s.take(i)).0, d);
    lemma_words_seconds_prefix(d, words(s));
}

/// The seconds of a time such as `"1h 30m"` (see [`time_seconds`]), or `None`
/// where they do not fit in a `u32`.
pub fn time_to_seconds_checked(time: &str) -> (r: Option<u32>)
    ensures
        r == (if time_seconds(time@) <= u32::MAX {
            Some(time_seconds(time@) as u32)
        } else {
            None
        }),
{
    let v = chars_of(time);
    let n = v.len();
    let mut total: u32 = 0;
    let mut start: usize = 0;
    let mut i: usize = 0;
    while i < n
        invariant
            start <= i <= n == v@.len(),
            v@ == time@,
            split_state(v@.take(i as int)).1 == v@.subrange(start as int, i as int),
            words_seconds(split_state(v@.take(i as int)).0) == total,
        decreases n - i,
    {
        assert(v@.take(i + 1).drop_last() == v@.take(i as int));
        if is_space_char(v[i]) {
            if start < i {
                let w = word_seconds_chars(&v, start, i);
                let ghost done = split_state(v@.take(i as int)).0;
                let ghost cur = v@.subrange(start as int, i as int);
                assert(done.push(cur).drop_last() == done);
                if total as u64 + w > 4294967295 {
                    proof {
                        lemma_done_within(v@, i + 1);
                    }
                    return None;
                }
                total = total + w as u32;
            }
            start = i + 1;
        }
        i += 1;
    }
    assert(v@.take(n as int) == v@);
    if start < n {
        let w = word_seconds_chars(&v, start, n);
        let ghost done = split_state(v@).0;
        let ghost cur = v@.subrange(start as int, n as int);
        assert(done.push(cur).drop_last() == done);
        if total as u64 + w > 4294967295 {
            return None;
        }
        total = total + w as u32;
    }
    Some(total)
}

/// The seconds of a time such as `"1h 30m"` (see [`time_seconds`]); the
/// caller makes sure that they fit in a `u32`.
pub fn time_to_seconds(time: &str) -> (r: u32)
    requires
        time_seconds(time@) <= u32::MAX,
    ensures
        r == time_seconds(time@),
{
    match time_to_seconds_checked(time) {
        Some(s) => s,
        None => 0,
    }
}


/// Any run of decimal digits whose value fits in a `u32` reads as that
/// value, with or without a leading `+`, and leading zeros included; as a
/// word, it followed by `m` counts that many minutes and followed by `h` that
/// many hours.
pub proof fn lemma_digits_read(d: Seq<char>)
    requires
        d.len() > 0,
        forall|i: int| 0 <= i < d.len() ==> is_digit(#[trigger] d[i]),
        decimal_value(d) <= u32::MAX,
    ensures
        parse_u32(d) == Some(decimal_value(d) as u32),
        parse_u32(seq!['+'] + d) == Some(decimal_value(d) as u32),
        word_seconds(d.push('m')) == decimal_value(d) * 60,
        word_seconds(d.push('h')) == decimal_value(d) * 3600,
{
    assert(unsigned_digits(d) == d);
    assert((seq!['+'] + d).drop_first() == d);
    assert(d.push('m').drop_last() == d);
    assert(d.push('h').drop_last() == d);
}

/// A leading zero changes neither the value of a run of digits nor how it
/// reads: `"05"` reads as `5`.
pub proof fn lemma_leading_zero(d: Seq<char>)
    requires
        d.len() > 0,
        forall|i: int| 0 <= i < d.len() ==> is_digit(#[trigger] d[i]),
    ensures
        decimal_value(seq!['0'] + d) == decimal_value(d),
        parse_u32(seq!['0'] + d) == parse_u32(d),
    decreases d.len(),
{
    let z = seq!['0'] + d;
    assert(z.last() == d.last());
    if d.len() == 1 {
        assert(z.drop_last() == seq!['0']);
        assert(seq!['0'].drop_last() == Seq::<char>::empty());
        assert(d.drop_last() == Seq::<char>::empty());
        assert(decimal_value(seq!['0']) == 0);
        assert(decimal_value(z) == decimal_value(z.drop_last()) * 10 + digit_value(z.last()));
    } else {
        assert(z.drop_last() == seq!['0'] + d.drop_last());
        assert forall|i: int| 0 <= i < d.drop_last().len() implies is_digit(
            #[trigger] d.drop_last()[i],
        ) by {
            assert(d.drop_last()[i] == d[i]);
        }
        lemma_leading_zero(d.drop_last());
        assert(decimal_value(z) == decimal_value(z.drop_last()) * 10 + digit_value(z.last()));
    }
    assert(is_digit(d[0]));
    assert(unsigned_digits(d) == d);
    assert(unsigned_digits(z) == z);
    assert forall|i: int| 0 <= i < z.len() implies is_digit(#[trigger] z[i]) by {
        if i > 0 {
            assert(z[i] == d[i - 1]);
        }
    }
}

proof fn lemma_split_after_space(a: Seq<char>, sep: char, b: Seq<char>)
    requires
        is_space(sep),
    ensures
        split_state(a + seq![sep] + b) == (words(a) + split_state(b).0, split_state(b).1),
    decreases b.len(),
{
    let s = a + seq![sep] + b;
    if b.len() == 0 {
        assert(s == a + seq![sep]);
        assert(s.drop_last() == a);
        assert(words(a) + seq![] == words(a));
    } else {
        assert(s.drop_last() == a + seq![sep] + b.drop_last());
        assert(s.last() == b.last());
        lemma_split_after_space(a, sep, b.drop_last());
        let (d, o) = split_state(b.drop_last());
        assert((words(a) + d).push(o) == words(a) + d.push(o));
    }
}

proof fn lemma_words_seconds_concat(x: Seq<Seq<char>>, y: Seq<Seq<char>>)
    ensures
        words_seconds(x + y) == words_seconds(x) + words_seconds(y),
    decreases y.len(),
{
    if y.len() == 0 {
        assert(x + y == x);
    } else {
        assert((x + y).drop_last() == x + y.drop_last());
        lemma_words_seconds_concat(x, y.drop_last());
    }
}

/// Joining two times with white space adds up their seconds: the words of
/// the joined time are the words of the first followed by those of the
/// second.
pub proof fn lemma_time_seconds_join(a: Seq<char>, sep: char, b: Seq<char>)
    requires
        is_space(sep),
    ensures
        words(a + seq![sep] + b) == words(a) + words(b),
        time_seconds(a + seq![sep] + b) == time_seconds(a) + time_seconds(b),
{
    lemma_split_after_space(a, sep, b);
    let (d, o) = split_state(b);
    if o.len() > 0 {
        assert((words(a) + d).push(o) == words(a) + d.push(o));
    }
    lemma_words_seconds_concat(words(a), words(b));
}

} // verus!
