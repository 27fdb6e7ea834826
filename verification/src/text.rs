//! Character-level helpers shared by the rest of the crate: conversions
//! between strings and character vectors, prefix and substring tests, and
//! the decimal rendering of natural numbers.

use vstd::prelude::*;

verus! {

/// `String::push` appends one character to the end of the string.
pub assume_specification[ String::push ](s: &mut String, ch: char)
    ensures
        final(s)@ == old(s)@.push(ch),
;

/// The character that stands for the decimal digit `d`.
pub open spec fn digit_char(d: nat) -> char
    recommends
        d < 10,
{
    if d == 0 {
        '0'
    } else if d == 1 {
        '1'
    } else if d == 2 {
        '2'
    } else if d == 3 {
        '3'
    } else if d == 4 {
        '4'
    } else if d == 5 {
        '5'
    } else if d == 6 {
        '6'
    } else if d == 7 {
        '7'
    } else if d == 8 {
        '8'
    } else {
        '9'
    }
}

/// Decimal rendering of a natural number, without sign or leading zeros.
pub open spec fn nat_text(n: nat) -> Seq<char>
    decreases n,
{
    if n < 10 {
        seq![digit_char(n)]
    } else {
        nat_text(n / 10).push(digit_char(n % 10))
    }
}

/// Decimal rendering of an integer: a minus sign in front of negative ones.
pub open spec fn int_text(i: int) -> Seq<char> {
    if i < 0 {
        seq!['-'] + nat_text((-i) as nat)
    } else {
        nat_text(i as nat)
    }
}

/// `needle` occurs in `hay` as a contiguous run of characters.
pub open spec fn occurs_in(needle: Seq<char>, hay: Seq<char>) -> bool {
    exists|i: int|
        0 <= i && i + needle.len() <= hay.len() && #[trigger] hay.subrange(
            i,
            i + needle.len(),
        ) == needle
}

/// `s` without every leading repetition of `prefix`.
pub open spec fn strip_leading(s: Seq<char>, prefix: Seq<char>) -> Seq<char>
    decreases s.len(),
{
    if prefix.len() > 0 && prefix.is_prefix_of(s) {
        strip_leading(s.skip(prefix.len() as int), prefix)
    } else {
        s
    }
}

/// The characters of `text`, in order.
pub fn to_chars(text: &str) -> (chars: Vec<char>)
    ensures
        chars@ == text@,
{
    let mut chars: Vec<char> = Vec::new();
    for c in it: text.chars()
        invariant
            it.seq() == text@,
            chars@ == text@.take(it.index() as int),
    {
        chars.push(c);
    }
    chars
}

/// Appends `chars[from..to]` to `out`.
pub fn push_chars(out: &mut String, chars: &Vec<char>, from: usize, to: usize)
    requires
        from <= to <= chars.len(),
    ensures
        final(out)@ == old(out)@ + chars@.subrange(from as int, to as int),
{
    let mut i: usize = from;
    while i < to
        invariant
            from <= i <= to <= chars.len(),
            out@ == old(out)@ + chars@.subrange(from as int, i as int),
        decreases to - i,
    {
        out.push(chars[i]);
        i += 1;
    }
}

/// The string made of the characters of `chars`.
pub fn from_chars(chars: &Vec<char>) -> (text: String)
    ensures
        text@ == chars@,
{
    let mut text = String::new();
    push_chars(&mut text, chars, 0, chars.len());
    text
}

/// Whether `needle` is one of the characters of `text`.
pub fn contains_char(text: &str, needle: char) -> (found: bool)
    ensures
        found == text@.contains(needle),
{
    let mut found = false;
    for c in it: text.chars()
        invariant
            it.seq() == text@,
            found <==> exists|i: int| 0 <= i < it.index() && text@[i] == needle,
    {
        found = found || c == needle;
    }
    found
}

/// Whether `hay[at..]` begins with `needle`.
pub fn matches_at(hay: &Vec<char>, at: usize, needle: &Vec<char>) -> (hit: bool)
    requires
        at <= hay.len(),
    ensures
        hit == (at + needle.len() <= hay.len() && hay@.subrange(
            at as int,
            at + needle.len(),
        ) == needle@),
{
    if needle.len() > hay.len() - at {
        return false;
    }
    let mut k: usize = 0;
    while k < needle.len()
        invariant
            at + needle.len() <= hay.len(),
            k <= needle.len(),
            forall|j: int| 0 <= j < k ==> hay@[at + j] == needle@[j],
        decreases needle.len() - k,
    {
        if hay[at + k] != needle[k] {
            assert(hay@.subrange(at as int, at + needle.len())[k as int] != needle@[k as int]);
            return false;
        }
        k += 1;
    }
    assert(hay@.subrange(at as int, at + needle.len()) =~= needle@);
    true
}

/// Whether `text` begins with `prefix`.
pub fn starts_with(text: &str, prefix: &str) -> (hit: bool)
    ensures
        hit == prefix@.is_prefix_of(text@),
{
    let hay = to_chars(text);
    let needle = to_chars(prefix);
    let hit = matches_at(&hay, 0, &needle);
    proof {
        if needle@.len() <= hay@.len() {
            assert(hay@.subrange(0int, 0 + needle.len()) == hay@.subrange(0, needle@.len() as int));
        }
    }
    hit
}

/// Whether `needle` occurs somewhere in `text`.
pub fn contains_text(text: &str, needle: &str) -> (found: bool)
    ensures
        found == occurs_in(needle@, text@),
{
    let hay = to_chars(text);
    let pat = to_chars(needle);
    let mut at: usize = 0;
    loop
        invariant
            at <= hay.len(),
            hay@ == text@,
            pat@ == needle@,
            forall|i: int|
                0 <= i < at && i + pat@.len() <= hay@.len() ==> #[trigger] hay@.subrange(
                    i,
                    i + pat@.len(),
                ) != pat@,
        decreases hay.len() - at,
    {
        if matches_at(&hay, at, &pat) {
            return true;
        }
        if at == hay.len() {
            return false;
        }
        at += 1;
    }
}

/// `text` without every leading repetition of `prefix`.
pub fn trim_leading(text: &str, prefix: &str) -> (rest: String)
    ensures
        rest@ == strip_leading(text@, prefix@),
{
    let hay = to_chars(text);
    let pat = to_chars(prefix);
    let mut at: usize = 0;
    assert(hay@.skip(0) =~= hay@);
    if pat.len() > 0 {
        while matches_at(&hay, at, &pat)
            invariant
                at <= hay.len(),
                pat.len() > 0,
                hay@ == text@,
                pat@ == prefix@,
                strip_leading(text@, prefix@) == strip_leading(hay@.skip(at as int), pat@),
            decreases hay.len() - at,
        {
            proof {
                let tail = hay@.skip(at as int);
                assert(tail.subrange(0, pat@.len() as int) =~= hay@.subrange(
                    at as int,
                    at + pat@.len(),
                ));
                assert(tail.skip(pat@.len() as int) =~= hay@.skip(at + pat@.len()));
            }
            at += pat.len();
        }
        proof {
            let tail = hay@.skip(at as int);
            if pat@.len() <= tail.len() {
                assert(tail.subrange(0, pat@.len() as int) =~= hay@.subrange(
                    at as int,
                    at + pat@.len(),
                ));
            }
        }
    }
    let mut rest = String::new();
    push_chars(&mut rest, &hay, at, hay.len());
    proof {
        assert(hay@.subrange(at as int, hay@.len() as int) =~= hay@.skip(at as int));
    }
    rest
}

/// The character of one decimal digit.
pub fn digit(d: u8) -> (c: char)
    requires
        d < 10,
    ensures
        c == digit_char(d as nat),
{
    if d == 0 {
        '0'
    } else if d == 1 {
        '1'
    } else if d == 2 {
        '2'
    } else if d == 3 {
        '3'
    } else if d == 4 {
        '4'
    } else if d == 5 {
        '5'
    } else if d == 6 {
        '6'
    } else if d == 7 {
        '7'
    } else if d == 8 {
        '8'
    } else {
        '9'
    }
}

/// Appends the decimal rendering of `n` to `out`.
pub fn push_nat(out: &mut String, n: u128)
    ensures
        final(out)@ == old(out)@ + nat_text(n as nat),
    decreases n,
{
    if n >= 10 {
        push_nat(out, n / 10);
    }
    out.push(digit((n % 10) as u8));
}

/// Appends the decimal rendering of `i` to `out`.
pub fn push_int(out: &mut String, i: i64)
    ensures
        final(out)@ == old(out)@ + int_text(i as int),
{
    if i < 0 {
        out.push('-');
        let wide: i128 = i as i128;
        push_nat(out, (0 - wide) as u128);
    } else {
        push_nat(out, i as u128);
    }
}

/// The decimal rendering of `n`.
pub fn format_nat(n: u128) -> (text: String)
    ensures
        text@ == nat_text(n as nat),
{
    let mut text = String::new();
    push_nat(&mut text, n);
    text
}

} // verus!
