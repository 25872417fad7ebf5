//! Character-level building blocks for reading the tool's line protocol:
//! separated fields, unsigned decimal numbers and line endings.

use vstd::prelude::*;

verus! {

/// `String::push` of the standard library, taken on trust: afterwards the
/// string is what it was before with `c` added at its end.
pub assume_specification[ String::push ](s: &mut String, c: char)
    ensures
        final(s)@ == old(s)@.push(c),
;

/// The fields of `s` when it is cut at every occurrence of `sep`.
///
/// Reading from the left, a separator closes the current field and opens a
/// new, empty one; any other character extends the current field. A text
/// with `n` separators therefore has `n + 1` fields, some possibly empty.
pub open spec fn split(s: Seq<char>, sep: char) -> Seq<Seq<char>>
    decreases s.len(),
{
    if s.len() == 0 {
        seq![Seq::<char>::empty()]
    } else {
        let before = split(s.drop_last(), sep);
        if s.last() == sep {
            before.push(Seq::<char>::empty())
        } else {
            before.update(before.len() - 1, before.last().push(s.last()))
        }
    }
}

/// The fields `parts` written one after another with `sep` between
/// neighbours.
pub open spec fn join(parts: Seq<Seq<char>>, sep: char) -> Seq<char>
    decreases parts.len(),
{
    if parts.len() == 0 {
        Seq::<char>::empty()
    } else if parts.len() == 1 {
        parts[0]
    } else {
        join(parts.drop_last(), sep).push(sep) + parts.last()
    }
}

/// `s` with every occurrence of `c` removed.
pub open spec fn without(s: Seq<char>, c: char) -> Seq<char>
    decreases s.len(),
{
    if s.len() == 0 {
        s
    } else if s.last() == c {
        without(s.drop_last(), c)
    } else {
        without(s.drop_last(), c).push(s.last())
    }
}

/// What follows `prefix` in `s`, if `s` begins with it.
pub open spec fn strip_prefix(s: Seq<char>, prefix: Seq<char>) -> Option<Seq<char>> {
    if prefix.is_prefix_of(s) {
        Some(s.skip(prefix.len() as int))
    } else {
        None
    }
}

/// Whether `c` is one of the ten decimal digits.
pub open spec fn is_digit(c: char) -> bool {
    48 <= c as u32 <= 57
}

/// The number that the digit `c` stands for.
pub open spec fn digit_value(c: char) -> nat {
    (c as u32 - 48) as nat
}

/// Whether every character of `s` is a decimal digit.
pub open spec fn all_digits(s: Seq<char>) -> bool {
    forall|i: int| 0 <= i < s.len() ==> is_digit(#[trigger] s[i])
}

/// The number that the digits `s` write in base ten; 0 for no digits.
pub open spec fn digits_value(s: Seq<char>) -> nat
    decreases s.len(),
{
    if s.len() == 0 {
        0
    } else {
        digits_value(s.drop_last()) * 10 + digit_value(s.last())
    }
}

/// `s` without one leading plus sign.
pub open spec fn unsigned_part(s: Seq<char>) -> Seq<char> {
    if s.len() > 0 && s[0] == '+' {
        s.skip(1)
    } else {
        s
    }
}

/// The number that `s` writes, if it is an unsigned decimal number no
/// larger than `max`: an optional plus sign, then one or more digits and
/// nothing else. Leading zeros are allowed.
pub open spec fn parse_unsigned(s: Seq<char>, max: nat) -> Option<nat> {
    let digits = unsigned_part(s);
    if digits.len() > 0 && all_digits(digits) && digits_value(digits) <= max {
        Some(digits_value(digits))
    } else {
        None
    }
}

/// The number that `s` writes if it is an unsigned decimal number no larger
/// than `max`, and 0 otherwise.
pub open spec fn number_or_zero(s: Seq<char>, max: nat) -> nat {
    match parse_unsigned(s, max) {
        Some(v) => v,
        None => 0,
    }
}

/// The character that writes the digit `d`.
pub open spec fn digit_char(d: nat) -> char {
    ((48 + d) as u8) as char
}

/// `n` written in base ten without leading zeros.
pub open spec fn decimal(n: nat) -> Seq<char>
    decreases n,
{
    if n < 10 {
        seq![digit_char(n)]
    } else {
        decimal(n / 10).push(digit_char(n % 10))
    }
}

/// `s` without one trailing carriage return.
pub open spec fn without_cr(s: Seq<char>) -> Seq<char> {
    if s.len() > 0 && s.last() == '\r' {
        s.drop_last()
    } else {
        s
    }
}

/// The lines of `s`.
///
/// A line ends at a line feed; a carriage return right before that line
/// feed belongs to the line ending. What follows the last line feed is a
/// line of its own, taken as it stands, unless it is empty.
pub open spec fn lines(s: Seq<char>) -> Seq<Seq<char>> {
    let parts = split(s, '\n');
    let ended = Seq::new((parts.len() - 1) as nat, |i: int| without_cr(parts[i]));
    if parts.last().len() == 0 {
        ended
    } else {
        ended.push(parts.last())
    }
}

/// The characters of `s`, in order.
pub fn chars_of(s: &str) -> (out: Vec<char>)
    ensures
        out@ == s@,
{
    let mut out: Vec<char> = Vec::new();
    for c in it: s.chars()
        invariant
            out@ == it.seq().take(it.index()),
            it.seq() == s@,
    {
        out.push(c);
    }
    out
}

/// The string made of the characters of `chars`, in order.
pub fn string_of(chars: &Vec<char>) -> (out: String)
    ensures
        out@ == chars@,
{
    let mut out = String::new();
    let mut i: usize = 0;
    while i < chars.len()
        invariant
            i <= chars.len(),
            out@ == chars@.take(i as int),
        decreases chars.len() - i,
    {
        out.push(chars[i]);
        i += 1;
    }
    out
}

/// Cuts `s` at every `sep`.
pub fn split_at_each(s: &Vec<char>, sep: char) -> (out: Vec<Vec<char>>)
    ensures
        out.deep_view() == split(s@, sep),
{
    let mut out: Vec<Vec<char>> = Vec::new();
    let mut current: Vec<char> = Vec::new();
    let mut i: usize = 0;
    while i < s.len()
        invariant
            i <= s.len(),
            split(s@.take(i as int), sep) == out.deep_view().push(current@),
        decreases s.len() - i,
    {
        let c = s[i];
        let ghost closed = out.deep_view();
        let ghost open = current@;
        proof {
            assert(s@.take(i + 1).drop_last() == s@.take(i as int));
        }
        if c == sep {
            proof {
                assert(current.deep_view() =~= open);
            }
            out.push(current);
            current = Vec::new();
            proof {
                assert(out.deep_view() =~= closed.push(open));
            }
        } else {
            current.push(c);
            proof {
                assert(out.deep_view().push(current@) =~= closed.push(open).update(
                    closed.len() as int,
                    open.push(c),
                ));
            }
        }
        i += 1;
    }
    proof {
        assert(s@.take(s.len() as int) == s@);
        assert(current.deep_view() =~= current@);
    }
    let ghost closed = out.deep_view();
    out.push(current);
    proof {
        assert(out.deep_view() =~= closed.push(current@));
    }
    out
}

/// Appends the characters of `part` to `out`.
pub fn append_chars(out: &mut Vec<char>, part: &Vec<char>)
    ensures
        final(out)@ == old(out)@ + part@,
{
    let mut j: usize = 0;
    while j < part.len()
        invariant
            j <= part.len(),
            out@ == old(out)@ + part@.take(j as int),
        decreases part.len() - j,
    {
        out.push(part[j]);
        j += 1;
    }
    proof {
        assert(part@.take(part.len() as int) == part@);
    }
}

/// Joins the fields of `parts` from position `from` on, with `sep` between
/// neighbours.
pub fn join_from(parts: &Vec<Vec<char>>, from: usize, sep: char) -> (out: Vec<char>)
    requires
        from <= parts.len(),
    ensures
        out@ == join(parts.deep_view().skip(from as int), sep),
{
    let mut out: Vec<char> = Vec::new();
    let mut i: usize = from;
    let ghost all = parts.deep_view();
    proof {
        assert(all.subrange(from as int, from as int) =~= Seq::<Seq<char>>::empty());
    }
    while i < parts.len()
        invariant
            from <= i <= parts.len(),
            all == parts.deep_view(),
            out@ == join(all.subrange(from as int, i as int), sep),
        decreases parts.len() - i,
    {
        proof {
            let next = all.subrange(from as int, i + 1);
            assert(next.drop_last() =~= all.subrange(from as int, i as int));
            assert(next.last() == parts@[i as int]@);
        }
        if i > from {
            out.push(sep);
        }
        append_chars(&mut out, &parts[i]);
        i += 1;
    }
    proof {
        assert(all.subrange(from as int, parts.len() as int) =~= all.skip(from as int));
    }
    out
}

/// Removes every occurrence of `c` from `s`.
pub fn remove_all(s: &Vec<char>, c: char) -> (out: Vec<char>)
    ensures
        out@ == without(s@, c),
{
    let mut out: Vec<char> = Vec::new();
    let mut i: usize = 0;
    while i < s.len()
        invariant
            i <= s.len(),
            out@ == without(s@.take(i as int), c),
        decreases s.len() - i,
    {
        proof {
            assert(s@.take(i + 1).drop_last() == s@.take(i as int));
        }
        if s[i] != c {
            out.push(s[i]);
        }
        i += 1;
    }
    proof {
        assert(s@.take(s.len() as int) == s@);
    }
    out
}

/// What follows `prefix` in `s`, if `s` begins with it.
pub fn strip_prefix_of(s: &Vec<char>, prefix: &str) -> (out: Option<Vec<char>>)
    ensures
        out is Some <==> strip_prefix(s@, prefix@) is Some,
        out matches Some(rest) ==> strip_prefix(s@, prefix@) == Some(rest@),
{
    let p = chars_of(prefix);
    if p.len() > s.len() {
        return None;
    }
    let mut i: usize = 0;
    while i < p.len()
        invariant
            i <= p.len() <= s.len(),
            p@ == prefix@,
            p@.take(i as int) == s@.take(i as int),
        decreases p.len() - i,
    {
        if p[i] != s[i] {
            proof {
                assert(s@.subrange(0, p.len() as int)[i as int] == s@[i as int]);
            }
            return None;
        }
        proof {
            assert(p@.take(i + 1) =~= p@.take(i as int).push(p@[i as int]));
            assert(s@.take(i + 1) =~= s@.take(i as int).push(s@[i as int]));
        }
        i += 1;
    }
    proof {
        assert(p@.take(p.len() as int) == p@);
    }
    let mut rest: Vec<char> = Vec::new();
    let mut j: usize = p.len();
    while j < s.len()
        invariant
            p.len() <= j <= s.len(),
            rest@ == s@.subrange(p.len() as int, j as int),
        decreases s.len() - j,
    {
        rest.push(s[j]);
        j += 1;
    }
    proof {
        assert(s@.subrange(p.len() as int, s.len() as int) == s@.skip(p.len() as int));
    }
    Some(rest)
}

/// Every text has at least one field.
pub proof fn lemma_split_len(s: Seq<char>, sep: char)
    ensures
        split(s, sep).len() >= 1,
    decreases s.len(),
{
    if s.len() > 0 {
        lemma_split_len(s.drop_last(), sep);
    }
}

/// Joining the fields of a text gives the text back, and no field holds
/// the separator.
pub proof fn lemma_split_join(s: Seq<char>, sep: char)
    ensures
        join(split(s, sep), sep) == s,
        forall|k: int, i: int|
            0 <= k < split(s, sep).len() && 0 <= i < split(s, sep)[k].len() ==> split(
                s,
                sep,
            )[k][i] != sep,
    decreases s.len(),
{
    let parts = split(s, sep);
    if s.len() == 0 {
        assert(join(parts, sep) =~= s);
    } else {
        let before = split(s.drop_last(), sep);
        lemma_split_len(s.drop_last(), sep);
        lemma_split_join(s.drop_last(), sep);
        if s.last() == sep {
            assert(parts.drop_last() =~= before);
            assert(join(parts, sep) =~= s.drop_last().push(sep));
        } else {
            if before.len() > 1 {
                assert(parts.drop_last() =~= before.drop_last());
                assert(join(parts, sep) =~= join(before, sep).push(s.last()));
            }
        }
        assert(s.drop_last().push(s.last()) =~= s);
    }
}

/// A number written in base ten reads as itself.
pub proof fn lemma_decimal_reads_back(n: nat, max: nat)
    requires
        n <= max,
    ensures
        parse_unsigned(decimal(n), max) == Some(n),
        decimal(n).len() > 0,
        all_digits(decimal(n)),
        digits_value(decimal(n)) == n,
    decreases n,
{
    let text = decimal(n);
    if n < 10 {
        assert(text.drop_last() =~= Seq::<char>::empty());
        assert(digits_value(text.drop_last()) == 0);
        assert(digit_char(n) as u32 == 48 + n);
        assert(digit_value(text.last()) == n);
    } else {
        lemma_decimal_reads_back(n / 10, max);
        assert(text.drop_last() =~= decimal(n / 10));
        assert(digit_char(n % 10) as u32 == 48 + n % 10);
        assert(digit_value(text.last()) == n % 10);
        assert(text[0] == decimal(n / 10)[0]);
        assert(digits_value(text) == (n / 10) * 10 + n % 10);
        assert forall|i: int| 0 <= i < text.len() implies is_digit(#[trigger] text[i]) by {
            if i < text.len() - 1 {
                assert(text[i] == decimal(n / 10)[i]);
            }
        }
    }
    assert(is_digit(text[0]));
}

/// The value of a run of digits does not shrink when digits are appended.
pub proof fn lemma_digits_value_grows(s: Seq<char>, k: int)
    requires
        0 <= k <= s.len(),
    ensures
        digits_value(s.take(k)) <= digits_value(s),
    decreases s.len() - k,
{
    if k == s.len() {
        assert(s.take(k) == s);
    } else {
        lemma_digits_value_grows(s.drop_last(), k);
        assert(s.drop_last().take(k) == s.take(k));
    }
}

/// Reads `s` as an unsigned decimal number no larger than `max`.
pub fn parse_bounded(s: &Vec<char>, max: u64) -> (out: Option<u64>)
    ensures
        out is Some <==> parse_unsigned(s@, max as nat) is Some,
        out matches Some(v) ==> parse_unsigned(s@, max as nat) == Some(v as nat),
{
    let n = s.len();
    let start: usize = if n > 0 && s[0] == '+' {
        1
    } else {
        0
    };
    let ghost digits = unsigned_part(s@);
    proof {
        assert(digits == s@.skip(start as int));
    }
    if start == n {
        return None;
    }
    let mut acc: u64 = 0;
    let mut i: usize = start;
    proof {
        assert(digits.take(0) =~= Seq::<char>::empty());
    }
    while i < n
        invariant
            start <= i <= n,
            n == s.len(),
            digits == s@.skip(start as int),
            digits == unsigned_part(s@),
            all_digits(digits.take(i - start)),
            acc == digits_value(digits.take(i - start)),
            acc <= max,
        decreases n - i,
    {
        let c = s[i] as u32;
        let ghost seen = digits.take(i - start);
        let ghost more = digits.take(i - start + 1);
        proof {
            assert(more.drop_last() == seen);
            assert(more.last() == s@[i as int]);
            assert(digits[i - start] == s@[i as int]);
        }
        if c < 48 || c > 57 {
            proof {
                assert(!is_digit(digits[i - start]));
            }
            return None;
        }
        let d = (c - 48) as u64;
        if d > max || acc > (max - d) / 10 {
            proof {
                assert(digits_value(more) > max);
                lemma_digits_value_grows(digits, i - start + 1);
            }
            return None;
        }
        acc = acc * 10 + d;
        proof {
            assert forall|k: int| 0 <= k < more.len() implies is_digit(#[trigger] more[k]) by {
                if k < seen.len() {
                    assert(more[k] == seen[k]);
                }
            }
        }
        i += 1;
    }
    proof {
        assert(digits.take(n - start) == digits);
    }
    Some(acc)
}

/// Reads `s` as a number that fits in 32 bits; 0 where it is none.
pub fn u32_or_zero(s: &Vec<char>) -> (out: u32)
    ensures
        out == number_or_zero(s@, u32::MAX as nat),
{
    match parse_bounded(s, u32::MAX as u64) {
        Some(v) => v as u32,
        None => 0,
    }
}

/// Reads `s` as a number that fits in 64 bits; 0 where it is none.
pub fn u64_or_zero(s: &Vec<char>) -> (out: u64)
    ensures
        out == number_or_zero(s@, u64::MAX as nat),
{
    match parse_bounded(s, u64::MAX) {
        Some(v) => v,
        None => 0,
    }
}

/// Appends `n`, written in base ten, to `out`.
pub fn push_decimal(out: &mut String, n: u64)
    ensures
        final(out)@ == old(out)@ + decimal(n as nat),
    decreases n,
{
    if n >= 10 {
        push_decimal(out, n / 10);
    }
    let d = (n % 10) as u8;
    out.push((48 + d) as char);
    proof {
        assert(out@ =~= old(out)@ + decimal(n as nat));
    }
}

/// Cuts `s` into its lines.
pub fn lines_of(s: &Vec<char>) -> (out: Vec<Vec<char>>)
    ensures
        out.deep_view() == lines(s@),
{
    let mut out: Vec<Vec<char>> = Vec::new();
    let mut current: Vec<char> = Vec::new();
    let mut i: usize = 0;
    proof {
        assert(out.deep_view() =~= Seq::new(0, |k: int| without_cr(split(s@.take(0), '\n')[k])));
    }
    while i < s.len()
        invariant
            i <= s.len(),
            split(s@.take(i as int), '\n').last() == current@,
            out.deep_view() == Seq::new(
                (split(s@.take(i as int), '\n').len() - 1) as nat,
                |k: int| without_cr(split(s@.take(i as int), '\n')[k]),
            ),
        decreases s.len() - i,
    {
        let c = s[i];
        let ghost parts = split(s@.take(i as int), '\n');
        let ghost next = split(s@.take(i + 1), '\n');
        proof {
            assert(s@.take(i + 1).drop_last() == s@.take(i as int));
            lemma_split_len(s@.take(i as int), '\n');
            lemma_split_len(s@.take(i + 1), '\n');
        }
        if c == '\n' {
            let m = current.len();
            if m > 0 && current[m - 1] == '\r' {
                current.pop();
            }
            let ghost closed = out.deep_view();
            proof {
                assert(current.deep_view() =~= without_cr(parts.last()));
            }
            out.push(current);
            current = Vec::new();
            proof {
                assert(out.deep_view() =~= closed.push(without_cr(parts.last())));
                assert(next == parts.push(Seq::<char>::empty()));
                assert(out.deep_view() =~= Seq::new(
                    (next.len() - 1) as nat,
                    |k: int| without_cr(next[k]),
                ));
            }
        } else {
            current.push(c);
            proof {
                assert(out.deep_view() =~= Seq::new(
                    (next.len() - 1) as nat,
                    |k: int| without_cr(next[k]),
                ));
            }
        }
        i += 1;
    }
    proof {
        assert(s@.take(s.len() as int) == s@);
        lemma_split_len(s@, '\n');
    }
    if current.len() > 0 {
        let ghost closed = out.deep_view();
        proof {
            assert(current.deep_view() =~= current@);
        }
        out.push(current);
        proof {
            assert(out.deep_view() =~= closed.push(current@));
        }
    }
    out
}

} // verus!
