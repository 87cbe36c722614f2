//! Text primitives behind the settings and the pipeline descriptions:
//! whitespace trimming, splitting at a separator, and decimal numbers.
use vstd::arithmetic::power::{lemma_pow0, pow};
use vstd::prelude::*;
use vstd::string::{StrSliceExecFns, StringExecFns};

verus! {

/// The texts held by a sequence of strings.
pub open spec fn texts(strings: Seq<String>) -> Seq<Seq<char>> {
    strings.map_values(|s: String| s@)
}

/// A sequence of strings has as many texts, each that of its string.
pub proof fn texts_are_those_of_the_strings(strings: Seq<String>)
    ensures
        texts(strings).len() == strings.len(),
        forall|i: int| 0 <= i < strings.len() ==> #[trigger] texts(strings)[i] == strings[i]@,
{
}

/// The Unicode `White_Space` property.
pub open spec fn is_space(c: char) -> bool {
    let n = c as u32;
    ||| 0x09 <= n <= 0x0d
    ||| n == 0x20 || n == 0x85 || n == 0xa0 || n == 0x1680
    ||| 0x2000 <= n <= 0x200a
    ||| n == 0x2028 || n == 0x2029 || n == 0x202f || n == 0x205f || n == 0x3000
}

/// `s` without its leading whitespace.
pub open spec fn trim_start(s: Seq<char>) -> Seq<char>
    decreases s.len(),
{
    if s.len() > 0 && is_space(s[0]) {
        trim_start(s.drop_first())
    } else {
        s
    }
}

/// `s` without its trailing whitespace.
pub open spec fn trim_end(s: Seq<char>) -> Seq<char>
    decreases s.len(),
{
    if s.len() > 0 && is_space(s.last()) {
        trim_end(s.drop_last())
    } else {
        s
    }
}

/// `s` without the whitespace at either end.
pub open spec fn trimmed(s: Seq<char>) -> Seq<char> {
    trim_end(trim_start(s))
}

/// The pieces of `s` between occurrences of `sep`: one more piece than there
/// are separators, empty pieces kept.
pub open spec fn split(s: Seq<char>, sep: char) -> Seq<Seq<char>>
    decreases s.len(),
{
    if s.len() == 0 {
        seq![s]
    } else {
        let before = split(s.drop_last(), sep);
        if s.last() == sep {
            before.push(Seq::<char>::empty())
        } else {
            before.drop_last().push(before.last().push(s.last()))
        }
    }
}

/// The pieces of `s` between occurrences of `sep`, each trimmed.
pub open spec fn trimmed_pieces(s: Seq<char>, sep: char) -> Seq<Seq<char>> {
    split(s, sep).map_values(|p: Seq<char>| trimmed(p))
}

/// The pieces put back together with `sep` between neighbours.
pub open spec fn joined(pieces: Seq<Seq<char>>, sep: char) -> Seq<char>
    decreases pieces.len(),
{
    if pieces.len() == 0 {
        Seq::empty()
    } else if pieces.len() == 1 {
        pieces[0]
    } else {
        joined(pieces.drop_last(), sep).push(sep) + pieces.last()
    }
}

/// The position of the first `c` in `s` at or after `from`, or the length of
/// `s` where there is none.
pub open spec fn first_at(s: Seq<char>, c: char, from: int) -> int
    decreases s.len() - from,
{
    if from >= s.len() {
        s.len() as int
    } else if s[from] == c {
        from
    } else {
        first_at(s, c, from + 1)
    }
}

/// An ASCII decimal digit.
pub open spec fn is_digit(c: char) -> bool {
    '0' as u32 <= c as u32 <= '9' as u32
}

/// Every character is an ASCII decimal digit.
pub open spec fn all_digits(s: Seq<char>) -> bool {
    forall|i: int| 0 <= i < s.len() ==> is_digit(#[trigger] s[i])
}

/// The number that a run of digits denotes in base ten.
pub open spec fn digits_value(s: Seq<char>) -> nat
    decreases s.len(),
{
    if s.len() == 0 {
        0
    } else {
        (digits_value(s.drop_last()) * 10 + (s.last() as u32 - '0' as u32)) as nat
    }
}

/// An unsigned number as the environment spells it: an optional `+`, then at
/// least one digit and nothing else, and no more than `max`.
pub open spec fn unsigned_value(s: Seq<char>, max: nat) -> Option<nat> {
    let digits = if s.len() > 0 && s[0] == '+' {
        s.drop_first()
    } else {
        s
    };
    if digits.len() > 0 && all_digits(digits) && digits_value(digits) <= max {
        Some(digits_value(digits))
    } else {
        None
    }
}

/// The digit for `d` below ten.
pub open spec fn digit(d: nat) -> char {
    ('0' as u32 + d) as char
}

/// `n` in base ten, without leading zeros.
pub open spec fn decimal(n: nat) -> Seq<char>
    decreases n,
{
    if n < 10 {
        seq![digit(n)]
    } else {
        decimal(n / 10).push(digit(n % 10))
    }
}

/// The characters of a text.
pub fn chars_of(s: &str) -> (chars: Vec<char>)
    ensures
        chars@ == s@,
{
    let mut chars: Vec<char> = Vec::new();
    for c in it: s.chars()
        invariant
            it.seq() == s@,
            chars@ == s@.take(it.index() as int),
    {
        chars.push(c);
    }
    assert(s@.take(s@.len() as int) == s@);
    chars
}

/// Whether `c` is whitespace.
pub fn is_whitespace(c: char) -> (space: bool)
    ensures
        space == is_space(c),
{
    let n: u32 = c as u32;
    (0x09 <= n && n <= 0x0d) || n == 0x20 || n == 0x85 || n == 0xa0 || n == 0x1680 || (0x2000 <= n
        && n <= 0x200a) || n == 0x2028 || n == 0x2029 || n == 0x202f || n == 0x205f || n == 0x3000
}

proof fn lemma_trim_start_skips(s: Seq<char>, n: int)
    requires
        0 <= n <= s.len(),
        forall|i: int| 0 <= i < n ==> is_space(#[trigger] s[i]),
    ensures
        trim_start(s) == trim_start(s.skip(n)),
    decreases n,
{
    if n == 0 {
        assert(s.skip(0) == s);
    } else {
        assert(is_space(s[0]));
        assert(s.drop_first().skip(n - 1) == s.skip(n));
        assert forall|i: int| 0 <= i < n - 1 implies is_space(#[trigger] s.drop_first()[i]) by {
            assert(is_space(s[i + 1]));
        }
        lemma_trim_start_skips(s.drop_first(), n - 1);
    }
}

proof fn lemma_trim_end_takes(s: Seq<char>, n: int)
    requires
        0 <= n <= s.len(),
        forall|i: int| n <= i < s.len() ==> is_space(#[trigger] s[i]),
    ensures
        trim_end(s) == trim_end(s.take(n)),
    decreases s.len() - n,
{
    if n == s.len() {
        assert(s.take(n) == s);
    } else {
        assert(is_space(s[s.len() - 1]));
        assert(s.drop_last().take(n) == s.take(n));
        lemma_trim_end_takes(s.drop_last(), n);
    }
}

/// `s` without the whitespace at either end.
pub fn trim(s: &str) -> (inner: &str)
    ensures
        inner@ == trimmed(s@),
{
    let chars = chars_of(s);
    let mut from: usize = 0;
    while from < chars.len() && is_whitespace(chars[from])
        invariant
            chars@ == s@,
            from <= chars.len(),
            forall|i: int| 0 <= i < from ==> is_space(#[trigger] s@[i]),
        decreases chars.len() - from,
    {
        from = from + 1;
    }
    let mut to: usize = chars.len();
    while to > from && is_whitespace(chars[to - 1])
        invariant
            chars@ == s@,
            from <= to <= chars.len(),
            forall|i: int| to <= i < s@.len() ==> is_space(#[trigger] s@[i]),
        decreases to,
    {
        to = to - 1;
    }
    proof {
        lemma_trim_start_skips(s@, from as int);
        let rest = s@.skip(from as int);
        assert(trim_start(rest) == rest);
        assert forall|i: int| to - from <= i < rest.len() implies is_space(#[trigger] rest[i]) by {
            assert(is_space(s@[i + from]));
        }
        lemma_trim_end_takes(rest, to - from);
        assert(rest.take(to - from) == s@.subrange(from as int, to as int));
    }
    s.substring_char(from, to)
}

/// The pieces of `s` between occurrences of `sep`, each trimmed.
pub fn split_trimmed(s: &str, sep: char) -> (pieces: Vec<String>)
    ensures
        texts(pieces@) == split(s@, sep).map_values(|p: Seq<char>| trimmed(p)),
{
    let chars = chars_of(s);
    let mut pieces: Vec<String> = Vec::new();
    let mut start: usize = 0;
    let mut i: usize = 0;
    let ghost clean = |p: Seq<char>| trimmed(p);
    assert(s@.take(0) == s@.subrange(0, 0));
    while i < chars.len()
        invariant
            chars@ == s@,
            clean == (|p: Seq<char>| trimmed(p)),
            start <= i <= chars.len(),
            split(s@.take(i as int), sep).last() == s@.subrange(start as int, i as int),
            split(s@.take(i as int), sep).len() == pieces@.len() + 1,
            texts(pieces@) == split(s@.take(i as int), sep).drop_last().map_values(clean),
        decreases chars.len() - i,
    {
        let ghost before = split(s@.take(i as int), sep);
        let ghost earlier = pieces@;
        assert(s@.take(i + 1).drop_last() == s@.take(i as int));
        if chars[i] == sep {
            let piece = trim(s.substring_char(start, i)).to_owned();
            pieces.push(piece);
            start = i + 1;
            assert(split(s@.take(i + 1), sep).drop_last() == before);
            assert(before == before.drop_last().push(before.last()));
            assert(texts(pieces@) == texts(earlier).push(piece@));
            assert(before.map_values(clean) == before.drop_last().map_values(clean).push(
                clean(before.last()),
            ));
        } else {
            assert(split(s@.take(i + 1), sep).drop_last() == before.drop_last());
            assert(s@.subrange(start as int, i as int).push(s@[i as int]) == s@.subrange(
                start as int,
                i + 1,
            ));
        }
        i = i + 1;
    }
    let last = trim(s.substring_char(start, i)).to_owned();
    let ghost earlier = pieces@;
    pieces.push(last);
    proof {
        assert(s@.take(i as int) == s@);
        let all = split(s@, sep);
        assert(all == all.drop_last().push(all.last()));
        assert(texts(pieces@) == texts(earlier).push(last@));
        assert(all.map_values(clean) == all.drop_last().map_values(clean).push(clean(all.last())));
    }
    pieces
}

/// Whether two texts hold the same characters.
pub fn same_text(a: &str, b: &str) -> (same: bool)
    ensures
        same == (a@ == b@),
{
    let left = chars_of(a);
    let right = chars_of(b);
    if left.len() != right.len() {
        return false;
    }
    let mut i: usize = 0;
    while i < left.len()
        invariant
            left@ == a@,
            right@ == b@,
            left.len() == right.len(),
            i <= left.len(),
            forall|k: int| 0 <= k < i ==> a@[k] == b@[k],
        decreases left.len() - i,
    {
        if left[i] != right[i] {
            assert(a@[i as int] != b@[i as int]);
            return false;
        }
        i = i + 1;
    }
    assert(a@ =~= b@);
    true
}

/// The position of the first `c` at or after `from`.
pub fn find_from(chars: &Vec<char>, c: char, from: usize) -> (at: usize)
    requires
        from <= chars.len(),
    ensures
        at == first_at(chars@, c, from as int),
        from <= at <= chars.len(),
        forall|i: int| from <= i < at ==> #[trigger] chars@[i] != c,
        at < chars.len() ==> chars@[at as int] == c,
{
    let mut at: usize = from;
    while at < chars.len() && chars[at] != c
        invariant
            from <= at <= chars.len(),
            forall|i: int| from <= i < at ==> #[trigger] chars@[i] != c,
            first_at(chars@, c, from as int) == first_at(chars@, c, at as int),
        decreases chars.len() - at,
    {
        at = at + 1;
    }
    at
}

proof fn lemma_digits_value_grows(s: Seq<char>, n: int)
    requires
        0 <= n <= s.len(),
        all_digits(s),
    ensures
        digits_value(s.take(n)) <= digits_value(s),
    decreases s.len() - n,
{
    if n == s.len() {
        assert(s.take(n) == s);
    } else {
        let shorter = s.drop_last();
        assert(shorter.take(n) == s.take(n));
        assert forall|i: int| 0 <= i < shorter.len() implies is_digit(#[trigger] shorter[i]) by {
            assert(is_digit(s[i]));
        }
        lemma_digits_value_grows(shorter, n);
        assert(is_digit(s[s.len() - 1]));
    }
}

/// Reads an unsigned number of at most `max`.
pub fn parse_unsigned(s: &str, max: u64) -> (value: Option<u64>)
    ensures
        value matches Some(v) ==> unsigned_value(s@, max as nat) == Some(v as nat),
        value is None ==> unsigned_value(s@, max as nat) is None,
{
    let chars = chars_of(s);
    let start: usize = if chars.len() > 0 && chars[0] == '+' {
        1
    } else {
        0
    };
    let ghost digits = if s@.len() > 0 && s@[0] == '+' {
        s@.drop_first()
    } else {
        s@
    };
    assert(digits == s@.skip(start as int));
    if start == chars.len() {
        return None;
    }
    let mut value: u64 = 0;
    let mut i: usize = start;
    while i < chars.len()
        invariant
            chars@ == s@,
            start <= i <= chars.len(),
            digits == s@.skip(start as int),
            digits == (if s@.len() > 0 && s@[0] == '+' {
                s@.drop_first()
            } else {
                s@
            }),
            all_digits(digits.take(i - start)),
            value == digits_value(digits.take(i - start)),
            value <= max,
        decreases chars.len() - i,
    {
        let c = chars[i];
        assert(digits[i - start] == c);
        let code: u32 = c as u32;
        if code < '0' as u32 || code > '9' as u32 {
            assert(!is_digit(digits[i - start]));
            return None;
        }
        let d: u64 = (code - '0' as u32) as u64;
        let ghost next = digits.take(i + 1 - start);
        proof {
            assert(next.drop_last() == digits.take(i - start));
            assert(digits_value(next) == value * 10 + d);
            assert forall|k: int| 0 <= k < next.len() implies is_digit(#[trigger] next[k]) by {
                if k < i - start {
                    assert(is_digit(digits.take(i - start)[k]));
                }
            }
        }
        if value > (u64::MAX - d) / 10 || value * 10 + d > max {
            proof {
                if all_digits(digits) {
                    lemma_digits_value_grows(digits, i + 1 - start);
                }
            }
            return None;
        }
        value = value * 10 + d;
        i = i + 1;
    }
    assert(digits.take(i - start) == digits);
    Some(value)
}

/// The digit for `d` below ten.
fn digit_text(d: u64) -> (text: &'static str)
    requires
        d < 10,
    ensures
        text@ == seq![digit(d as nat)],
{
    proof {
        reveal_strlit("0");
        reveal_strlit("1");
        reveal_strlit("2");
        reveal_strlit("3");
        reveal_strlit("4");
        reveal_strlit("5");
        reveal_strlit("6");
        reveal_strlit("7");
        reveal_strlit("8");
        reveal_strlit("9");
    }
    if d == 0 {
        "0"
    } else if d == 1 {
        "1"
    } else if d == 2 {
        "2"
    } else if d == 3 {
        "3"
    } else if d == 4 {
        "4"
    } else if d == 5 {
        "5"
    } else if d == 6 {
        "6"
    } else if d == 7 {
        "7"
    } else if d == 8 {
        "8"
    } else {
        "9"
    }
}

/// Appends `n` in base ten.
pub fn append_decimal(out: &mut String, n: u64)
    ensures
        final(out)@ == old(out)@ + decimal(n as nat),
    decreases n,
{
    if n >= 10 {
        append_decimal(out, n / 10);
    }
    out.append(digit_text(n % 10));
}

/// A split yields at least one piece, and no piece holds the separator.
pub proof fn split_pieces_lack_separator(s: Seq<char>, sep: char)
    ensures
        split(s, sep).len() >= 1,
        forall|k: int|
            0 <= k < split(s, sep).len() ==> !(#[trigger] split(s, sep)[k]).contains(sep),
    decreases s.len(),
{
    if s.len() > 0 {
        split_pieces_lack_separator(s.drop_last(), sep);
        let before = split(s.drop_last(), sep);
        let after = split(s, sep);
        assert forall|k: int| 0 <= k < after.len() implies !(#[trigger] after[k]).contains(sep) by {
            if s.last() != sep && k == after.len() - 1 {
                assert(!before[k].contains(sep));
                let grown = before.last().push(s.last());
                if grown.contains(sep) {
                    let at = choose|at: int| 0 <= at < grown.len() && grown[at] == sep;
                    assert(before[k][at] == sep);
                }
            } else if k < before.len() {
                assert(!before[k].contains(sep));
            }
        }
    }
}

proof fn lemma_joined_grows(pieces: Seq<Seq<char>>, sep: char, c: char)
    requires
        pieces.len() >= 1,
    ensures
        joined(pieces.drop_last().push(pieces.last().push(c)), sep) == joined(pieces, sep).push(c),
{
    let grown = pieces.drop_last().push(pieces.last().push(c));
    assert(grown.drop_last() == pieces.drop_last());
    if pieces.len() > 1 {
        assert(joined(pieces.drop_last(), sep).push(sep) + pieces.last().push(c) == (joined(
            pieces.drop_last(),
            sep,
        ).push(sep) + pieces.last()).push(c));
    }
}

/// Joining the pieces of a split gives back the text that was split.
pub proof fn split_rejoins(s: Seq<char>, sep: char)
    ensures
        joined(split(s, sep), sep) == s,
    decreases s.len(),
{
    if s.len() > 0 {
        split_rejoins(s.drop_last(), sep);
        split_pieces_lack_separator(s.drop_last(), sep);
        let before = split(s.drop_last(), sep);
        if s.last() == sep {
            assert(before.push(Seq::<char>::empty()).drop_last() == before);
            assert(s.drop_last().push(sep) + Seq::<char>::empty() == s);
        } else {
            lemma_joined_grows(before, sep, s.last());
            assert(s.drop_last().push(s.last()) == s);
        }
    }
}

proof fn lemma_trim_start_stops(s: Seq<char>)
    ensures
        trim_start(s).len() > 0 ==> !is_space(trim_start(s)[0]),
    decreases s.len(),
{
    if s.len() > 0 && is_space(s[0]) {
        lemma_trim_start_stops(s.drop_first());
    }
}

proof fn lemma_trim_end_stops(s: Seq<char>)
    ensures
        trim_end(s).len() > 0 ==> !is_space(trim_end(s).last()),
        trim_end(s).len() > 0 ==> trim_end(s)[0] == s[0],
        trim_end(s).len() <= s.len(),
    decreases s.len(),
{
    if s.len() > 0 && is_space(s.last()) {
        lemma_trim_end_stops(s.drop_last());
    }
}

/// A trimmed text neither begins nor ends with whitespace.
pub proof fn trimmed_has_bare_ends(s: Seq<char>)
    ensures
        trimmed(s).len() > 0 ==> !is_space(trimmed(s)[0]) && !is_space(trimmed(s).last()),
{
    lemma_trim_start_stops(s);
    lemma_trim_end_stops(trim_start(s));
}

proof fn lemma_decimal_digits(n: nat)
    ensures
        decimal(n).len() > 0,
        all_digits(decimal(n)),
        digits_value(decimal(n)) == n,
    decreases n,
{
    if n < 10 {
        assert(decimal(n).drop_last() == Seq::<char>::empty());
        assert(digits_value(Seq::<char>::empty()) == 0);
    } else {
        lemma_decimal_digits(n / 10);
        let head = decimal(n / 10);
        assert(decimal(n).drop_last() == head);
        assert forall|i: int| 0 <= i < decimal(n).len() implies is_digit(
            #[trigger] decimal(n)[i],
        ) by {
            if i < head.len() {
                assert(is_digit(head[i]));
            }
        }
    }
}

/// A number written in base ten reads back as itself.
pub proof fn decimal_reads_back(n: nat, max: nat)
    requires
        n <= max,
    ensures
        unsigned_value(decimal(n), max) == Some(n),
{
    lemma_decimal_digits(n);
    assert(is_digit(decimal(n)[0]));
}

/// A decimal number has no leading zero unless it is zero.
pub proof fn decimal_has_no_leading_zero(n: nat)
    ensures
        n > 0 ==> decimal(n)[0] != '0',
        n == 0 ==> decimal(n) == seq!['0'],
    decreases n,
{
    lemma_decimal_digits(n);
    if n >= 10 {
        decimal_has_no_leading_zero(n / 10);
        lemma_decimal_digits(n / 10);
    }
}

/// Different numbers have different texts.
pub proof fn decimal_tells_numbers_apart(m: nat, n: nat)
    requires
        decimal(m) == decimal(n),
    ensures
        m == n,
{
    lemma_decimal_digits(m);
    lemma_decimal_digits(n);
}

/// Digits count by their places: the digits in front are worth ten times as
/// much for each digit behind them.
pub proof fn digits_count_by_place(front: Seq<char>, back: Seq<char>)
    requires
        forall|i: int|
            0 <= i < front.len() + back.len() ==> 48 <= (#[trigger] (front + back)[i]) as u32 <= 57,
    ensures
        digits_value(front + back) == digits_value(front) * pow(10, back.len()) + digits_value(
            back,
        ),
    decreases back.len(),
{
    if back.len() == 0 {
        assert(front + back =~= front);
        lemma_pow0(10);
    } else {
        let shorter = back.drop_last();
        assert((front + back).drop_last() =~= front + shorter);
        assert forall|i: int| 0 <= i < front.len() + shorter.len() implies 48 <= (
        #[trigger] (front + shorter)[i]) as u32 <= 57 by {
            assert((front + shorter)[i] == (front + back)[i]);
        }
        digits_count_by_place(front, shorter);
        let last = (front + back).len() - 1;
        assert(48 <= (front + back)[last] as u32 <= 57);
        reveal(pow);
        let v = digits_value(front) as int;
        let p = pow(10, shorter.len()) as int;
        let w = digits_value(shorter) as int;
        assert((v * p + w) * 10 == v * (10 * p) + w * 10) by (nonlinear_arith);
        assert(pow(10, back.len()) == 10 * p);
    }
}

/// One digit stands for its own value: `0` to `9` for zero to nine.
pub proof fn one_digit_is_its_value(c: char)
    ensures
        is_digit(c) <==> 48 <= c as u32 <= 57,
        is_digit(c) ==> digits_value(seq![c]) == c as u32 - 48,
{
    assert(seq![c].drop_last() =~= Seq::<char>::empty());
    assert(digits_value(Seq::<char>::empty()) == 0);
}

/// A text is an unsigned number exactly where it is one or more ASCII digits,
/// perhaps behind a plus sign, and their value is within the limit; the number
/// is that value.
pub proof fn unsigned_numbers_are_digits(s: Seq<char>, max: nat, n: nat)
    ensures
        unsigned_value(s, max) == Some(n) <==> n <= max && exists|d: Seq<char>|
            #![trigger digits_value(d)]
            {
                &&& s == d || s == seq!['+'] + d
                &&& d.len() > 0
                &&& forall|i: int| 0 <= i < d.len() ==> 48 <= (#[trigger] d[i]) as u32 <= 57
                &&& digits_value(d) == n
            },
{
    let digits = if s.len() > 0 && s[0] == '+' {
        s.drop_first()
    } else {
        s
    };
    if unsigned_value(s, max) == Some(n) {
        assert(digits_value(digits) == n);
        assert(s == digits || s =~= seq!['+'] + digits);
        assert forall|i: int| 0 <= i < digits.len() implies 48 <= (
        #[trigger] digits[i]) as u32 <= 57 by {
            assert(is_digit(digits[i]));
        }
    }
    assert forall|d: Seq<char>|
        #![trigger digits_value(d)]
        (s == d || s == seq!['+'] + d) && d.len() > 0 && (forall|i: int|
            0 <= i < d.len() ==> 48 <= (#[trigger] d[i]) as u32 <= 57) && digits_value(d) == n && n
            <= max implies unsigned_value(s, max) == Some(n) by {
        assert(48 <= d[0] as u32 <= 57);
        if s != d {
            assert(s.drop_first() =~= d);
        }
        assert(all_digits(d));
    }
}

/// A number that is read is within the limit, and a wider limit does not change
/// it.
pub proof fn unsigned_values_are_within(s: Seq<char>, max: nat)
    ensures
        unsigned_value(s, max) matches Some(n) ==> n <= max && forall|wider: nat|
            n <= wider ==> #[trigger] unsigned_value(s, wider) == Some(n),
{
}

/// Whitespace is what Unicode lists as such: tab to carriage return, space,
/// next line, the no-break, Ogham, en and em spaces, the line and paragraph
/// separators, and the narrow, mathematical and ideographic spaces.
pub proof fn white_space_is_what_unicode_lists(c: char)
    ensures
        is_space(c) <==> set![
            0x09u32, 0x0a, 0x0b, 0x0c, 0x0d, 0x20, 0x85, 0xa0, 0x1680, 0x2000, 0x2001, 0x2002,
            0x2003, 0x2004, 0x2005, 0x2006, 0x2007, 0x2008, 0x2009, 0x200a, 0x2028, 0x2029, 0x202f,
            0x205f, 0x3000,
        ].contains(c as u32),
{
}

proof fn lemma_trim_start_keeps(s: Seq<char>) -> (n: int)
    ensures
        0 <= n <= s.len(),
        trim_start(s) == s.skip(n),
        forall|i: int| 0 <= i < n ==> is_space(#[trigger] s[i]),
    decreases s.len(),
{
    if s.len() > 0 && is_space(s[0]) {
        let m = lemma_trim_start_keeps(s.drop_first());
        assert(s.drop_first().skip(m) =~= s.skip(m + 1));
        assert forall|i: int| 0 <= i < m + 1 implies is_space(#[trigger] s[i]) by {
            if i > 0 {
                assert(s.drop_first()[i - 1] == s[i]);
            }
        }
        m + 1
    } else {
        assert(s.skip(0) =~= s);
        0
    }
}

proof fn lemma_trim_end_keeps(s: Seq<char>) -> (n: int)
    ensures
        0 <= n <= s.len(),
        trim_end(s) == s.take(n),
        forall|i: int| n <= i < s.len() ==> is_space(#[trigger] s[i]),
    decreases s.len(),
{
    if s.len() > 0 && is_space(s.last()) {
        let m = lemma_trim_end_keeps(s.drop_last());
        assert(s.drop_last().take(m) =~= s.take(m));
        assert forall|i: int| m <= i < s.len() implies is_space(#[trigger] s[i]) by {
            if i < s.len() - 1 {
                assert(s.drop_last()[i] == s[i]);
            }
        }
        m
    } else {
        assert(s.take(s.len() as int) =~= s);
        s.len() as int
    }
}

/// Trimming takes off whitespace at both ends and nothing else: what is left is
/// a stretch of the text, everything before and behind it is whitespace, and
/// the stretch neither begins nor ends with whitespace.
pub proof fn trimming_takes_off_outer_whitespace(s: Seq<char>) -> (ends: (int, int))
    ensures
        0 <= ends.0 <= ends.1 <= s.len(),
        trimmed(s) == s.subrange(ends.0, ends.1),
        forall|i: int| 0 <= i < ends.0 ==> is_space(#[trigger] s[i]),
        forall|i: int| ends.1 <= i < s.len() ==> is_space(#[trigger] s[i]),
        ends.0 < ends.1 ==> !is_space(s[ends.0]) && !is_space(s[ends.1 - 1]),
{
    let from = lemma_trim_start_keeps(s);
    let rest = s.skip(from);
    let kept = lemma_trim_end_keeps(rest);
    assert(rest.take(kept) =~= s.subrange(from, from + kept));
    assert forall|i: int| from + kept <= i < s.len() implies is_space(#[trigger] s[i]) by {
        assert(rest[i - from] == s[i]);
    }
    trimmed_has_bare_ends(s);
    (from, from + kept)
}

/// Where a separator stands, the text is split: the pieces are those before it
/// and then those behind it.
pub proof fn split_at_every_separator(before: Seq<char>, behind: Seq<char>, sep: char)
    ensures
        split(before.push(sep) + behind, sep) == split(before, sep) + split(behind, sep),
    decreases behind.len(),
{
    let whole = before.push(sep) + behind;
    if behind.len() == 0 {
        assert(whole.drop_last() =~= before);
        assert(behind =~= Seq::<char>::empty());
        assert(split(whole, sep) =~= split(before, sep) + split(behind, sep));
    } else {
        let shorter = behind.drop_last();
        assert(whole.drop_last() =~= before.push(sep) + shorter);
        split_at_every_separator(before, shorter, sep);
        split_pieces_lack_separator(shorter, sep);
        assert(split(whole, sep) =~= split(before, sep) + split(behind, sep));
    }
}

/// Nowhere else is a text split: without a separator it is one piece.
pub proof fn split_nowhere_else(s: Seq<char>, sep: char)
    requires
        !s.contains(sep),
    ensures
        split(s, sep) == seq![s],
    decreases s.len(),
{
    if s.len() > 0 {
        let shorter = s.drop_last();
        if shorter.contains(sep) {
            let i = choose|i: int| 0 <= i < shorter.len() && shorter[i] == sep;
            assert(s[i] == sep);
        }
        split_nowhere_else(shorter, sep);
        assert(s[s.len() - 1] != sep);
        assert(shorter.push(s.last()) =~= s);
        assert(split(s, sep) =~= seq![s]);
    }
}

/// A text that starts with a word and a separator splits into that word and the
/// pieces of the rest.
pub(crate) proof fn lemma_split_word(word: Seq<char>, rest: Seq<char>, sep: char)
    requires
        !word.contains(sep),
    ensures
        split(word.push(sep) + rest, sep) == seq![word] + split(rest, sep),
{
    split_at_every_separator(word, rest, sep);
    split_nowhere_else(word, sep);
}

/// Every character of a decimal number is a digit.
pub(crate) proof fn lemma_decimal_lacks(n: nat, c: char)
    requires
        !is_digit(c),
    ensures
        !decimal(n).contains(c),
{
    lemma_decimal_digits(n);
    if decimal(n).contains(c) {
        let i = choose|i: int| 0 <= i < decimal(n).len() && decimal(n)[i] == c;
        assert(is_digit(decimal(n)[i]));
    }
}

/// Where two texts are put together, the last piece of the first and the first
/// piece of the second become one; all others stay as they are.
pub proof fn split_of_two_texts(a: Seq<char>, b: Seq<char>, sep: char)
    ensures
        split(a, sep).len() >= 1,
        split(b, sep).len() >= 1,
        split(a + b, sep) == split(a, sep).drop_last().push(split(a, sep).last() + split(b, sep)[0])
            + split(b, sep).drop_first(),
    decreases b.len(),
{
    let left = split(a, sep);
    split_pieces_lack_separator(a, sep);
    split_pieces_lack_separator(b, sep);
    if b.len() == 0 {
        assert(a + b =~= a);
        assert(left.last() + split(b, sep)[0] =~= left.last());
        assert(left =~= left.drop_last().push(left.last()));
        assert(split(b, sep).drop_first().len() == 0);
        assert(split(a + b, sep) =~= left.drop_last().push(left.last() + split(b, sep)[0]) + split(
            b,
            sep,
        ).drop_first());
    } else {
        let shorter = b.drop_last();
        assert((a + b).drop_last() =~= a + shorter);
        split_of_two_texts(a, shorter, sep);
        split_pieces_lack_separator(shorter, sep);
        let right = split(shorter, sep);
        assert((left.last() + right[0]).push(b.last()) =~= left.last() + right[0].push(b.last()));
        assert(split(a + b, sep) =~= left.drop_last().push(left.last() + split(b, sep)[0]) + split(
            b,
            sep,
        ).drop_first());
    }
}

/// The pieces of a text, each trimmed, are those before a separator and then
/// those behind it; a text without a separator is one trimmed piece.
pub proof fn trimmed_pieces_follow_the_separators(before: Seq<char>, behind: Seq<char>, sep: char)
    ensures
        trimmed_pieces(before.push(sep) + behind, sep) == trimmed_pieces(before, sep)
            + trimmed_pieces(behind, sep),
        !before.contains(sep) ==> trimmed_pieces(before, sep) == seq![trimmed(before)],
{
    split_at_every_separator(before, behind, sep);
    assert(trimmed_pieces(before.push(sep) + behind, sep) =~= trimmed_pieces(before, sep)
        + trimmed_pieces(behind, sep));
    if !before.contains(sep) {
        split_nowhere_else(before, sep);
        assert(trimmed_pieces(before, sep) =~= seq![trimmed(before)]);
    }
}

/// A text that neither begins nor ends with whitespace stays as it is.
pub proof fn trimming_leaves_bare_texts(s: Seq<char>)
    requires
        s.len() > 0,
        !is_space(s[0]),
        !is_space(s.last()),
    ensures
        trimmed(s) == s,
{
}

} // verus!
