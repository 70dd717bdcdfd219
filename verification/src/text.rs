//! Text building blocks: numerals, number parsing, and searches over characters.
//!
//! Text is modelled as `Seq<char>` throughout; the executable functions work on `&str`,
//! `String` and slices of `char`.

use vstd::prelude::*;

verus! {

/// The character that stands for digit `d` in any base up to sixteen.
pub open spec fn digit_char(d: nat) -> char
{
    if d < 10 {
        (('0' as nat) + d) as char
    } else {
        (('a' as nat) + (d - 10)) as char
    }
}

/// `n` written in base `radix`, without leading zeros.
pub open spec fn numeral(n: nat, radix: nat) -> Seq<char>
    decreases n,
{
    if radix < 2 || n < radix {
        seq![digit_char(n)]
    } else {
        proof {
            assert(n / radix < n) by (nonlinear_arith)
                requires
                    2 <= radix <= n,
            ;
        }
        numeral(n / radix, radix).push(digit_char(n % radix))
    }
}

/// `n` in decimal.
pub open spec fn decimal(n: nat) -> Seq<char> {
    numeral(n, 10)
}

/// `body` preceded by as many copies of `pad` as it takes to reach `width`.
pub open spec fn padded(body: Seq<char>, pad: char, width: nat) -> Seq<char> {
    if body.len() >= width {
        body
    } else {
        Seq::new((width - body.len()) as nat, |i: int| pad) + body
    }
}

/// `n` in lower-case hexadecimal, zero-padded to `width`.
pub open spec fn hex_padded(n: nat, width: nat) -> Seq<char> {
    padded(numeral(n, 16), '0', width)
}

/// The one-character text of digit `d`.
fn digit_text(d: u8) -> (r: &'static str)
    requires
        d < 16,
    ensures
        r@ == seq![digit_char(d as nat)],
{
    proof {
        reveal_strlit("0");
        reveal_strlit("1");
        reveal_strlit("2");
        reveal_strlit("3");
        reveal_strlit("4");
        reveal_strlit("5");
        reveal_strlit("6");
        reveal_strlit("7");
        reveal_strlit("8");
        reveal_strlit("9");
        reveal_strlit("a");
        reveal_strlit("b");
        reveal_strlit("c");
        reveal_strlit("d");
        reveal_strlit("e");
        reveal_strlit("f");
    }
    match d {
        0 => "0",
        1 => "1",
        2 => "2",
        3 => "3",
        4 => "4",
        5 => "5",
        6 => "6",
        7 => "7",
        8 => "8",
        9 => "9",
        10 => "a",
        11 => "b",
        12 => "c",
        13 => "d",
        14 => "e",
        _ => "f",
    }
}

/// Write `n` in base `radix`.
pub fn write_numeral(n: u128, radix: u128) -> (r: String)
    requires
        2 <= radix <= 16,
    ensures
        r@ == numeral(n as nat, radix as nat),
    decreases n,
{
    if n < radix {
        digit_text(n as u8).to_owned()
    } else {
        assert(n / radix < n) by (nonlinear_arith)
            requires
                2 <= radix <= n,
        ;
        assert(n % radix < radix) by (nonlinear_arith)
            requires
                2 <= radix,
        ;
        let mut r = write_numeral(n / radix, radix);
        r.append(digit_text((n % radix) as u8));
        r
    }
}

/// Write `n` in decimal.
pub fn write_decimal(n: u64) -> (r: String)
    ensures
        r@ == decimal(n as nat),
{
    write_numeral(n as u128, 10)
}

/// Write a length or a count in decimal.
pub fn write_count(n: usize) -> (r: String)
    ensures
        r@ == decimal(n as nat),
{
    write_numeral(n as u128, 10)
}

/// `body` preceded by copies of the one-character text `pad` up to `width` characters.
pub fn pad_left(body: &str, pad: &str, width: usize) -> (r: String)
    requires
        pad@.len() == 1,
    ensures
        r@ == padded(body@, pad@[0], width as nat),
{
    let len: usize = body.unicode_len();
    let mut r = String::new();
    if len < width {
        let missing: usize = width - len;
        let mut done: usize = 0;
        while done < missing
            invariant
                done <= missing,
                pad@.len() == 1,
                r@ == Seq::new(done as nat, |i: int| pad@[0]),
            decreases missing - done,
        {
            r.append(pad);
            assert(r@ =~= Seq::new((done + 1) as nat, |i: int| pad@[0]));
            done = done + 1;
        }
    }
    r.append(body);
    assert(r@ =~= padded(body@, pad@[0], width as nat));
    r
}

/// Write `n` in hexadecimal, zero-padded to `width`.
pub fn write_hex_padded(n: u64, width: usize) -> (r: String)
    ensures
        r@ == hex_padded(n as nat, width as nat),
{
    proof {
        reveal_strlit("0");
    }
    let body = write_numeral(n as u128, 16);
    pad_left(body.as_str(), "0", width)
}

/// `true` or `false`.
pub open spec fn flag_text(b: bool) -> Seq<char> {
    if b {
        "true"@
    } else {
        "false"@
    }
}

/// The text of a flag.
pub fn write_flag(b: bool) -> (r: &'static str)
    ensures
        r@ == flag_text(b),
{
    if b {
        "true"
    } else {
        "false"
    }
}

/// The characters of `s`, in order.
pub fn chars_of(s: &str) -> (r: Vec<char>)
    ensures
        r@ == s@,
{
    let mut r: Vec<char> = Vec::new();
    for c in it: s.chars()
        invariant
            r@.len() == it.index(),
            forall|i: int| 0 <= i < r@.len() ==> r@[i] == it.seq()[i],
    {
        r.push(c);
    }
    assert(r@ =~= s@);
    r
}

/// Whether two texts are the same.
pub fn same(a: &str, b: &str) -> (r: bool)
    ensures
        r == (a@ == b@),
{
    a.to_owned() == b.to_owned()
}

/// The value of `c` as a digit in any base up to sixteen; letters count in either case.
pub open spec fn digit_value(c: char) -> Option<nat> {
    if '0' <= c <= '9' {
        Some((c as nat - '0' as nat) as nat)
    } else if 'a' <= c <= 'f' {
        Some((c as nat - 'a' as nat + 10) as nat)
    } else if 'A' <= c <= 'F' {
        Some((c as nat - 'A' as nat + 10) as nat)
    } else {
        None
    }
}

/// Whether `c` is a digit in base `radix`.
pub open spec fn is_digit(c: char, radix: nat) -> bool {
    digit_value(c) is Some && digit_value(c)->0 < radix
}

/// The number that a run of digits denotes.
pub open spec fn digits_value(s: Seq<char>, radix: nat) -> nat
    decreases s.len(),
{
    if s.len() == 0 {
        0
    } else {
        digits_value(s.drop_last(), radix) * radix + digit_value(s.last()).unwrap_or(0)
    }
}

/// A numeral without its optional leading plus sign.
pub open spec fn unsigned_digits(s: Seq<char>) -> Seq<char> {
    if s.len() > 0 && s[0] == '+' {
        s.skip(1)
    } else {
        s
    }
}

/// The number that `s` denotes in base `radix`: an optional plus sign, then one digit or more.
pub open spec fn unsigned_value(s: Seq<char>, radix: nat) -> Option<nat> {
    let digits = unsigned_digits(s);
    if digits.len() > 0 && (forall|i: int| 0 <= i < digits.len() ==> #[trigger] is_digit(digits[i], radix)) {
        Some(digits_value(digits, radix))
    } else {
        None
    }
}

/// Digits appended to a numeral never make it smaller.
proof fn lemma_digits_value_grows(s: Seq<char>, k: int, radix: nat)
    requires
        0 <= k <= s.len(),
        radix >= 1,
    ensures
        digits_value(s.take(k), radix) <= digits_value(s, radix),
    decreases s.len() - k,
{
    if k == s.len() {
        assert(s.take(k) =~= s);
    } else {
        lemma_digits_value_grows(s, k + 1, radix);
        assert(s.take(k + 1).drop_last() =~= s.take(k));
        let low = digits_value(s.take(k), radix);
        assert(low <= low * radix) by (nonlinear_arith)
            requires
                radix >= 1,
        ;
    }
}

/// The value of `c` as a digit, if it is one.
fn read_digit(c: char) -> (r: Option<u8>)
    ensures
        match digit_value(c) {
            Some(v) => r == Some(v as u8) && v < 16,
            None => r is None,
        },
{
    if '0' <= c && c <= '9' {
        Some((c as u32 - 48) as u8)
    } else if 'a' <= c && c <= 'f' {
        Some((c as u32 - 97 + 10) as u8)
    } else if 'A' <= c && c <= 'F' {
        Some((c as u32 - 65 + 10) as u8)
    } else {
        None
    }
}

/// Read an unsigned number no larger than `max`: an optional plus sign, then digits.
pub fn parse_unsigned(s: &[char], radix: u64, max: u64) -> (r: Option<u64>)
    requires
        2 <= radix <= 16,
    ensures
        match unsigned_value(s@, radix as nat) {
            Some(v) => r == (if v <= max { Some(v as u64) } else { None }),
            None => r is None,
        },
{
    let start: usize = if s.len() > 0 && s[0] == '+' { 1 } else { 0 };
    let ghost digits = unsigned_digits(s@);
    assert(digits =~= s@.skip(start as int));
    if start == s.len() {
        return None;
    }
    let mut value: u64 = 0;
    let mut i: usize = start;
    let mut fits: bool = true;
    while i < s.len()
        invariant
            start <= i <= s.len(),
            start < s.len(),
            2 <= radix <= 16,
            digits == unsigned_digits(s@),
            digits =~= s@.skip(start as int),
            forall|j: int| 0 <= j < i - start ==> #[trigger] is_digit(digits[j], radix as nat),
            fits ==> value == digits_value(digits.take(i - start), radix as nat) && value <= max,
            !fits ==> digits_value(digits, radix as nat) > max,
        decreases s.len() - i,
    {
        let ghost at = i - start;
        assert(digits[at] == s@[i as int]);
        let d: u64 = match read_digit(s[i]) {
            Some(d) => d as u64,
            None => {
                assert(!is_digit(digits[at], radix as nat));
                return None;
            },
        };
        if d >= radix {
            assert(!is_digit(digits[at], radix as nat));
            return None;
        }
        proof {
            assert(digits.take(at + 1).drop_last() =~= digits.take(at));
            lemma_digits_value_grows(digits, at + 1, radix as nat);
            assert(digits_value(digits.take(at + 1), radix as nat) == digits_value(
                digits.take(at),
                radix as nat,
            ) * radix + d);
        }
        if fits {
            match value.checked_mul(radix) {
                Some(scaled) => {
                    if scaled > max || d > max - scaled {
                        fits = false;
                    } else {
                        value = scaled + d;
                    }
                },
                None => {
                    fits = false;
                },
            }
        }
        i = i + 1;
    }
    assert(digits.take(i - start) =~= digits);
    if fits {
        Some(value)
    } else {
        None
    }
}

/// What is written in a base is read back in that base as the number it was.
pub proof fn law_numeral_reads_back(n: nat, radix: nat)
    requires
        2 <= radix <= 16,
    ensures
        unsigned_value(numeral(n, radix), radix) == Some(n),
{
    lemma_numeral_digits(n, radix);
    assert(unsigned_digits(numeral(n, radix)) == numeral(n, radix)) by {
        assert(is_digit(numeral(n, radix)[0], radix));
    }
}

proof fn lemma_digit_char(d: nat)
    requires
        d < 16,
    ensures
        digit_value(digit_char(d)) == Some(d),
{
}

/// A numeral is made of digits of its base, and denotes the number it was written for.
pub proof fn lemma_numeral_digits(n: nat, radix: nat)
    requires
        2 <= radix <= 16,
    ensures
        numeral(n, radix).len() > 0,
        forall|i: int|
            0 <= i < numeral(n, radix).len() ==> #[trigger] is_digit(numeral(n, radix)[i], radix),
        digits_value(numeral(n, radix), radix) == n,
    decreases n,
{
    let s = numeral(n, radix);
    if n < radix {
        lemma_digit_char(n);
        assert(s.drop_last() =~= Seq::<char>::empty());
        assert(0 * radix == 0) by (nonlinear_arith);
        assert(digits_value(s.drop_last(), radix) == 0);
    } else {
        assert(n / radix < n && n % radix < radix && n == (n / radix) * radix + n % radix)
            by (nonlinear_arith)
            requires
                2 <= radix <= n,
        ;
        lemma_numeral_digits(n / radix, radix);
        lemma_digit_char(n % radix);
        assert(s.drop_last() =~= numeral(n / radix, radix));
        assert forall|i: int| 0 <= i < s.len() implies #[trigger] is_digit(s[i], radix) by {
            if i < s.len() - 1 {
                assert(is_digit(numeral(n / radix, radix)[i], radix));
            }
        }
    }
}

/// Whether two texts hold the same digits, each in whatever case.
pub open spec fn same_digits(a: Seq<char>, b: Seq<char>) -> bool {
    a.len() == b.len() && forall|i: int|
        0 <= i < a.len() ==> #[trigger] digit_value(a[i]) == digit_value(b[i])
}

proof fn lemma_same_digits_value(a: Seq<char>, b: Seq<char>, radix: nat)
    requires
        same_digits(a, b),
    ensures
        digits_value(a, radix) == digits_value(b, radix),
    decreases a.len(),
{
    if a.len() > 0 {
        assert forall|i: int| 0 <= i < a.drop_last().len() implies #[trigger] digit_value(
            a.drop_last()[i],
        ) == digit_value(b.drop_last()[i]) by {
            assert(digit_value(a[i]) == digit_value(b[i]));
        }
        lemma_same_digits_value(a.drop_last(), b.drop_last(), radix);
        assert(digit_value(a[a.len() - 1]) == digit_value(b[a.len() - 1]));
    }
}

/// A number that was written with digits in whatever case is read back as it was.
pub proof fn law_any_case_reads_back(n: nat, radix: nat, digits: Seq<char>)
    requires
        2 <= radix <= 16,
        same_digits(digits, numeral(n, radix)),
    ensures
        unsigned_value(digits, radix) == Some(n),
        digits.len() > 0,
        forall|i: int| 0 <= i < digits.len() ==> #[trigger] is_digit(digits[i], radix),
{
    lemma_numeral_digits(n, radix);
    lemma_same_digits_value(digits, numeral(n, radix), radix);
    assert forall|i: int| 0 <= i < digits.len() implies #[trigger] is_digit(digits[i], radix) by {
        assert(digit_value(digits[i]) == digit_value(numeral(n, radix)[i]));
        assert(is_digit(numeral(n, radix)[i], radix));
    }
    assert(is_digit(digits[0], radix));
    assert(unsigned_digits(digits) == digits);
}

/// Whether `needle` stands somewhere in `s`.
pub open spec fn contains_text(s: Seq<char>, needle: Seq<char>) -> bool {
    exists|i: int| #[trigger] stands_at(s, needle, i)
}

/// Whether `needle` stands in `s` at position `i`.
pub open spec fn stands_at(s: Seq<char>, needle: Seq<char>, i: int) -> bool {
    0 <= i && i + needle.len() <= s.len() && s.subrange(i, i + needle.len()) == needle
}

/// Whether `needle` stands in `s` at position `at`.
pub fn matches_at(s: &[char], needle: &[char], at: usize) -> (r: bool)
    ensures
        r == stands_at(s@, needle@, at as int),
{
    if at > s.len() || needle.len() > s.len() - at {
        return false;
    }
    let mut j: usize = 0;
    while j < needle.len()
        invariant
            j <= needle.len(),
            at + needle.len() <= s.len(),
            forall|k: int| 0 <= k < j ==> s@[at + k] == needle@[k],
        decreases needle.len() - j,
    {
        if s[at + j] != needle[j] {
            assert(s@.subrange(at as int, at + needle@.len())[j as int] != needle@[j as int]);
            return false;
        }
        j = j + 1;
    }
    assert(s@.subrange(at as int, at + needle@.len()) =~= needle@);
    true
}

/// Whether `needle` stands somewhere in `s`.
pub fn contains(s: &str, needle: &str) -> (r: bool)
    ensures
        r == contains_text(s@, needle@),
{
    let s_chars = chars_of(s);
    let needle_chars = chars_of(needle);
    let mut i: usize = 0;
    while i < s_chars.len()
        invariant
            i <= s_chars@.len(),
            s_chars@ == s@,
            needle_chars@ == needle@,
            forall|k: int| 0 <= k < i ==> !#[trigger] stands_at(s@, needle@, k),
        decreases s_chars.len() - i,
    {
        if matches_at(s_chars.as_slice(), needle_chars.as_slice(), i) {
            return true;
        }
        i = i + 1;
    }
    matches_at(s_chars.as_slice(), needle_chars.as_slice(), i)
}

/// Whether `s` ends with `suffix`.
pub fn ends_with(s: &str, suffix: &str) -> (r: bool)
    ensures
        r == suffix@.is_suffix_of(s@),
{
    let s_chars = chars_of(s);
    let suffix_chars = chars_of(suffix);
    if suffix_chars.len() > s_chars.len() {
        return false;
    }
    let at: usize = s_chars.len() - suffix_chars.len();
    assert(s@.subrange(at as int, at + suffix@.len()) =~= s@.subrange(
        s@.len() - suffix@.len(),
        s@.len() as int,
    ));
    matches_at(s_chars.as_slice(), suffix_chars.as_slice(), at)
}

/// `c` with an ASCII letter turned to upper case.
pub open spec fn ascii_upper(c: char) -> char {
    if 'a' <= c <= 'z' {
        (c as nat - 'a' as nat + 'A' as nat) as char
    } else {
        c
    }
}

/// `s` with its ASCII letters turned to upper case.
pub open spec fn ascii_uppercase(s: Seq<char>) -> Seq<char> {
    s.map_values(|c: char| ascii_upper(c))
}

/// Turn an ASCII letter to upper case.
fn to_ascii_upper(c: char) -> (r: char)
    ensures
        r == ascii_upper(c),
{
    if 'a' <= c && c <= 'z' {
        (c as u8 - 32) as char
    } else {
        c
    }
}

/// The characters of `s` with the ASCII letters turned to upper case.
pub fn uppercase_chars(s: &[char]) -> (r: Vec<char>)
    ensures
        r@ == ascii_uppercase(s@),
{
    let mut r: Vec<char> = Vec::new();
    let mut i: usize = 0;
    while i < s.len()
        invariant
            i <= s.len(),
            r@ == ascii_uppercase(s@.take(i as int)),
        decreases s.len() - i,
    {
        r.push(to_ascii_upper(s[i]));
        i = i + 1;
        assert(r@ =~= ascii_uppercase(s@.take(i as int)));
    }
    assert(s@.take(i as int) =~= s@);
    r
}

/// Whether a slice of characters reads as `text`.
pub fn reads(s: &[char], text: &str) -> (r: bool)
    ensures
        r == (s@ == text@),
{
    let text_chars = chars_of(text);
    assert(s@.subrange(0, s@.len() as int) =~= s@);
    s.len() == text_chars.len() && matches_at(s, text_chars.as_slice(), 0)
}

/// Texts as sequences of characters.
pub open spec fn views(texts: Seq<String>) -> Seq<Seq<char>> {
    texts.map_values(|s: String| s@)
}

/// Texts one after the other, with a separator between them.
pub open spec fn joined(parts: Seq<Seq<char>>, separator: Seq<char>) -> Seq<char>
    decreases parts.len(),
{
    if parts.len() == 0 {
        Seq::empty()
    } else if parts.len() == 1 {
        parts[0]
    } else {
        joined(parts.drop_last(), separator) + separator + parts.last()
    }
}

/// Join texts with a separator between them.
pub fn join(parts: &Vec<String>, separator: &str) -> (r: String)
    ensures
        r@ == joined(views(parts@), separator@),
{
    let ghost all = views(parts@);
    let mut r = String::new();
    let mut i: usize = 0;
    proof {
        reveal_strlit("");
        assert(r@ =~= Seq::<char>::empty());
        assert(all.take(0) =~= Seq::empty());
    }
    while i < parts.len()
        invariant
            i <= parts@.len(),
            all == views(parts@),
            r@ == joined(all.take(i as int), separator@),
        decreases parts.len() - i,
    {
        proof {
            assert(all.take(i + 1).drop_last() =~= all.take(i as int));
        }
        if i > 0 {
            r.append(separator);
        }
        r.append(parts[i].as_str());
        assert(r@ =~= joined(all.take(i + 1), separator@));
        i = i + 1;
    }
    assert(all.take(i as int) =~= all);
    r
}

/// Append a text to a list.
pub fn push_text(list: &mut Vec<String>, item: String)
    ensures
        views(final(list)@) == views(old(list)@).push(item@),
{
    let ghost before = views(list@);
    list.push(item);
    assert(views(list@) =~= before.push(item@));
}

} // verus!
