//! Text: decimal numbers, prefixes, pieces and trimming, stated over sequences of
//! characters.
use vstd::prelude::*;

verus! {

/// [`String::push`] appends one character to the end of the string.
pub assume_specification[ String::push ](s: &mut String, c: char)
    ensures
        final(s)@ == old(s)@.push(c),
;

/// Whether a character has the Unicode property White_Space.
pub open spec fn is_whitespace(c: char) -> bool {
    let n = c as u32;
    ||| 0x9 <= n <= 0xd
    ||| n == 0x20
    ||| n == 0x85
    ||| n == 0xa0
    ||| n == 0x1680
    ||| 0x2000 <= n <= 0x200a
    ||| n == 0x2028
    ||| n == 0x2029
    ||| n == 0x202f
    ||| n == 0x205f
    ||| n == 0x3000
}

/// Whether a character has the Unicode property White_Space.
pub fn char_is_whitespace(c: char) -> (r: bool)
    ensures
        r == is_whitespace(c),
{
    let n: u32 = c as u32;
    (0x9 <= n && n <= 0xd) || n == 0x20 || n == 0x85 || n == 0xa0 || n == 0x1680 || (0x2000 <= n
        && n <= 0x200a) || n == 0x2028 || n == 0x2029 || n == 0x202f || n == 0x205f || n == 0x3000
}

/// What [`str::to_lowercase`] makes of a text that is not all ASCII.
pub uninterp spec fn unicode_lowercase(s: Seq<char>) -> Seq<char>;

/// Whether every character of a text is ASCII.
pub open spec fn all_ascii(s: Seq<char>) -> bool {
    forall|i: int| 0 <= i < s.len() ==> (#[trigger] s[i]) as u32 <= 0x7f
}

/// The text in lower case: letter by letter where it is all ASCII.
pub open spec fn lowercase(s: Seq<char>) -> Seq<char> {
    if all_ascii(s) {
        ascii_lowercase(s)
    } else {
        unicode_lowercase(s)
    }
}

/// Calls [`str::to_lowercase`]. ASCII letters become the lower-case ones, and other ASCII
/// characters stay. Of a text with other characters, the result is a function of the text
/// alone; the case mapping itself is left to the Unicode tables of std.
#[verifier::external_body]
pub(crate) fn to_lowercase(s: &str) -> (r: String)
    ensures
        r@ == (if all_ascii(s@) {
            ascii_lowercase(s@)
        } else {
            unicode_lowercase(s@)
        }),
{
    s.to_lowercase()
}

/// What [`String::from_utf8_lossy`] makes of bytes that are not UTF-8.
pub uninterp spec fn utf8_lossy(bytes: Seq<u8>) -> Seq<char>;

/// Calls [`String::from_utf8_lossy`]. Valid UTF-8 is decoded as it stands; what takes the
/// place of invalid parts is a function of the bytes and is not spelled out here.
#[verifier::external_body]
pub(crate) fn from_utf8_lossy(bytes: &[u8]) -> (r: String)
    ensures
        r@ == (if vstd::utf8::valid_utf8(bytes@) {
            vstd::utf8::decode_utf8(bytes@)
        } else {
            utf8_lossy(bytes@)
        }),
{
    String::from_utf8_lossy(bytes).into_owned()
}

// ----- decimal numbers

/// The character of a decimal digit.
pub open spec fn digit(d: nat) -> char {
    (('0' as int) + d) as char
}

/// `n` in decimal, without leading zeros.
pub open spec fn decimal(n: nat) -> Seq<char>
    decreases n,
{
    if n < 10 {
        seq![digit(n)]
    } else {
        decimal(n / 10).push(digit(n % 10))
    }
}

/// `n` in decimal, with a minus sign where it is negative.
pub open spec fn signed_decimal(n: int) -> Seq<char> {
    if n < 0 {
        seq!['-'] + decimal((-n) as nat)
    } else {
        decimal(n as nat)
    }
}

pub open spec fn is_digit(c: char) -> bool {
    '0' as int <= c as int <= '9' as int
}

pub open spec fn digit_value(c: char) -> nat {
    (c as int - '0' as int) as nat
}

/// The number that a row of digits writes.
pub open spec fn digits_value(s: Seq<char>) -> nat
    decreases s.len(),
{
    if s.len() == 0 {
        0
    } else {
        digits_value(s.drop_last()) * 10 + digit_value(s.last())
    }
}

pub open spec fn all_digits(s: Seq<char>) -> bool {
    forall|i: int| 0 <= i < s.len() ==> is_digit(#[trigger] s[i])
}

/// The text without one leading plus sign.
pub open spec fn without_plus(s: Seq<char>) -> Seq<char> {
    if s.len() > 0 && s[0] == '+' {
        s.skip(1)
    } else {
        s
    }
}

/// The number up to `max` that a text writes: an optional plus sign, then digits and
/// nothing else.
pub open spec fn parse_number(s: Seq<char>, max: nat) -> Option<nat> {
    let body = without_plus(s);
    if body.len() > 0 && all_digits(body) && digits_value(body) <= max {
        Some(digits_value(body))
    } else {
        None
    }
}

proof fn digits_value_of_prefix(s: Seq<char>, i: int)
    requires
        0 <= i <= s.len(),
    ensures
        digits_value(s.take(i)) <= digits_value(s),
    decreases s.len(),
{
    if i == s.len() {
        assert(s.take(i) =~= s);
    } else {
        digits_value_of_prefix(s.drop_last(), i);
        assert(s.drop_last().take(i) =~= s.take(i));
    }
}

/// A number in decimal is made of digits, and they write it.
pub proof fn decimal_digits(n: nat)
    ensures
        decimal(n).len() > 0,
        all_digits(decimal(n)),
        digits_value(decimal(n)) == n,
    decreases n,
{
    if n < 10 {
        reveal_with_fuel(digits_value, 2);
        assert(decimal(n).drop_last() =~= Seq::<char>::empty());
    } else {
        decimal_digits(n / 10);
        let s = decimal(n / 10);
        assert(decimal(n) == s.push(digit(n % 10)));
        assert(s.push(digit(n % 10)).drop_last() =~= s);
    }
}

/// A number written in decimal reads back as itself, within the bound.
pub proof fn decimal_reads_back(n: nat, max: nat)
    requires
        n <= max,
    ensures
        parse_number(decimal(n), max) == Some(n),
{
    decimal_digits(n);
    assert(is_digit(decimal(n)[0]));
    assert(without_plus(decimal(n)) == decimal(n));
}

/// Different numbers have different decimal forms.
pub proof fn decimal_is_injective(m: nat, n: nat)
    requires
        decimal(m) == decimal(n),
    ensures
        m == n,
{
    decimal_digits(m);
    decimal_digits(n);
}

fn digit_char(d: u64) -> (c: char)
    requires
        d < 10,
    ensures
        c == digit(d as nat),
{
    let b: u8 = 48 + d as u8;
    b as char
}

/// Appends `n` in decimal.
pub fn push_decimal(s: &mut String, n: u64)
    ensures
        final(s)@ == old(s)@ + decimal(n as nat),
    decreases n,
{
    if n >= 10 {
        push_decimal(s, n / 10);
    }
    s.push(digit_char(n % 10));
}

/// `n` in decimal.
pub fn decimal_string(n: u64) -> (s: String)
    ensures
        s@ == decimal(n as nat),
{
    let mut s = String::new();
    push_decimal(&mut s, n);
    assert(s@ =~= decimal(n as nat));
    s
}

/// Appends `n` in decimal, with its sign where it is negative.
pub fn push_signed(s: &mut String, n: i32)
    ensures
        final(s)@ == old(s)@ + signed_decimal(n as int),
{
    if n < 0 {
        s.push('-');
        push_decimal(s, (-(n as i64)) as u64);
        assert(s@ =~= old(s)@ + signed_decimal(n as int));
    } else {
        push_decimal(s, n as u64);
    }
}

fn read_digit(c: char) -> (r: Option<u64>)
    ensures
        r is Some == is_digit(c),
        r matches Some(d) ==> d == digit_value(c) && d < 10,
{
    let n: u32 = c as u32;
    if 48 <= n && n <= 57 {
        Some((n - 48) as u64)
    } else {
        None
    }
}

/// Reads a number of at most `max`.
pub fn parse_unsigned(s: &str, max: u64) -> (r: Option<u64>)
    ensures
        r is Some == parse_number(s@, max as nat) is Some,
        r matches Some(n) ==> parse_number(s@, max as nat) == Some(n as nat),
{
    let v = chars(s);
    let start: usize = if v.len() > 0 && v[0] == '+' { 1 } else { 0 };
    let ghost body = without_plus(s@);
    assert(body =~= v@.skip(start as int));
    if start == v.len() {
        return None;
    }
    let mut acc: u64 = 0;
    let mut i: usize = start;
    while i < v.len()
        invariant
            start <= i <= v.len(),
            body == v@.skip(start as int),
            body == without_plus(s@),
            start < v.len(),
            all_digits(body.take(i - start)),
            acc == digits_value(body.take(i - start)),
            acc <= max,
        decreases v.len() - i,
    {
        assert(v[i as int] == body[i - start]);
        let d: u64 = match read_digit(v[i]) {
            Some(d) => d,
            None => {
                assert(!is_digit(body[i - start]));
                return None;
            },
        };
        let next: u128 = acc as u128 * 10 + d as u128;
        let ghost longer = body.take(i + 1 - start);
        assert(longer.drop_last() =~= body.take(i - start));
        assert(longer.last() == body[i - start]);
        assert(is_digit(longer.last()));
        assert forall|k: int| 0 <= k < longer.len() implies is_digit(#[trigger] longer[k]) by {
            if k < i - start {
                assert(longer[k] == body.take(i - start)[k]);
            }
        }
        assert(next == digits_value(longer));
        if next > max as u128 {
            proof {
                digits_value_of_prefix(body, i + 1 - start);
            }
            return None;
        }
        acc = next as u64;
        i += 1;
    }
    assert(body.take(i - start) =~= body);
    Some(acc)
}

// ----- characters and equality

/// The characters of a text.
pub fn chars(s: &str) -> (v: Vec<char>)
    ensures
        v@ == s@,
{
    let mut v: Vec<char> = Vec::new();
    for c in it: s.chars()
        invariant
            it.seq() == s@,
            v@ == s@.take(it.index()),
    {
        v.push(c);
    }
    assert(s@.take(s@.len() as int) =~= s@);
    v
}

/// Whether two texts are the same.
pub fn str_eq(a: &str, b: &str) -> (r: bool)
    ensures
        r == (a@ == b@),
{
    let x = a.as_bytes();
    let y = b.as_bytes();
    if x.len() != y.len() {
        return false;
    }
    let mut i: usize = 0;
    while i < x.len()
        invariant
            i <= x.len(),
            x@.len() == y@.len(),
            x@ == vstd::utf8::encode_utf8(a@),
            y@ == vstd::utf8::encode_utf8(b@),
            forall|j: int| 0 <= j < i ==> x@[j] == y@[j],
        decreases x.len() - i,
    {
        if x[i] != y[i] {
            assert(x@[i as int] != y@[i as int]);
            return false;
        }
        i += 1;
    }
    assert(x@ =~= y@);
    proof {
        vstd::utf8::encode_utf8_decode_utf8(a@);
        vstd::utf8::encode_utf8_decode_utf8(b@);
    }
    true
}

/// The characters of a text that may be missing.
pub open spec fn str_view(s: Option<&str>) -> Option<Seq<char>> {
    match s {
        Some(s) => Some(s@),
        None => None,
    }
}

/// The texts that a row of strings holds.
pub open spec fn views(v: Seq<String>) -> Seq<Seq<char>> {
    v.map_values(|s: String| s@)
}

/// The texts of `parts` with `sep` between each two.
pub open spec fn joined(parts: Seq<Seq<char>>, sep: Seq<char>) -> Seq<char>
    decreases parts.len(),
{
    if parts.len() == 0 {
        Seq::empty()
    } else if parts.len() == 1 {
        parts[0]
    } else {
        joined(parts.drop_last(), sep) + sep + parts.last()
    }
}

/// Joins `parts` with `sep`.
pub fn join(parts: &Vec<String>, sep: &str) -> (r: String)
    ensures
        r@ == joined(views(parts@), sep@),
{
    let mut r = String::new();
    let mut i: usize = 0;
    while i < parts.len()
        invariant
            i <= parts.len(),
            r@ == joined(views(parts@.take(i as int)), sep@),
        decreases parts.len() - i,
    {
        let ghost before = r@;
        if i > 0 {
            r.append(sep);
        }
        r.append(parts[i].as_str());
        proof {
            let longer = views(parts@.take(i + 1));
            assert(longer.drop_last() =~= views(parts@.take(i as int)));
            assert(longer.last() == parts@[i as int]@);
            assert(i == 0 ==> r@ =~= parts@[0]@);
        }
        i += 1;
    }
    assert(parts@.take(parts@.len() as int) =~= parts@);
    r
}

// ----- prefixes, suffixes and substrings

/// Whether `part` stands in `s` from the character `at` on.
pub open spec fn occurs_at(s: Seq<char>, part: Seq<char>, at: int) -> bool {
    0 <= at && at + part.len() <= s.len() && s.subrange(at, at + part.len()) == part
}

/// Whether `part` stands somewhere in `s`.
pub open spec fn occurs(s: Seq<char>, part: Seq<char>) -> bool {
    exists|at: int| occurs_at(s, part, at)
}

/// Whether `s` begins with `part`.
pub open spec fn begins(s: Seq<char>, part: Seq<char>) -> bool {
    occurs_at(s, part, 0)
}

/// Whether `s` ends with `part`.
pub open spec fn ends(s: Seq<char>, part: Seq<char>) -> bool {
    occurs_at(s, part, s.len() - part.len())
}

fn matches_at(s: &Vec<char>, part: &Vec<char>, at: usize) -> (r: bool)
    requires
        at + part.len() <= s.len(),
    ensures
        r == occurs_at(s@, part@, at as int),
{
    let mut j: usize = 0;
    while j < part.len()
        invariant
            j <= part.len(),
            at + part.len() <= s.len(),
            forall|k: int| 0 <= k < j ==> s@[at + k] == part@[k],
        decreases part.len() - j,
    {
        if s[at + j] != part[j] {
            assert(s@.subrange(at as int, at + part@.len())[j as int] != part@[j as int]);
            return false;
        }
        j += 1;
    }
    assert(s@.subrange(at as int, at + part@.len()) =~= part@);
    true
}

/// Whether `s` begins with `part`.
pub fn starts_with(s: &str, part: &str) -> (r: bool)
    ensures
        r == begins(s@, part@),
{
    let v = chars(s);
    let p = chars(part);
    p.len() <= v.len() && matches_at(&v, &p, 0)
}

/// Whether `s` ends with `part`.
pub fn ends_with(s: &str, part: &str) -> (r: bool)
    ensures
        r == ends(s@, part@),
{
    let v = chars(s);
    let p = chars(part);
    p.len() <= v.len() && matches_at(&v, &p, v.len() - p.len())
}

/// Whether `part` stands somewhere in `s`.
pub fn contains(s: &str, part: &str) -> (r: bool)
    ensures
        r == occurs(s@, part@),
{
    let v = chars(s);
    let p = chars(part);
    if p.len() > v.len() {
        return false;
    }
    let last: usize = v.len() - p.len();
    let mut at: usize = 0;
    while at <= last
        invariant
            v@ == s@,
            p@ == part@,
            last + p.len() == v.len(),
            at <= last + 1,
            forall|k: int| 0 <= k < at ==> !occurs_at(s@, part@, k),
        decreases last + 1 - at,
    {
        if matches_at(&v, &p, at) {
            return true;
        }
        if at == last {
            assert(forall|k: int| !occurs_at(s@, part@, k));
            return false;
        }
        at += 1;
    }
    false
}

/// What follows `part` in a text that begins with it.
pub open spec fn after_prefix(s: Seq<char>, part: Seq<char>) -> Option<Seq<char>> {
    if begins(s, part) {
        Some(s.skip(part.len() as int))
    } else {
        None
    }
}

/// What precedes `part` in a text that ends with it.
pub open spec fn before_suffix(s: Seq<char>, part: Seq<char>) -> Option<Seq<char>> {
    if ends(s, part) {
        Some(s.take(s.len() - part.len()))
    } else {
        None
    }
}

/// What follows `part` in a text that begins with it.
pub fn strip_prefix<'a>(s: &'a str, part: &str) -> (r: Option<&'a str>)
    ensures
        r is Some == after_prefix(s@, part@) is Some,
        r matches Some(rest) ==> after_prefix(s@, part@) == Some(rest@),
{
    if starts_with(s, part) {
        let n = part.unicode_len();
        let rest = s.substring_char(n, s.unicode_len());
        assert(rest@ =~= s@.skip(part@.len() as int));
        Some(rest)
    } else {
        None
    }
}

/// What precedes `part` in a text that ends with it.
pub fn strip_suffix<'a>(s: &'a str, part: &str) -> (r: Option<&'a str>)
    ensures
        r is Some == before_suffix(s@, part@) is Some,
        r matches Some(rest) ==> before_suffix(s@, part@) == Some(rest@),
{
    if ends_with(s, part) {
        let rest = s.substring_char(0, s.unicode_len() - part.unicode_len());
        assert(rest@ =~= s@.take(s@.len() - part@.len()));
        Some(rest)
    } else {
        None
    }
}

// ----- pieces

/// A set of characters that a text is cut or trimmed by.
#[derive(Clone, Copy)]
pub enum CharClass {
    Whitespace,
    Is(char),
}

pub open spec fn in_class(c: char, class: CharClass) -> bool {
    match class {
        CharClass::Whitespace => is_whitespace(c),
        CharClass::Is(x) => c == x,
    }
}

/// The first place from `from` on whose character is in the class (`wanted`) or is not
/// (`!wanted`); the length where there is none.
pub open spec fn first_place(s: Seq<char>, class: CharClass, wanted: bool, from: nat) -> nat
    decreases s.len() - from,
{
    if from >= s.len() {
        s.len()
    } else if in_class(s[from as int], class) == wanted {
        from
    } else {
        first_place(s, class, wanted, from + 1)
    }
}

/// The length of the first `n` characters without those of the class at their end.
pub open spec fn trimmed_len(s: Seq<char>, class: CharClass, n: nat) -> nat
    decreases n,
{
    if n == 0 || n > s.len() || !in_class(s[n - 1], class) {
        n
    } else {
        trimmed_len(s, class, (n - 1) as nat)
    }
}

/// The text without characters of the class at its start and end.
pub open spec fn trimmed(s: Seq<char>, class: CharClass) -> Seq<char> {
    let t = s.take(trimmed_len(s, class, s.len()) as int);
    t.skip(first_place(t, class, false, 0) as int)
}

/// What stands before and after the first `sep`.
pub open spec fn cut(s: Seq<char>, sep: char) -> Option<(Seq<char>, Seq<char>)> {
    let i = first_place(s, CharClass::Is(sep), true, 0) as int;
    if i < s.len() {
        Some((s.take(i), s.skip(i + 1)))
    } else {
        None
    }
}

pub proof fn first_place_bounds(s: Seq<char>, class: CharClass, wanted: bool, from: nat)
    requires
        from <= s.len(),
    ensures
        from <= first_place(s, class, wanted, from) <= s.len(),
        forall|i: int|
            from <= i < first_place(s, class, wanted, from) ==> in_class(#[trigger] s[i], class)
                != wanted,
        first_place(s, class, wanted, from) < s.len() ==> in_class(
            s[first_place(s, class, wanted, from) as int],
            class,
        ) == wanted,
    decreases s.len() - from,
{
    if from < s.len() && in_class(s[from as int], class) != wanted {
        first_place_bounds(s, class, wanted, from + 1);
    }
}

/// The first place is the one that fits where none before it does, or the length where none
/// fits at all.
pub proof fn first_place_is(s: Seq<char>, class: CharClass, wanted: bool, from: nat, i: nat)
    requires
        from <= i <= s.len(),
        i < s.len() ==> in_class(s[i as int], class) == wanted,
        forall|k: int| from <= k < i ==> in_class(#[trigger] s[k], class) != wanted,
    ensures
        first_place(s, class, wanted, from) == i,
    decreases i - from,
{
    if from < i {
        assert(in_class(s[from as int], class) != wanted);
        first_place_is(s, class, wanted, from + 1, i);
    }
}

/// The pieces between the characters `sep`; a text without one is a piece of its own.
pub open spec fn pieces(s: Seq<char>, sep: char) -> Seq<Seq<char>>
    decreases s.len(),
{
    let i = first_place(s, CharClass::Is(sep), true, 0) as int;
    if 0 <= i < s.len() {
        seq![s.take(i)] + pieces(s.skip(i + 1), sep)
    } else {
        seq![s]
    }
}

pub open spec fn without_return(s: Seq<char>) -> Seq<char> {
    if s.len() > 0 && s.last() == '\r' {
        s.drop_last()
    } else {
        s
    }
}

/// The lines of a text, each without its ending, which is a newline or a carriage return
/// and a newline; the ending of the last line is optional.
pub open spec fn text_lines(s: Seq<char>) -> Seq<Seq<char>>
    decreases s.len(),
{
    let i = first_place(s, CharClass::Is('\n'), true, 0) as int;
    if s.len() == 0 {
        Seq::empty()
    } else if 0 <= i < s.len() {
        seq![without_return(s.take(i))] + text_lines(s.skip(i + 1))
    } else {
        seq![s]
    }
}

/// The first word of a text: its first characters that are not white space.
pub open spec fn word(s: Seq<char>) -> Option<Seq<char>> {
    let i = first_place(s, CharClass::Whitespace, false, 0);
    if i < s.len() {
        Some(s.subrange(i as int, first_place(s, CharClass::Whitespace, true, i) as int))
    } else {
        None
    }
}

fn has_class(c: char, class: CharClass) -> (r: bool)
    ensures
        r == in_class(c, class),
{
    match class {
        CharClass::Whitespace => char_is_whitespace(c),
        CharClass::Is(x) => c == x,
    }
}

fn find_place(v: &Vec<char>, class: CharClass, wanted: bool, from: usize) -> (r: usize)
    requires
        from <= v.len(),
    ensures
        r == first_place(v@, class, wanted, from as nat),
        from <= r <= v.len(),
{
    let mut i: usize = from;
    while i < v.len() && has_class(v[i], class) != wanted
        invariant
            from <= i <= v.len(),
            first_place(v@, class, wanted, from as nat) == first_place(
                v@,
                class,
                wanted,
                i as nat,
            ),
        decreases v.len() - i,
    {
        i += 1;
    }
    i
}

/// The text without characters of the class at its start and end.
pub fn trim<'a>(s: &'a str, class: CharClass) -> (r: &'a str)
    ensures
        r@ == trimmed(s@, class),
{
    let mut v = chars(s);
    let mut n: usize = v.len();
    while n > 0 && has_class(v[n - 1], class)
        invariant
            n <= v.len(),
            v@ == s@,
            trimmed_len(s@, class, s@.len()) == trimmed_len(s@, class, n as nat),
        decreases n,
    {
        n -= 1;
    }
    assert(n == trimmed_len(s@, class, s@.len()));
    v.truncate(n);
    assert(v@ =~= s@.take(n as int));
    let start = find_place(&v, class, false, 0);
    let r = s.substring_char(start, n);
    assert(r@ =~= trimmed(s@, class));
    r
}

/// What stands before and after the first `sep`.
pub fn split_once<'a>(s: &'a str, sep: char) -> (r: Option<(&'a str, &'a str)>)
    ensures
        r is Some == cut(s@, sep) is Some,
        r matches Some((a, b)) ==> cut(s@, sep) == Some((a@, b@)),
{
    let v = chars(s);
    let i = find_place(&v, CharClass::Is(sep), true, 0);
    if i < v.len() {
        let a = s.substring_char(0, i);
        let b = s.substring_char(i + 1, v.len());
        assert(a@ =~= s@.take(i as int));
        assert(b@ =~= s@.skip(i + 1));
        Some((a, b))
    } else {
        None
    }
}

/// The pieces between the characters `sep`.
pub fn split(s: &str, sep: char) -> (r: Vec<String>)
    ensures
        views(r@) == pieces(s@, sep),
        r@.len() >= 1,
{
    let mut r: Vec<String> = Vec::new();
    let mut rest: &str = s;
    loop
        invariant_except_break
            views(r@) + pieces(rest@, sep) == pieces(s@, sep),
        ensures
            views(r@) == pieces(s@, sep),
            r@.len() >= 1,
        decreases rest@.len(),
    {
        let ghost before = r@;
        let ghost text = rest@;
        proof {
            first_place_bounds(text, CharClass::Is(sep), true, 0);
        }
        match split_once(rest, sep) {
            Some((a, b)) => {
                r.push(a.to_owned());
                assert(views(r@) =~= views(before).push(a@));
                rest = b;
                assert(views(r@) + pieces(rest@, sep) =~= views(before) + pieces(text, sep));
            },
            None => {
                r.push(rest.to_owned());
                assert(views(r@) =~= views(before).push(rest@));
                assert(views(r@) =~= views(before) + pieces(text, sep));
                break;
            },
        }
    }
    r
}

/// The lines of a text.
pub fn lines(s: &str) -> (r: Vec<String>)
    ensures
        views(r@) == text_lines(s@),
{
    let mut r: Vec<String> = Vec::new();
    let mut rest: &str = s;
    while rest.unicode_len() > 0
        invariant
            views(r@) + text_lines(rest@) == text_lines(s@),
        decreases rest@.len(),
    {
        let ghost before = r@;
        let ghost text = rest@;
        proof {
            first_place_bounds(text, CharClass::Is('\n'), true, 0);
        }
        match split_once(rest, '\n') {
            Some((a, b)) => {
                let n = a.unicode_len();
                if n > 0 && a.get_char(n - 1) == '\r' {
                    let line = a.substring_char(0, n - 1);
                    assert(line@ =~= without_return(a@));
                    r.push(line.to_owned());
                } else {
                    r.push(a.to_owned());
                }
                assert(views(r@) =~= views(before).push(without_return(a@)));
                rest = b;
                assert(views(r@) + text_lines(rest@) =~= views(before) + text_lines(text));
            },
            None => {
                r.push(rest.to_owned());
                assert(views(r@) =~= views(before).push(rest@));
                rest = rest.substring_char(rest.unicode_len(), rest.unicode_len());
                assert(rest@.len() == 0);
                assert(views(r@) + text_lines(rest@) =~= views(before) + text_lines(text));
            },
        }
    }
    assert(views(r@) + text_lines(rest@) =~= views(r@));
    r
}

/// The first word of a text.
pub fn first_word<'a>(s: &'a str) -> (r: Option<&'a str>)
    ensures
        r is Some == word(s@) is Some,
        r matches Some(w) ==> word(s@) == Some(w@),
{
    let v = chars(s);
    let i = find_place(&v, CharClass::Whitespace, false, 0);
    if i < v.len() {
        let j = find_place(&v, CharClass::Whitespace, true, i);
        Some(s.substring_char(i, j))
    } else {
        None
    }
}

// ----- ASCII case

/// The lower case of an ASCII letter; any other character as it is.
pub open spec fn ascii_lower(c: char) -> char {
    if 'A' as int <= c as int <= 'Z' as int {
        (c as int + 32) as char
    } else {
        c
    }
}

pub open spec fn ascii_lowercase(s: Seq<char>) -> Seq<char> {
    s.map_values(|c: char| ascii_lower(c))
}

/// The text with its ASCII letters in lower case.
pub fn to_ascii_lowercase(s: &str) -> (r: String)
    ensures
        r@ == ascii_lowercase(s@),
{
    let v = chars(s);
    let mut r = String::new();
    let mut i: usize = 0;
    while i < v.len()
        invariant
            i <= v.len(),
            r@ == ascii_lowercase(v@.take(i as int)),
        decreases v.len() - i,
    {
        let n = v[i] as u32;
        let c = if 65 <= n && n <= 90 {
            (n as u8 + 32) as char
        } else {
            v[i]
        };
        assert(c == ascii_lower(v@[i as int]));
        r.push(c);
        i += 1;
        assert(v@.take(i as int) =~= v@.take(i - 1).push(v@[i - 1]));
        assert(ascii_lowercase(v@.take(i as int)) =~= ascii_lowercase(v@.take(i - 1)).push(c));
    }
    assert(v@.take(v@.len() as int) =~= v@);
    r
}

// ----- what these functions promise together

/// A number is written with its last digit at the end, the digits before it being those of a
/// tenth of the number; there is no leading zero.
pub proof fn numbers_are_written_in_tens(n: nat)
    ensures
        decimal(n).last() as int == 48 + n % 10,
        n < 10 <==> decimal(n).len() == 1,
        n >= 10 ==> decimal(n).drop_last() == decimal(n / 10),
        n > 0 ==> decimal(n)[0] != '0',
    decreases n,
{
    if n >= 10 {
        numbers_are_written_in_tens(n / 10);
        decimal_digits(n / 10);
        assert(decimal(n).drop_last() =~= decimal(n / 10));
        assert(decimal(n)[0] == decimal(n / 10)[0]);
    }
}

/// A negative number is written as its opposite behind a minus, and no other number has one.
pub proof fn minus_goes_first(n: int)
    ensures
        n < 0 ==> signed_decimal(n)[0] == '-' && signed_decimal(n).skip(1) == signed_decimal(-n),
        n >= 0 ==> signed_decimal(n) == decimal(n as nat) && signed_decimal(n)[0] != '-',
{
    if n < 0 {
        assert(signed_decimal(n).skip(1) =~= decimal((-n) as nat));
    } else {
        decimal_digits(n as nat);
        assert(is_digit(decimal(n as nat)[0]));
    }
}

/// A number is read digit by digit: one more digit makes ten times as much plus the digit, a
/// plus in front changes nothing, and what is not a digit or too large is not read at all.
pub proof fn numbers_are_read_in_tens(s: Seq<char>, c: char, max: nat)
    requires
        s.len() > 0,
        s[0] != '+',
    ensures
        parse_number(seq!['+'] + s, max) == parse_number(s, max),
        48 <= c as int <= 57 ==> (parse_number(s, max) matches Some(n) ==> parse_number(
            s.push(c),
            max,
        ) == (if 10 * n + c as int - 48 <= max {
            Some((10 * n + c as int - 48) as nat)
        } else {
            None
        })),
        !(48 <= c as int <= 57) ==> parse_number(s.push(c), max) is None,
        48 <= c as int <= 57 ==> parse_number(seq![c], max) == (if c as int - 48 <= max {
            Some((c as int - 48) as nat)
        } else {
            None
        }),
        parse_number(Seq::<char>::empty(), max) is None,
        parse_number(s, max) matches Some(n) ==> n <= max,
{
    assert((seq!['+'] + s).skip(1) =~= s);
    let t = s.push(c);
    assert(without_plus(t) == t);
    assert(t.drop_last() =~= s);
    assert(t[t.len() - 1] == c);
    if all_digits(s) && is_digit(c) {
        assert(all_digits(t));
    }
    if all_digits(t) {
        assert forall|i: int| 0 <= i < s.len() implies is_digit(#[trigger] s[i]) by {
            assert(t[i] == s[i]);
        }
    }
    reveal_with_fuel(digits_value, 2);
    assert(seq![c].drop_last() =~= Seq::<char>::empty());
    assert(seq![c][0] == c);
    assert(seq![c].last() == c);
}

/// A text is cut at the first separator: what is before it has none, and both parts with the
/// separator between them are the text. It is not cut where there is no separator.
pub proof fn texts_are_cut_at_the_first(s: Seq<char>, sep: char, a: Seq<char>, b: Seq<char>)
    ensures
        cut(s, sep) == Some((a, b)) <==> s == a + seq![sep] + b && !a.contains(sep),
        cut(s, sep) is None <==> !s.contains(sep),
{
    let class = CharClass::Is(sep);
    let i = first_place(s, class, true, 0) as int;
    first_place_bounds(s, class, true, 0);
    if i < s.len() {
        assert(s[i] == sep);
        assert(s =~= s.take(i) + seq![sep] + s.skip(i + 1));
        assert(!s.take(i).contains(sep)) by {
            if s.take(i).contains(sep) {
                let k = choose|k: int| 0 <= k < i && s.take(i)[k] == sep;
                assert(in_class(s[k], class));
            }
        }
    } else {
        assert(!s.contains(sep)) by {
            if s.contains(sep) {
                let k = choose|k: int| 0 <= k < s.len() && s[k] == sep;
                assert(in_class(s[k], class));
            }
        }
    }
    if s == a + seq![sep] + b && !a.contains(sep) {
        let n = a.len();
        assert(s[n as int] == sep);
        assert forall|k: int| 0 <= k < n implies in_class(#[trigger] s[k], class) != true by {
            assert(s[k] == a[k]);
            assert(a.contains(a[k]));
        }
        first_place_is(s, class, true, 0, n);
        assert(s.take(n as int) =~= a);
        assert(s.skip(n as int + 1) =~= b);
    }
}

proof fn joined_from_the_front(first: Seq<char>, rest: Seq<Seq<char>>, sep: Seq<char>)
    requires
        rest.len() > 0,
    ensures
        joined(seq![first] + rest, sep) == first + sep + joined(rest, sep),
    decreases rest.len(),
{
    let all = seq![first] + rest;
    assert(all.last() == rest.last());
    assert(all.drop_last() =~= seq![first] + rest.drop_last());
    if rest.len() == 1 {
        assert(all.drop_last() =~= seq![first]);
        reveal_with_fuel(joined, 2);
        assert(joined(all, sep) =~= first + sep + joined(rest, sep));
    } else {
        joined_from_the_front(first, rest.drop_last(), sep);
        assert(joined(all, sep) =~= first + sep + joined(rest, sep));
    }
}

/// The pieces of a text hold no separator, and joined by it they are the text again.
pub proof fn pieces_make_up_the_text(s: Seq<char>, sep: char)
    ensures
        pieces(s, sep).len() > 0,
        joined(pieces(s, sep), seq![sep]) == s,
        forall|i: int|
            0 <= i < pieces(s, sep).len() ==> !(#[trigger] pieces(s, sep)[i]).contains(sep),
    decreases s.len(),
{
    let i = first_place(s, CharClass::Is(sep), true, 0) as int;
    texts_are_cut_at_the_first(s, sep, s.take(i), s.skip(i + 1));
    first_place_bounds(s, CharClass::Is(sep), true, 0);
    if i < s.len() {
        pieces_make_up_the_text(s.skip(i + 1), sep);
        joined_from_the_front(s.take(i), pieces(s.skip(i + 1), sep), seq![sep]);
    }
}

/// Parts without the separator are what the text that they were joined to is split into.
pub proof fn joined_parts_are_split_again(parts: Seq<Seq<char>>, sep: char)
    requires
        parts.len() > 0,
        forall|i: int| 0 <= i < parts.len() ==> !(#[trigger] parts[i]).contains(sep),
    ensures
        pieces(joined(parts, seq![sep]), sep) == parts,
    decreases parts.len(),
{
    let s = joined(parts, seq![sep]);
    if parts.len() == 1 {
        texts_are_cut_at_the_first(s, sep, s, s);
        assert(!parts[0].contains(sep));
        assert(pieces(s, sep) =~= parts);
    } else {
        let rest = parts.drop_first();
        assert forall|i: int| 0 <= i < rest.len() implies !(#[trigger] rest[i]).contains(sep) by {
            assert(rest[i] == parts[i + 1]);
        }
        joined_parts_are_split_again(rest, sep);
        joined_from_the_front(parts[0], rest, seq![sep]);
        assert(parts =~= seq![parts[0]] + rest);
        assert(!parts[0].contains(sep));
        texts_are_cut_at_the_first(s, sep, parts[0], joined(rest, seq![sep]));
        assert(pieces(s, sep) =~= parts);
    }
}

/// A line ends at the first line feed, and a carriage return before it belongs to the ending;
/// the last line needs no ending, and none is empty for want of one.
pub proof fn lines_end_at_line_feeds(line: Seq<char>, rest: Seq<char>)
    requires
        !line.contains('\n'),
    ensures
        line.len() == 0 || line.last() != '\r' ==> text_lines(line + seq!['\n'] + rest) == seq![
            line,
        ] + text_lines(rest),
        text_lines(line + seq!['\r'] + seq!['\n'] + rest) == seq![line] + text_lines(rest),
        text_lines(line) == if line.len() == 0 { Seq::<Seq<char>>::empty() } else { seq![line] },
{
    let s = line + seq!['\n'] + rest;
    texts_are_cut_at_the_first(s, '\n', line, rest);
    let t = line + seq!['\r'] + seq!['\n'] + rest;
    let ended = line + seq!['\r'];
    assert(!ended.contains('\n')) by {
        if ended.contains('\n') {
            let k = choose|k: int| 0 <= k < ended.len() && ended[k] == '\n';
            assert(line[k] == '\n');
        }
    }
    texts_are_cut_at_the_first(t, '\n', ended, rest);
    assert(without_return(ended) =~= line);
    texts_are_cut_at_the_first(line, '\n', line, rest);
    first_place_bounds(s, CharClass::Is('\n'), true, 0);
    first_place_bounds(t, CharClass::Is('\n'), true, 0);
    first_place_bounds(line, CharClass::Is('\n'), true, 0);
}

proof fn trimmed_len_bounds(s: Seq<char>, class: CharClass, n: nat)
    requires
        n <= s.len(),
    ensures
        trimmed_len(s, class, n) <= n,
        forall|i: int| trimmed_len(s, class, n) <= i < n ==> in_class(#[trigger] s[i], class),
        trimmed_len(s, class, n) > 0 ==> !in_class(s[trimmed_len(s, class, n) - 1], class),
    decreases n,
{
    if n > 0 && in_class(s[n - 1], class) {
        trimmed_len_bounds(s, class, (n - 1) as nat);
    }
}

/// Trimming takes off characters of the class at both ends, and all of them: what is left starts
/// and ends with others, or is empty.
pub proof fn trimming_takes_off_both_ends(s: Seq<char>, class: CharClass) -> (r: (int, int))
    ensures
        0 <= r.0 <= r.1 <= s.len(),
        trimmed(s, class) == s.subrange(r.0, r.1),
        forall|i: int| 0 <= i < r.0 ==> in_class(#[trigger] s[i], class),
        forall|i: int| r.1 <= i < s.len() ==> in_class(#[trigger] s[i], class),
        r.0 < r.1 ==> !in_class(s[r.0], class) && !in_class(s[r.1 - 1], class),
{
    let n = trimmed_len(s, class, s.len());
    trimmed_len_bounds(s, class, s.len());
    let t = s.take(n as int);
    let i = first_place(t, class, false, 0) as int;
    first_place_bounds(t, class, false, 0);
    assert(t.skip(i) =~= s.subrange(i, n as int));
    assert forall|k: int| 0 <= k < i implies in_class(#[trigger] s[k], class) by {
        assert(t[k] == s[k]);
    }
    if i < n {
        assert(t[i] == s[i]);
    }
    (i, n as int)
}

/// The first word is what stands between white space: nothing but white space is before it, none
/// is in it, and white space or the end is behind it.
pub proof fn words_stand_between_white_space(s: Seq<char>, w: Seq<char>, before: int)
    requires
        0 <= before,
        w.len() > 0,
        before + w.len() <= s.len(),
        s.subrange(before, before + w.len()) == w,
        forall|i: int| 0 <= i < before ==> is_whitespace(#[trigger] s[i]),
        forall|i: int| 0 <= i < w.len() ==> !is_whitespace(#[trigger] w[i]),
        before + w.len() < s.len() ==> is_whitespace(s[before + w.len()]),
    ensures
        word(s) == Some(w),
{
    assert(s[before] == w[0]);
    first_place_is(s, CharClass::Whitespace, false, 0, before as nat);
    assert forall|k: int| before <= k < before + w.len() implies !in_class(
        #[trigger] s[k],
        CharClass::Whitespace,
    ) by {
        assert(s[k] == w[k - before]);
    }
    first_place_is(
        s,
        CharClass::Whitespace,
        true,
        before as nat,
        (before + w.len()) as nat,
    );
}

/// There is no word where all is white space.
pub proof fn white_space_is_no_word(s: Seq<char>)
    ensures
        word(s) is None <==> forall|i: int| 0 <= i < s.len() ==> is_whitespace(#[trigger] s[i]),
{
    first_place_bounds(s, CharClass::Whitespace, false, 0);
}

/// A part is found wherever it stands, at the beginning and at the end, and what is stripped off
/// is exactly the part.
pub proof fn parts_are_found(a: Seq<char>, part: Seq<char>, b: Seq<char>)
    ensures
        occurs(a + part + b, part),
        begins(part + b, part),
        ends(a + part, part),
        after_prefix(part + b, part) == Some(b),
        before_suffix(a + part, part) == Some(a),
{
    assert((a + part + b).subrange(a.len() as int, a.len() as int + part.len()) =~= part);
    assert(occurs_at(a + part + b, part, a.len() as int));
    assert((part + b).subrange(0, part.len() as int) =~= part);
    assert((a + part).subrange(a.len() as int, (a + part).len() as int) =~= part);
    assert((part + b).skip(part.len() as int) =~= b);
    assert((a + part).take(a.len() as int) =~= a);
}

/// What is found is there: the text is something, the part, and something.
pub proof fn found_parts_are_there(s: Seq<char>, part: Seq<char>)
    ensures
        occurs(s, part) ==> exists|a: Seq<char>, b: Seq<char>| s == #[trigger] (a + part + b),
        after_prefix(s, part) matches Some(b) ==> s == part + b,
        before_suffix(s, part) matches Some(a) ==> s == a + part,
{
    if occurs(s, part) {
        let at = choose|at: int| occurs_at(s, part, at);
        let a = s.take(at);
        let b = s.skip(at + part.len());
        assert(s =~= a + part + b) by {
            assert forall|i: int| 0 <= i < s.len() implies s[i] == (a + part + b)[i] by {
                if at <= i < at + part.len() {
                    assert(s.subrange(at, at + part.len())[i - at] == part[i - at]);
                }
            }
        }
    }
    if begins(s, part) {
        assert(s =~= s.subrange(0, part.len() as int) + s.skip(part.len() as int));
    }
    if ends(s, part) {
        let n = s.len() - part.len();
        assert(s =~= s.take(n) + s.subrange(n, n + part.len()));
    }
}

/// Lower case is made of the letters A to Z alone, each 32 below its own; all else stays, and
/// the texts that two make are made one by one.
pub proof fn lower_case_is_32_above(c: char, a: Seq<char>, b: Seq<char>)
    ensures
        65 <= c as int <= 90 ==> ascii_lower(c) as int == c as int + 32,
        !(65 <= c as int <= 90) ==> ascii_lower(c) == c,
        ascii_lowercase(seq![c]) == seq![ascii_lower(c)],
        ascii_lowercase(a + b) == ascii_lowercase(a) + ascii_lowercase(b),
        ascii_lowercase(ascii_lowercase(a)) == ascii_lowercase(a),
{
    assert(ascii_lowercase(seq![c]) =~= seq![ascii_lower(c)]);
    assert(ascii_lowercase(a + b) =~= ascii_lowercase(a) + ascii_lowercase(b));
    assert(ascii_lowercase(ascii_lowercase(a)) =~= ascii_lowercase(a));
}

/// Of ASCII, the space and the characters from the tab to the carriage return are white space.
pub proof fn ascii_white_space(c: char)
    requires
        (c as int) < 128,
    ensures
        is_whitespace(c) <==> c == ' ' || '\t' as int <= c as int <= '\r' as int,
{
}

} // verus!
