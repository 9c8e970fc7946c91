//! Text building blocks: comparison, numerals, padding and blank checks.
use vstd::prelude::*;
use vstd::utf8::{encode_utf8, encode_utf8_decode_utf8};

verus! {

/// Appends `c` to the end of `s`.
///
/// Specifies `String::push`, which appends the given character and leaves the
/// rest of the string as it was.
pub assume_specification[ String::push ](s: &mut String, c: char)
    ensures
        final(s)@ == old(s)@.push(c),
;

/// Texts, over mathematical text.
pub open spec fn texts(list: Seq<String>) -> Seq<Seq<char>> {
    list.map_values(|s: String| s@)
}

/// Pairs of texts, over mathematical text.
pub open spec fn pairs(list: Seq<(String, String)>) -> Seq<(Seq<char>, Seq<char>)> {
    list.map_values(|p: (String, String)| (p.0@, p.1@))
}

/// Whether two texts hold the same characters.
pub fn same_text(a: &str, b: &str) -> (same: bool)
    ensures
        same == (a@ == b@),
{
    let x: &[u8] = a.as_bytes();
    let y: &[u8] = b.as_bytes();
    proof {
        encode_utf8_decode_utf8(a@);
        encode_utf8_decode_utf8(b@);
    }
    if x.len() != y.len() {
        return false;
    }
    let mut i: usize = 0;
    while i < x.len()
        invariant
            i <= x@.len(),
            x@.len() == y@.len(),
            x@ == encode_utf8(a@),
            y@ == encode_utf8(b@),
            forall|k: int| 0 <= k < i ==> x@[k] == y@[k],
        decreases x@.len() - i,
    {
        if x[i] != y[i] {
            return false;
        }
        i = i + 1;
    }
    assert(x@ =~= y@);
    true
}

/// The characters of a text, in order.
pub fn chars_of(s: &str) -> (cs: Vec<char>)
    ensures
        cs@ == s@,
{
    let mut out: Vec<char> = Vec::new();
    for c in it: s.chars()
        invariant
            it.seq() == s@,
            out@ == it.seq().take(it.index()),
    {
        out.push(c);
    }
    assert(s@.take(s@.len() as int) =~= s@);
    out
}

/// The text made of the given characters.
pub fn text_of(cs: &[char]) -> (s: String)
    ensures
        s@ == cs@,
{
    let mut out = String::new();
    let mut i: usize = 0;
    while i < cs.len()
        invariant
            i <= cs@.len(),
            out@ == cs@.take(i as int),
        decreases cs@.len() - i,
    {
        out.push(cs[i]);
        i = i + 1;
        assert(cs@.take(i as int) =~= cs@.take(i - 1).push(cs@[i - 1]));
    }
    assert(cs@.take(i as int) =~= cs@);
    out
}

/// Two texts one after the other.
pub fn join2(a: &str, b: &str) -> (s: String)
    ensures
        s@ == a@ + b@,
{
    let mut out = a.to_string();
    out.append(b);
    out
}

/// Three texts one after the other.
pub fn join3(a: &str, b: &str, c: &str) -> (s: String)
    ensures
        s@ == a@ + b@ + c@,
{
    let mut out = join2(a, b);
    out.append(c);
    out
}

/// The digit character of `d` in the bases up to sixteen, letters in lower
/// case.
pub open spec fn digit_char(d: nat) -> char {
    if d < 10 {
        (('0' as u32) + d) as char
    } else {
        (('a' as u32) + (d - 10)) as char
    }
}

/// The numeral of `n` in base `base`, without leading zeros.
pub open spec fn numeral(n: nat, base: nat) -> Seq<char>
    recommends
        2 <= base <= 16,
    decreases n,
{
    if n < base || base < 2 {
        seq![digit_char(n)]
    } else {
        proof {
            vstd::arithmetic::div_mod::lemma_div_decreases(n as int, base as int);
        }
        numeral(n / base, base).push(digit_char(n % base))
    }
}

/// Whether `c` is a lower-case digit of some base up to sixteen.
pub open spec fn is_digit_char(c: char) -> bool {
    ||| '0' <= c <= '9'
    ||| 'a' <= c <= 'f'
}

/// The decimal numeral of `n`.
pub open spec fn decimal(n: nat) -> Seq<char> {
    numeral(n, 10)
}

/// The hexadecimal numeral of `n`, in lower case.
pub open spec fn hexadecimal(n: nat) -> Seq<char> {
    numeral(n, 16)
}

/// `s` with zeros in front of it up to `width` characters; `s` itself when it
/// is that long already.
pub open spec fn zero_padded(s: Seq<char>, width: nat) -> Seq<char> {
    if s.len() >= width {
        s
    } else {
        Seq::new((width - s.len()) as nat, |i: int| '0') + s
    }
}

/// Where the first of a given character stands in a text, the text in front of
/// it and the one behind it are fixed.
pub proof fn lemma_split_at_first(a: Seq<char>, x: Seq<char>, b: Seq<char>, y: Seq<char>, c: char)
    requires
        a.push(c) + x == b.push(c) + y,
        !a.contains(c),
        !b.contains(c),
    ensures
        a == b,
        x == y,
{
    let s = a.push(c) + x;
    let t = b.push(c) + y;
    assert(s.len() == a.len() + 1 + x.len());
    assert(t.len() == b.len() + 1 + y.len());
    if a.len() < b.len() {
        assert(s[a.len() as int] == c);
        assert(t[a.len() as int] == b[a.len() as int]);
    } else if b.len() < a.len() {
        assert(t[b.len() as int] == c);
        assert(s[b.len() as int] == a[b.len() as int]);
    }
    assert(a =~= s.take(a.len() as int));
    assert(b =~= t.take(b.len() as int));
    assert(x =~= s.skip(a.len() as int + 1));
    assert(y =~= t.skip(b.len() as int + 1));
}

/// Where the last of a given character stands in a text, the text in front of
/// it and the one behind it are fixed.
pub proof fn lemma_split_at_last(a: Seq<char>, x: Seq<char>, b: Seq<char>, y: Seq<char>, c: char)
    requires
        a.push(c) + x == b.push(c) + y,
        !x.contains(c),
        !y.contains(c),
    ensures
        a == b,
        x == y,
{
    let s = a.push(c) + x;
    let t = b.push(c) + y;
    assert(s.len() == a.len() + 1 + x.len());
    assert(t.len() == b.len() + 1 + y.len());
    if a.len() < b.len() {
        assert(s[b.len() as int] == c);
        assert(s[b.len() as int] == x[b.len() - a.len() - 1]);
    } else if b.len() < a.len() {
        assert(t[a.len() as int] == c);
        assert(t[a.len() as int] == y[a.len() - b.len() - 1]);
    }
    assert(a =~= s.take(a.len() as int));
    assert(b =~= t.take(b.len() as int));
    assert(x =~= s.skip(a.len() as int + 1));
    assert(y =~= t.skip(b.len() as int + 1));
}

/// A digit character stands for one digit only.
pub proof fn lemma_digit_char_injective(a: nat, b: nat)
    requires
        a < 16,
        b < 16,
        digit_char(a) == digit_char(b),
    ensures
        a == b,
{
}

/// Numerals are never empty and hold nothing but lower-case digits.
pub proof fn lemma_numeral_chars(n: nat, base: nat)
    requires
        2 <= base <= 16,
    ensures
        numeral(n, base).len() >= 1,
        forall|i: int|
            0 <= i < numeral(n, base).len() ==> is_digit_char(#[trigger] numeral(n, base)[i]),
    decreases n,
{
    if n >= base {
        vstd::arithmetic::div_mod::lemma_div_decreases(n as int, base as int);
        vstd::arithmetic::div_mod::lemma_mod_bound(n as int, base as int);
        lemma_numeral_chars(n / base, base);
    }
}

/// Different numbers have different numerals.
pub proof fn lemma_numeral_injective(a: nat, b: nat, base: nat)
    requires
        2 <= base <= 16,
        numeral(a, base) == numeral(b, base),
    ensures
        a == b,
    decreases a,
{
    if a < base && b < base {
        assert(numeral(a, base)[0] == digit_char(a));
        assert(numeral(b, base)[0] == digit_char(b));
        lemma_digit_char_injective(a, b);
    } else if a >= base && b >= base {
        vstd::arithmetic::div_mod::lemma_div_decreases(a as int, base as int);
        vstd::arithmetic::div_mod::lemma_mod_bound(a as int, base as int);
        vstd::arithmetic::div_mod::lemma_mod_bound(b as int, base as int);
        let x = numeral(a / base, base);
        let y = numeral(b / base, base);
        assert(numeral(a, base) == x.push(digit_char(a % base)));
        assert(numeral(b, base) == y.push(digit_char(b % base)));
        assert(numeral(a, base).last() == digit_char(a % base));
        assert(numeral(b, base).last() == digit_char(b % base));
        lemma_digit_char_injective(a % base, b % base);
        assert(numeral(a, base).drop_last() =~= x);
        assert(numeral(b, base).drop_last() =~= y);
        lemma_numeral_injective(a / base, b / base, base);
        vstd::arithmetic::div_mod::lemma_fundamental_div_mod(a as int, base as int);
        vstd::arithmetic::div_mod::lemma_fundamental_div_mod(b as int, base as int);
    } else if a >= base {
        vstd::arithmetic::div_mod::lemma_div_decreases(a as int, base as int);
        lemma_numeral_chars(a / base, base);
        assert(numeral(a, base).len() == 1);
    } else {
        lemma_numeral_chars(b / base, base);
        assert(numeral(b, base).len() == 1);
    }
}

/// The numeral of a number other than 0 does not start with a 0.
pub proof fn lemma_numeral_first_digit(n: nat, base: nat)
    requires
        2 <= base <= 16,
        n > 0,
    ensures
        numeral(n, base).len() > 0,
        numeral(n, base)[0] != '0',
    decreases n,
{
    if n >= base {
        assert(0 < n / base < n) by (nonlinear_arith)
            requires
                n >= base,
                base >= 2,
        ;
        lemma_numeral_first_digit(n / base, base);
    }
}

/// A number below `base` to the power of `k` has at most `k` digits.
pub proof fn lemma_numeral_len(n: nat, base: nat, k: nat)
    requires
        2 <= base <= 16,
        k >= 1,
        n < vstd::arithmetic::power::pow(base as int, k),
    ensures
        numeral(n, base).len() <= k,
    decreases k,
{
    if n >= base {
        vstd::arithmetic::power::lemma_pow1(base as int);
        assert(k > 1);
        let p = vstd::arithmetic::power::pow(base as int, (k - 1) as nat);
        assert(vstd::arithmetic::power::pow(base as int, k) == base * p) by {
            reveal(vstd::arithmetic::power::pow);
        }
        assert(n / base < p) by (nonlinear_arith)
            requires
                n < base * p,
                base >= 2,
        ;
        lemma_numeral_len(n / base, base, (k - 1) as nat);
    }
}

/// Whether two texts are the same up to the `i`th character, and there the first
/// one ends or has the lesser character.
pub open spec fn parts_at(a: Seq<char>, b: Seq<char>, i: int) -> bool {
    &&& 0 <= i <= a.len()
    &&& i < b.len()
    &&& forall|j: int| 0 <= j < i ==> #[trigger] a[j] == b[j]
    &&& i == a.len() || a[i] < b[i]
}

/// Whether a text comes before another where texts are sorted character by
/// character.
pub open spec fn sorts_before(a: Seq<char>, b: Seq<char>) -> bool {
    exists|i: int| #[trigger] parts_at(a, b, i)
}

/// A padded numeral is that of all digits but the last, and the last digit.
proof fn lemma_padded_last_digit(n: nat, width: nat)
    requires
        width >= 2,
        n < vstd::arithmetic::power::pow(10, width),
    ensures
        zero_padded(decimal(n), width) == zero_padded(decimal(n / 10), (width - 1) as nat).push(
            digit_char(n % 10),
        ),
        n / 10 < vstd::arithmetic::power::pow(10, (width - 1) as nat),
{
    let p = vstd::arithmetic::power::pow(10, (width - 1) as nat);
    assert(vstd::arithmetic::power::pow(10, width) == 10 * p) by {
        reveal(vstd::arithmetic::power::pow);
    }
    lemma_numeral_len(n / 10, 10, (width - 1) as nat);
    assert(zero_padded(decimal(n), width) =~= zero_padded(
        decimal(n / 10),
        (width - 1) as nat,
    ).push(digit_char(n % 10)));
}

/// Numerals that are padded to the same width are as long as that, and are
/// sorted like the numbers: they part at a place inside.
pub proof fn lemma_padded_in_order(m: nat, n: nat, width: nat) -> (i: int)
    requires
        width >= 1,
        m < n < vstd::arithmetic::power::pow(10, width),
    ensures
        zero_padded(decimal(m), width).len() == width,
        zero_padded(decimal(n), width).len() == width,
        0 <= i < width,
        parts_at(zero_padded(decimal(m), width), zero_padded(decimal(n), width), i),
    decreases width,
{
    lemma_numeral_len(m, 10, width);
    lemma_numeral_len(n, 10, width);
    if width == 1 {
        vstd::arithmetic::power::lemma_pow1(10);
        0
    } else {
        lemma_padded_last_digit(m, width);
        lemma_padded_last_digit(n, width);
        let x = zero_padded(decimal(m / 10), (width - 1) as nat);
        let y = zero_padded(decimal(n / 10), (width - 1) as nat);
        if m / 10 < n / 10 {
            let i = lemma_padded_in_order(m / 10, n / 10, (width - 1) as nat);
            assert(x.push(digit_char(m % 10))[i] == x[i]);
            assert(y.push(digit_char(n % 10))[i] == y[i]);
            i
        } else {
            assert(m / 10 == n / 10);
            width - 1
        }
    }
}

/// The digit character of `d`.
pub fn digit(d: u64) -> (c: char)
    requires
        d < 16,
    ensures
        c == digit_char(d as nat),
{
    match d {
        0 => '0',
        1 => '1',
        2 => '2',
        3 => '3',
        4 => '4',
        5 => '5',
        6 => '6',
        7 => '7',
        8 => '8',
        9 => '9',
        10 => 'a',
        11 => 'b',
        12 => 'c',
        13 => 'd',
        14 => 'e',
        _ => 'f',
    }
}

fn numeral_text(n: u64, base: u64) -> (s: String)
    requires
        2 <= base <= 16,
    ensures
        s@ == numeral(n as nat, base as nat),
    decreases n,
{
    if n < base {
        let mut out = String::new();
        out.push(digit(n));
        assert(out@ =~= numeral(n as nat, base as nat));
        out
    } else {
        proof {
            vstd::arithmetic::div_mod::lemma_div_decreases(n as int, base as int);
        }
        let mut out = numeral_text(n / base, base);
        let last: u64 = n % base;
        assert(last < base) by (nonlinear_arith)
            requires
                base > 0,
                last == n % base,
        ;
        out.push(digit(last));
        out
    }
}

/// The decimal numeral of a number.
pub fn decimal_text(n: u64) -> (s: String)
    ensures
        s@ == decimal(n as nat),
{
    numeral_text(n, 10)
}

/// The lower-case hexadecimal numeral of a number.
pub fn hex_text(n: u64) -> (s: String)
    ensures
        s@ == hexadecimal(n as nat),
{
    numeral_text(n, 16)
}

/// A text padded with zeros in front up to `width` characters.
pub fn pad_zeros(s: &str, width: usize) -> (p: String)
    ensures
        p@ == zero_padded(s@, width as nat),
{
    let len: usize = s.unicode_len();
    let mut out = String::new();
    let mut have: usize = len;
    while have < width
        invariant
            len == s@.len(),
            len <= have,
            have <= width || have == len,
            out@ == Seq::new((have - len) as nat, |i: int| '0'),
        decreases width - have,
    {
        out.push('0');
        have = have + 1;
        assert(Seq::new((have - len) as nat, |i: int| '0') =~= Seq::new(
            (have - 1 - len) as nat,
            |i: int| '0',
        ).push('0'));
    }
    out.append(s);
    assert(out@ =~= zero_padded(s@, width as nat));
    out
}

/// Whether `c` is white space: the characters with the Unicode `White_Space`
/// property.
pub open spec fn is_white_space(c: char) -> bool {
    ||| '\u{9}' <= c <= '\u{d}'
    ||| c == ' '
    ||| c == '\u{85}'
    ||| c == '\u{a0}'
    ||| c == '\u{1680}'
    ||| '\u{2000}' <= c <= '\u{200a}'
    ||| c == '\u{2028}'
    ||| c == '\u{2029}'
    ||| c == '\u{202f}'
    ||| c == '\u{205f}'
    ||| c == '\u{3000}'
}

/// Whether a text holds nothing but white space.
pub open spec fn is_blank(s: Seq<char>) -> bool {
    forall|i: int| 0 <= i < s.len() ==> is_white_space(#[trigger] s[i])
}

/// Whether a text is empty once the white space around it is cut off.
pub fn blank(s: &str) -> (b: bool)
    ensures
        b == is_blank(s@),
{
    for c in it: s.chars()
        invariant
            it.seq() == s@,
            forall|i: int| 0 <= i < it.index() ==> is_white_space(#[trigger] s@[i]),
    {
        let white: bool = ('\u{9}' <= c && c <= '\u{d}') || c == ' ' || c == '\u{85}' || c
            == '\u{a0}' || c == '\u{1680}' || ('\u{2000}' <= c && c <= '\u{200a}') || c
            == '\u{2028}' || c == '\u{2029}' || c == '\u{202f}' || c == '\u{205f}' || c
            == '\u{3000}';
        if !white {
            assert(!is_white_space(s@[it.index() as int]));
            return false;
        }
    }
    true
}

/// What a digit character stands for.
pub open spec fn digit_value(c: char) -> int {
    if '0' <= c <= '9' {
        c as int - '0' as int
    } else {
        c as int - 'a' as int + 10
    }
}

/// What a row of digits stands for in a base.
pub open spec fn numeral_value(s: Seq<char>, base: int) -> int
    decreases s.len(),
{
    if s.len() == 0 {
        0
    } else {
        numeral_value(s.drop_last(), base) * base + digit_value(s.last())
    }
}

/// A numeral, read as digits of its base, is the number it stands for; its digits
/// are lower-case digits of the base, and it has no zeros in front.
pub proof fn law_numerals_read_back(n: nat, base: nat)
    requires
        2 <= base <= 16,
    ensures
        numeral_value(numeral(n, base), base as int) == n,
        numeral(n, base).len() > 0,
        numeral(n, base).len() > 1 ==> numeral(n, base)[0] != '0',
        forall|i: int|
            0 <= i < numeral(n, base).len() ==> {
                let c = #[trigger] numeral(n, base)[i];
                ('0' <= c <= '9' || 'a' <= c <= 'f') && digit_value(c) < base
            },
    decreases n,
{
    reveal_with_fuel(numeral_value, 2);
    if n < base {
        assert(numeral(n, base).drop_last() =~= Seq::empty());
        assert(digit_value(digit_char(n)) == n);
    } else {
        vstd::arithmetic::div_mod::lemma_div_decreases(n as int, base as int);
        vstd::arithmetic::div_mod::lemma_mod_bound(n as int, base as int);
        vstd::arithmetic::div_mod::lemma_fundamental_div_mod(n as int, base as int);
        law_numerals_read_back(n / base, base);
        lemma_numeral_first_digit(n, base);
        let front = numeral(n / base, base);
        let last = digit_char(n % base);
        assert(numeral(n, base) == front.push(last));
        assert(front.push(last).drop_last() =~= front);
        assert(digit_value(last) == n % base);
        assert((n / base) * base == base * (n / base)) by (nonlinear_arith);
    }
}

/// Numbers are written as their numerals, decimal or hexadecimal.
pub proof fn law_numbers_are_written_as_numerals(n: u64, decimals: String, hex: String)
    requires
        call_ensures(decimal_text, (n,), decimals),
        call_ensures(hex_text, (n,), hex),
    ensures
        decimals@ == decimal(n as nat),
        hex@ == hexadecimal(n as nat),
        numeral_value(decimal(n as nat), 10) == n,
        numeral_value(hexadecimal(n as nat), 16) == n,
        decimal(n as nat).len() > 1 ==> decimal(n as nat)[0] != '0',
        hexadecimal(n as nat).len() > 1 ==> hexadecimal(n as nat)[0] != '0',
{
    law_numerals_read_back(n as nat, 10);
    law_numerals_read_back(n as nat, 16);
}

/// A padded text ends with the text and has nothing but zeros in front of it, as
/// many as it takes.
pub proof fn law_padding_puts_zeros_in_front(s: &str, width: usize, padded: String)
    requires
        call_ensures(pad_zeros, (s, width), padded),
    ensures
        padded@ == zero_padded(s@, width as nat),
        s@.len() >= width ==> padded@ == s@,
        s@.len() < width ==> padded@.len() == width,
        s@.is_suffix_of(padded@),
        forall|i: int| 0 <= i < padded@.len() - s@.len() ==> #[trigger] padded@[i] == '0',
{
    let p = padded@;
    assert(s@ =~= p.subrange(p.len() - s@.len(), p.len() as int));
}

/// A text is blank exactly where each of its characters is white space, one of
/// those with the Unicode property of that name.
pub proof fn law_blank_is_white_space_only(s: &str, b: bool, c: char)
    requires
        call_ensures(blank, (s,), b),
    ensures
        b <==> forall|i: int| 0 <= i < s@.len() ==> is_white_space(#[trigger] s@[i]),
        b == is_blank(s@),
        is_white_space(c) <==> {
            let n = c as int;
            ||| 9 <= n <= 13
            ||| n == 32
            ||| n == 133
            ||| n == 160
            ||| n == 5760
            ||| 8192 <= n <= 8202
            ||| n == 8232
            ||| n == 8233
            ||| n == 8239
            ||| n == 8287
            ||| n == 12288
        },
{
}

/// Texts are compared and put together character by character.
pub proof fn law_texts_are_taken_as_they_are(
    a: &str,
    b: &str,
    c: &str,
    same: bool,
    two: String,
    three: String,
)
    requires
        call_ensures(same_text, (a, b), same),
        call_ensures(join2, (a, b), two),
        call_ensures(join3, (a, b, c), three),
    ensures
        same <==> a@ == b@,
        two@ == a@ + b@,
        three@ == a@ + (b@ + c@),
{
    assert(a@ + b@ + c@ =~= a@ + (b@ + c@));
}

/// Zeros in front of digits do not change what they stand for.
pub proof fn lemma_leading_zeros(zeros: nat, s: Seq<char>, base: int)
    ensures
        numeral_value(Seq::new(zeros, |i: int| '0') + s, base) == numeral_value(s, base),
    decreases s.len(), zeros,
{
    let front = Seq::new(zeros, |i: int| '0');
    let all = front + s;
    if s.len() > 0 {
        lemma_leading_zeros(zeros, s.drop_last(), base);
        assert(all.drop_last() =~= front + s.drop_last());
    } else if zeros > 0 {
        lemma_leading_zeros((zeros - 1) as nat, s, base);
        assert(all.drop_last() =~= Seq::new((zeros - 1) as nat, |i: int| '0') + s);
        assert(all.last() == '0');
        assert(0int * base == 0);
    } else {
        assert(all =~= s);
    }
}

/// Characters and text are the same, taken one by one or together, and a digit
/// stands for its value.
pub proof fn law_characters_make_up_the_text(
    s: &str,
    chars: Vec<char>,
    list: &[char],
    text: String,
    d: u64,
    c: char,
)
    requires
        d < 16,
        call_ensures(chars_of, (s,), chars),
        call_ensures(text_of, (list,), text),
        call_ensures(digit, (d,), c),
    ensures
        chars@ == s@,
        text@ == list@,
        digit_value(c) == d,
        '0' <= c <= '9' || 'a' <= c <= 'f',
{
}

} // verus!
