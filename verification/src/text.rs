//! Text building blocks: decimal and hexadecimal digits, whitespace and
//! ASCII case as `std` defines them.

use vstd::prelude::*;

verus! {

/// The character of a decimal or hexadecimal digit value (lowercase).
pub open spec fn digit_char(d: nat) -> char {
    if d == 0 { '0' }
    else if d == 1 { '1' }
    else if d == 2 { '2' }
    else if d == 3 { '3' }
    else if d == 4 { '4' }
    else if d == 5 { '5' }
    else if d == 6 { '6' }
    else if d == 7 { '7' }
    else if d == 8 { '8' }
    else if d == 9 { '9' }
    else if d == 10 { 'a' }
    else if d == 11 { 'b' }
    else if d == 12 { 'c' }
    else if d == 13 { 'd' }
    else if d == 14 { 'e' }
    else { 'f' }
}

/// The decimal text of `n`, as `{}` formats an unsigned integer.
pub open spec fn decimal(n: nat) -> Seq<char>
    decreases n,
{
    if n < 10 {
        seq![digit_char(n)]
    } else {
        decimal(n / 10).push(digit_char(n % 10))
    }
}

/// The last `width` hexadecimal digits of `n`, most significant first.
pub open spec fn hex_digits(n: nat, width: nat) -> Seq<char>
    decreases width,
{
    if width == 0 {
        Seq::empty()
    } else {
        hex_digits(n / 16, (width - 1) as nat).push(digit_char(n % 16))
    }
}

pub proof fn lemma_hex_digits_len(n: nat, width: nat)
    ensures
        hex_digits(n, width).len() == width,
    decreases width,
{
    if width > 0 {
        lemma_hex_digits_len(n / 16, (width - 1) as nat);
    }
}

/// The value of a digit character: `0`..`9` count 0..9, `a`..`f` count
/// 10..15.
pub open spec fn digit_value(c: char) -> int {
    if 0x61 <= (c as u32) {
        (c as u32) - 0x61 + 10
    } else {
        (c as u32) - 0x30
    }
}

/// Whether `c` is a digit of `base` (10 or 16, lowercase).
pub open spec fn is_digit_of(c: char, base: nat) -> bool {
    ||| (0x30 <= (c as u32) && (c as u32) <= 0x39)
    ||| (base == 16 && 0x61 <= (c as u32) && (c as u32) <= 0x66)
}

/// The number that a numeral in `base` reads as, most significant digit
/// first.
pub open spec fn numeral_value(s: Seq<char>, base: nat) -> int
    decreases s.len(),
{
    if s.len() == 0 {
        0
    } else {
        numeral_value(s.drop_last(), base) * base + digit_value(s.last())
    }
}

/// `16` to the power `w`.
pub open spec fn pow16(w: nat) -> nat
    decreases w,
{
    if w == 0 {
        1
    } else {
        16 * pow16((w - 1) as nat)
    }
}

proof fn lemma_digit_char_value(d: nat)
    requires
        d < 16,
    ensures
        digit_value(digit_char(d)) == d,
        is_digit_of(digit_char(d), 16),
        d < 10 ==> is_digit_of(digit_char(d), 10),
        d > 0 ==> digit_char(d) != '0',
{
}

/// Appending one digit is the base-10 step: the numeral of `n` is the
/// numeral of `n / 10` followed by the digit `n % 10`.
pub proof fn lemma_decimal_step(n: nat)
    requires
        n >= 10,
    ensures
        decimal(n) == decimal(n / 10).push(digit_char(n % 10)),
{
}

/// `decimal(n)` is the base-10 numeral of `n`: it is made of decimal digits,
/// has no leading zero, and reads back as `n`.
pub proof fn lemma_decimal_reads_back(n: nat)
    ensures
        numeral_value(decimal(n), 10) == n,
        decimal(n).len() > 0,
        forall|i: int| 0 <= i < decimal(n).len() ==> is_digit_of(#[trigger] decimal(n)[i], 10),
        decimal(n)[0] == '0' ==> n == 0,
    decreases n,
{
    if n < 10 {
        lemma_digit_char_value(n);
        assert(decimal(n).drop_last() =~= Seq::<char>::empty());
        assert(numeral_value(Seq::<char>::empty(), 10) == 0);
        assert(numeral_value(decimal(n), 10) == numeral_value(decimal(n).drop_last(), 10) * 10
            + digit_value(decimal(n).last()));
    } else {
        lemma_decimal_reads_back(n / 10);
        lemma_digit_char_value(n % 10);
        let d = decimal(n);
        assert(d.drop_last() =~= decimal(n / 10));
        assert(d.last() == digit_char(n % 10));
        assert(numeral_value(d, 10) == (n / 10) * 10 + n % 10);
        assert forall|i: int| 0 <= i < d.len() implies is_digit_of(#[trigger] d[i], 10) by {
            if i < d.len() - 1 {
                assert(d[i] == decimal(n / 10)[i]);
            }
        }
        assert(d[0] == decimal(n / 10)[0]);
    }
}

/// `hex_digits(n, w)` is the `w`-digit hexadecimal numeral of `n` modulo
/// `16^w`: `w` hex digits that read back as `n % 16^w`.
pub proof fn lemma_hex_digits_read_back(n: nat, w: nat)
    ensures
        hex_digits(n, w).len() == w,
        numeral_value(hex_digits(n, w), 16) == n % pow16(w),
        forall|i: int| 0 <= i < w ==> is_digit_of(#[trigger] hex_digits(n, w)[i], 16),
    decreases w,
{
    if w == 0 {
        assert(n % 1 == 0);
    } else {
        let p = pow16((w - 1) as nat);
        lemma_hex_digits_read_back(n / 16, (w - 1) as nat);
        lemma_digit_char_value(n % 16);
        let h = hex_digits(n, w);
        assert(h.drop_last() =~= hex_digits(n / 16, (w - 1) as nat));
        assert(numeral_value(h, 16) == numeral_value(h.drop_last(), 16) * 16 + digit_value(h.last()));
        assert(h.last() == digit_char(n % 16));
        let r: int = (n / 16) as int % p as int;
        assert(numeral_value(h.drop_last(), 16) == r);
        assert(numeral_value(h, 16) == r * 16 + n % 16);
        assert(p > 0) by {
            lemma_pow16_positive((w - 1) as nat);
        }
        vstd::arithmetic::div_mod::lemma_mod_breakdown(n as int, 16, p as int);
        assert(16 * r == r * 16);
        assert forall|i: int| 0 <= i < w implies is_digit_of(#[trigger] h[i], 16) by {
            if i < w - 1 {
                assert(h[i] == hex_digits(n / 16, (w - 1) as nat)[i]);
            }
        }
    }
}

proof fn lemma_pow16_positive(w: nat)
    ensures
        pow16(w) > 0,
    decreases w,
{
    if w > 0 {
        lemma_pow16_positive((w - 1) as nat);
    }
}

/// Sixteen hex digits hold every `u64`: they read back as the number itself.
pub proof fn lemma_hex16_reads_back(n: u64)
    ensures
        hex_digits(n as nat, 16).len() == 16,
        numeral_value(hex_digits(n as nat, 16), 16) == n,
{
    lemma_hex_digits_read_back(n as nat, 16);
    assert(pow16(16) == 0x1_0000_0000_0000_0000) by {
        reveal_with_fuel(pow16, 17);
    }
}

/// `char::is_whitespace`: the code points of the Unicode `White_Space`
/// property.
pub open spec fn is_space(c: char) -> bool {
    let u = c as u32;
    ||| (0x9 <= u && u <= 0xd)
    ||| u == 0x20
    ||| u == 0x85
    ||| u == 0xa0
    ||| u == 0x1680
    ||| (0x2000 <= u && u <= 0x200a)
    ||| u == 0x2028
    ||| u == 0x2029
    ||| u == 0x202f
    ||| u == 0x205f
    ||| u == 0x3000
}

/// `char::to_ascii_lowercase`: `A`..=`Z` become `a`..=`z`, every other
/// character stays.
pub open spec fn ascii_lower(c: char) -> char {
    if 0x41 <= (c as u32) && (c as u32) <= 0x5a {
        ((c as u32) + 32) as char
    } else {
        c
    }
}

/// `s` without its leading whitespace.
pub open spec fn trim_start(s: Seq<char>) -> Seq<char>
    decreases s.len(),
{
    if s.len() > 0 && is_space(s[0]) {
        trim_start(s.drop_first())
    } else {
        s
    }
}

/// `s` without its trailing whitespace.
pub open spec fn trim_end(s: Seq<char>) -> Seq<char>
    decreases s.len(),
{
    if s.len() > 0 && is_space(s.last()) {
        trim_end(s.drop_last())
    } else {
        s
    }
}

/// `str::trim`: `s` without leading and trailing whitespace.
pub open spec fn trim(s: Seq<char>) -> Seq<char> {
    trim_end(trim_start(s))
}

/// Every character of `s` is whitespace.
pub open spec fn all_space(s: Seq<char>) -> bool {
    forall|i: int| 0 <= i < s.len() ==> is_space(#[trigger] s[i])
}

/// Leading whitespace does not survive `trim_start`.
pub proof fn lemma_trim_start_skips(pre: Seq<char>, s: Seq<char>)
    requires
        all_space(pre),
    ensures
        trim_start(pre + s) == trim_start(s),
    decreases pre.len(),
{
    if pre.len() > 0 {
        assert((pre + s)[0] == pre[0]);
        assert((pre + s).drop_first() =~= pre.drop_first() + s);
        lemma_trim_start_skips(pre.drop_first(), s);
    } else {
        assert(pre + s =~= s);
    }
}

/// Trailing whitespace does not survive `trim_end`.
pub proof fn lemma_trim_end_skips(s: Seq<char>, post: Seq<char>)
    requires
        all_space(post),
    ensures
        trim_end(s + post) == trim_end(s),
    decreases post.len(),
{
    if post.len() > 0 {
        assert((s + post).last() == post.last());
        assert((s + post).drop_last() =~= s + post.drop_last());
        lemma_trim_end_skips(s, post.drop_last());
    } else {
        assert(s + post =~= s);
    }
}

/// `trim_start` keeps a suffix of its input, from its first non-space
/// character on.
pub proof fn lemma_trim_start_suffix(s: Seq<char>, post: Seq<char>)
    ensures
        trim_start(s + post) == trim_start(s) + post || (all_space(s) && trim_start(s + post)
            == trim_start(post)),
    decreases s.len(),
{
    if s.len() == 0 {
        assert(s + post =~= post);
    } else if is_space(s[0]) {
        assert((s + post)[0] == s[0]);
        assert((s + post).drop_first() =~= s.drop_first() + post);
        lemma_trim_start_suffix(s.drop_first(), post);
        if all_space(s.drop_first()) {
            assert forall|i: int| 0 <= i < s.len() implies is_space(#[trigger] s[i]) by {
                if i > 0 {
                    assert(s[i] == s.drop_first()[i - 1]);
                }
            }
        }
    } else {
        assert((s + post)[0] == s[0]);
    }
}

proof fn lemma_trim_start_shape(s: Seq<char>) -> (a: int)
    ensures
        0 <= a <= s.len(),
        trim_start(s) == s.subrange(a, s.len() as int),
        all_space(s.subrange(0, a)),
        a < s.len() ==> !is_space(s[a]),
    decreases s.len(),
{
    if s.len() > 0 && is_space(s[0]) {
        let a1 = lemma_trim_start_shape(s.drop_first());
        assert(s.drop_first().subrange(a1, s.len() - 1) =~= s.subrange(a1 + 1, s.len() as int));
        assert forall|i: int| 0 <= i < a1 + 1 implies is_space(#[trigger] s.subrange(0, a1 + 1)[i]) by {
            if i > 0 {
                assert(s.subrange(0, a1 + 1)[i] == s.drop_first().subrange(0, a1)[i - 1]);
            }
        }
        if a1 + 1 < s.len() {
            assert(s[a1 + 1] == s.drop_first()[a1]);
        }
        a1 + 1
    } else {
        assert(s.subrange(0, s.len() as int) =~= s);
        0
    }
}

proof fn lemma_trim_end_shape(s: Seq<char>) -> (b: int)
    ensures
        0 <= b <= s.len(),
        trim_end(s) == s.subrange(0, b),
        all_space(s.subrange(b, s.len() as int)),
        b > 0 ==> !is_space(s[b - 1]),
    decreases s.len(),
{
    if s.len() > 0 && is_space(s.last()) {
        let b1 = lemma_trim_end_shape(s.drop_last());
        assert(s.drop_last().subrange(0, b1) =~= s.subrange(0, b1));
        assert forall|i: int| 0 <= i < s.len() - b1 implies is_space(
            #[trigger] s.subrange(b1, s.len() as int)[i],
        ) by {
            if b1 + i < s.len() - 1 {
                assert(s.subrange(b1, s.len() as int)[i] == s.drop_last().subrange(
                    b1,
                    s.len() - 1,
                )[i]);
            }
        }
        if b1 > 0 {
            assert(s[b1 - 1] == s.drop_last()[b1 - 1]);
        }
        b1
    } else {
        assert(s.subrange(0, s.len() as int) =~= s);
        assert(s.subrange(s.len() as int, s.len() as int) =~= Seq::<char>::empty());
        s.len() as int
    }
}

/// `str::trim` keeps the stretch of `s` between its leading and trailing
/// whitespace: everything removed is whitespace, and what is kept neither
/// starts nor ends with whitespace.
pub proof fn lemma_trim_keeps_the_middle(s: Seq<char>)
    ensures
        exists|a: int, b: int|
            {
                &&& 0 <= a <= b <= s.len()
                &&& trim(s) == s.subrange(a, b)
                &&& all_space(s.subrange(0, a))
                &&& all_space(s.subrange(b, s.len() as int))
                &&& a < b ==> !is_space(s[a]) && !is_space(s[b - 1])
            },
{
    let a = lemma_trim_start_shape(s);
    let m = s.subrange(a, s.len() as int);
    let c = lemma_trim_end_shape(m);
    let b = a + c;
    assert(m.subrange(0, c) =~= s.subrange(a, b));
    assert forall|i: int| 0 <= i < s.len() - b implies is_space(#[trigger] s.subrange(b, s.len() as int)[i]) by {
        assert(s.subrange(b, s.len() as int)[i] == m.subrange(c, m.len() as int)[i]);
    }
    if a < b {
        assert(s[b - 1] == m[c - 1]);
    }
    assert(trim(s) == trim_end(m));
    assert(trim(s) == s.subrange(a, b));
    assert(all_space(s.subrange(b, s.len() as int)));
    assert(a < b ==> !is_space(s[a]) && !is_space(s[b - 1]));
    assert({
        &&& 0 <= a <= b <= s.len()
        &&& trim(s) == s.subrange(a, b)
        &&& all_space(s.subrange(0, a))
        &&& all_space(s.subrange(b, s.len() as int))
        &&& a < b ==> !is_space(s[a]) && !is_space(s[b - 1])
    });
}

/// Whitespace around a text does not change what `str::trim` leaves of it.
pub proof fn lemma_trim_ignores_padding(pre: Seq<char>, s: Seq<char>, post: Seq<char>)
    requires
        all_space(pre),
        all_space(post),
    ensures
        trim(pre + s + post) == trim(s),
{
    assert(pre + s + post =~= pre + (s + post));
    lemma_trim_start_skips(pre, s + post);
    lemma_trim_start_suffix(s, post);
    if trim_start(s + post) == trim_start(s) + post {
        lemma_trim_end_skips(trim_start(s), post);
    } else {
        // `s` is all whitespace, so both sides trim to nothing.
        lemma_trim_start_skips(s, Seq::<char>::empty());
        assert(s + Seq::<char>::empty() =~= s);
        lemma_trim_start_skips(post, Seq::<char>::empty());
        assert(post + Seq::<char>::empty() =~= post);
        assert(trim_start(Seq::<char>::empty()) == Seq::<char>::empty());
    }
}

/// `str::to_ascii_lowercase`.
pub open spec fn lower(s: Seq<char>) -> Seq<char> {
    s.map_values(|c: char| ascii_lower(c))
}

/// Lowercasing changes only `A`..=`Z`, each to the letter 32 code points on
/// (its lowercase form), and keeps the length.
pub proof fn lemma_lower_changes_only_capitals(s: Seq<char>)
    ensures
        lower(s).len() == s.len(),
        forall|i: int|
            0 <= i < s.len() ==> {
                &&& (0x41 <= (s[i] as u32) && (s[i] as u32) <= 0x5a) ==> (#[trigger] lower(s)[i]
                    as u32) == (s[i] as u32) + 32
                &&& !(0x41 <= (s[i] as u32) && (s[i] as u32) <= 0x5a) ==> lower(s)[i] == s[i]
            },
{
}

/// Lowercasing is idempotent.
pub proof fn lemma_lower_idempotent(s: Seq<char>)
    ensures
        lower(lower(s)) == lower(s),
{
    assert forall|i: int| 0 <= i < s.len() implies #[trigger] lower(lower(s))[i] == lower(s)[i] by {
        let c = s[i];
        if 0x41 <= (c as u32) && (c as u32) <= 0x5a {
            assert(ascii_lower(c) as u32 == c as u32 + 32);
        }
    }
    assert(lower(lower(s)) =~= lower(s));
}

/// Lowercasing keeps whitespace whitespace and everything else not.
pub proof fn lemma_lower_keeps_space(c: char)
    ensures
        is_space(ascii_lower(c)) == is_space(c),
{
    if 0x41 <= (c as u32) && (c as u32) <= 0x5a {
        assert(ascii_lower(c) as u32 == c as u32 + 32);
    }
}

/// Trimming and lowercasing commute.
pub proof fn lemma_trim_lower_commute(s: Seq<char>)
    ensures
        trim(lower(s)) == lower(trim(s)),
{
    lemma_trim_start_lower(s);
    lemma_trim_end_lower(trim_start(s));
}

proof fn lemma_trim_start_lower(s: Seq<char>)
    ensures
        trim_start(lower(s)) == lower(trim_start(s)),
    decreases s.len(),
{
    if s.len() > 0 {
        lemma_lower_keeps_space(s[0]);
        assert(lower(s)[0] == ascii_lower(s[0]));
        assert(lower(s).drop_first() =~= lower(s.drop_first()));
        lemma_trim_start_lower(s.drop_first());
    }
}

proof fn lemma_trim_end_lower(s: Seq<char>)
    ensures
        trim_end(lower(s)) == lower(trim_end(s)),
    decreases s.len(),
{
    if s.len() > 0 {
        lemma_lower_keeps_space(s.last());
        assert(lower(s).last() == ascii_lower(s.last()));
        assert(lower(s).drop_last() =~= lower(s.drop_last()));
        lemma_trim_end_lower(s.drop_last());
    }
}

pub fn is_space_char(c: char) -> (b: bool)
    ensures
        b == is_space(c),
{
    let u = c as u32;
    (0x9 <= u && u <= 0xd) || u == 0x20 || u == 0x85 || u == 0xa0 || u == 0x1680 || (0x2000 <= u
        && u <= 0x200a) || u == 0x2028 || u == 0x2029 || u == 0x202f || u == 0x205f || u == 0x3000
}

pub fn lower_char(c: char) -> (r: char)
    ensures
        r == ascii_lower(c),
{
    let u = c as u32;
    if 0x41 <= u && u <= 0x5a {
        let b: u8 = (c as u8) + 32;
        let r = b as char;
        assert(r as u32 == u + 32);
        r
    } else {
        c
    }
}

/// `str::to_ascii_lowercase` of `str::trim`, on characters.
pub fn trim_lower(s: &Vec<char>) -> (r: Vec<char>)
    ensures
        r@ == lower(trim(s@)),
{
    let len = s.len();
    let mut a: usize = 0;
    assert(s@.subrange(0, len as int) =~= s@);
    while a < len && is_space_char(s[a])
        invariant
            a <= len == s@.len(),
            trim_start(s@) == trim_start(s@.subrange(a as int, len as int)),
        decreases len - a,
    {
        assert(s@.subrange(a as int, len as int).drop_first() =~= s@.subrange(
            a + 1,
            len as int,
        ));
        a = a + 1;
    }
    let mut b: usize = len;
    while b > a && is_space_char(s[b - 1])
        invariant
            a <= b <= len == s@.len(),
            trim_start(s@) == s@.subrange(a as int, len as int),
            trim_end(s@.subrange(a as int, len as int)) == trim_end(s@.subrange(a as int, b as int)),
        decreases b - a,
    {
        assert(s@.subrange(a as int, b as int).drop_last() =~= s@.subrange(a as int, b - 1));
        b = b - 1;
    }
    assert(trim(s@) == s@.subrange(a as int, b as int));
    let mut r: Vec<char> = Vec::new();
    let mut i: usize = a;
    while i < b
        invariant
            a <= i <= b <= len == s@.len(),
            r@ == lower(s@.subrange(a as int, i as int)),
        decreases b - i,
    {
        r.push(lower_char(s[i]));
        assert(lower(s@.subrange(a as int, i + 1)) =~= lower(s@.subrange(a as int, i as int)).push(
            ascii_lower(s@[i as int]),
        ));
        i = i + 1;
    }
    r
}

/// Whether `v` holds exactly the characters of `lit`.
pub fn same_text(v: &Vec<char>, lit: &str) -> (r: bool)
    ensures
        r == (v@ == lit@),
{
    let n = lit.unicode_len();
    if v.len() != n {
        return false;
    }
    let mut i: usize = 0;
    while i < n
        invariant
            i <= n == v@.len() == lit@.len(),
            forall|j: int| 0 <= j < i ==> v@[j] == lit@[j],
        decreases n - i,
    {
        if v[i] != lit.get_char(i) {
            return false;
        }
        i = i + 1;
    }
    assert(v@ =~= lit@);
    true
}

/// The one-character text of a digit value below 16.
pub fn digit_str(d: u64) -> (s: &'static str)
    requires
        d < 16,
    ensures
        s@ == seq![digit_char(d as nat)],
{
    proof {
        reveal_strlit("0"); reveal_strlit("1"); reveal_strlit("2"); reveal_strlit("3");
        reveal_strlit("4"); reveal_strlit("5"); reveal_strlit("6"); reveal_strlit("7");
        reveal_strlit("8"); reveal_strlit("9"); reveal_strlit("a"); reveal_strlit("b");
        reveal_strlit("c"); reveal_strlit("d"); reveal_strlit("e"); reveal_strlit("f");
    }
    match d {
        0 => "0",
        1 => "1",
        2 => "2",
        3 => "3",
        4 => "4",
        5 => "5",
        6 => "6",
        7 => "7",
        8 => "8",
        9 => "9",
        10 => "a",
        11 => "b",
        12 => "c",
        13 => "d",
        14 => "e",
        _ => "f",
    }
}

/// Appends the decimal text of `n`.
pub fn push_decimal(out: &mut String, n: u64)
    ensures
        final(out)@ == old(out)@ + decimal(n as nat),
    decreases n,
{
    if n >= 10 {
        push_decimal(out, n / 10);
    }
    out.append(digit_str(n % 10));
    proof {
        if n < 10 {
            assert(decimal(n as nat) == seq![digit_char(n as nat)]);
        }
    }
    assert(final(out)@ =~= old(out)@ + decimal(n as nat)) by {
        if n >= 10 {
            assert(decimal(n as nat) == decimal((n / 10) as nat).push(digit_char((n % 10) as nat)));
        }
    }
}

/// Appends the last `width` hexadecimal digits of `n`.
pub fn push_hex(out: &mut String, n: u64, width: u64)
    ensures
        final(out)@ == old(out)@ + hex_digits(n as nat, width as nat),
    decreases width,
{
    if width > 0 {
        push_hex(out, n / 16, width - 1);
        out.append(digit_str(n % 16));
        assert(hex_digits(n as nat, width as nat) == hex_digits((n / 16) as nat, (width - 1) as nat).push(digit_char((n % 16) as nat)));
    }
    assert(final(out)@ =~= old(out)@ + hex_digits(n as nat, width as nat));
}

/// The characters of `s`, in order.
pub fn chars_of(s: &str) -> (v: Vec<char>)
    ensures
        v@ == s@,
{
    broadcast use vstd::string::group_string_axioms;

    let mut v: Vec<char> = Vec::new();
    for c in it: s.chars()
        invariant
            v@ == it.seq().take(it.index() as int),
            it.seq() == s@,
    {
        v.push(c);
    }
    assert(v@ =~= s@);
    v
}

} // verus!
