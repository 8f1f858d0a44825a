//! Character-level helpers shared by the rest of the library: prefix tests,
//! repeated-prefix stripping, whitespace trimming, substring replacement and
//! the decimal and hexadecimal renderings the application prints.

use vstd::prelude::*;

verus! {

/// Appends one character to a string (`String::push`): the string afterwards
/// is the old one followed by `c`.
#[verifier::external_body]
pub(crate) fn push_char(s: &mut String, c: char)
    ensures
        final(s)@ == old(s)@.push(c),
{
    s.push(c);
}

/// Appends a string slice to a string (`String::push_str`).
#[verifier::external_body]
pub(crate) fn push_str(s: &mut String, t: &str)
    ensures
        final(s)@ == old(s)@ + t@,
{
    s.push_str(t);
}

/// `s` begins with `p`.
pub open spec fn has_prefix(s: Seq<char>, p: Seq<char>) -> bool {
    p.len() <= s.len() && s.take(p.len() as int) == p
}

/// `s` ends with `p`.
pub open spec fn has_suffix(s: Seq<char>, p: Seq<char>) -> bool {
    p.len() <= s.len() && s.skip(s.len() - p.len()) == p
}

/// The characters of `s`, in order.
pub fn chars_of(s: &str) -> (res: Vec<char>)
    ensures
        res@ == s@,
{
    let mut res: Vec<char> = Vec::new();
    for c in it: s.chars()
        invariant
            res@ == it.seq().take(it.index() as int),
            it.seq() == s@,
    {
        res.push(c);
    }
    res
}

/// A string holding exactly the characters `cs`.
pub fn string_of(cs: &Vec<char>) -> (res: String)
    ensures
        res@ == cs@,
{
    let mut res = String::new();
    let mut i: usize = 0;
    while i < cs.len()
        invariant
            i <= cs.len(),
            res@ == cs@.take(i as int),
        decreases cs.len() - i,
    {
        push_char(&mut res, cs[i]);
        i = i + 1;
        assert(res@ == cs@.take(i as int));
    }
    assert(cs@.take(cs.len() as int) == cs@);
    res
}

/// Whether `s` begins with `p`.
pub fn starts_with(s: &str, p: &str) -> (res: bool)
    ensures
        res == has_prefix(s@, p@),
{
    let sc = chars_of(s);
    let pc = chars_of(p);
    assert(sc@.skip(0) =~= sc@);
    occurs_at(&sc, 0, &pc)
}

/// Whether `pat` occurs in `s` starting at position `i`.
pub fn occurs_at(s: &Vec<char>, i: usize, pat: &Vec<char>) -> (res: bool)
    requires
        i <= s.len(),
    ensures
        res == has_prefix(s@.skip(i as int), pat@),
{
    if pat.len() > s.len() - i {
        return false;
    }
    let mut k: usize = 0;
    while k < pat.len()
        invariant
            k <= pat.len(),
            i + pat.len() <= s.len(),
            forall|j: int| 0 <= j < k ==> s@[i + j] == pat@[j],
        decreases pat.len() - k,
    {
        if s[i + k] != pat[k] {
            assert(s@.skip(i as int).take(pat.len() as int)[k as int] != pat@[k as int]);
            return false;
        }
        k = k + 1;
    }
    assert(s@.skip(i as int).take(pat.len() as int) =~= pat@);
    true
}

/// `pat` occurs somewhere in `s`.
pub open spec fn occurs_in(s: Seq<char>, pat: Seq<char>) -> bool {
    exists|i: int| 0 <= i <= s.len() && #[trigger] has_prefix(s.skip(i), pat)
}

/// Whether `pat` occurs somewhere in `s`.
pub fn contains(s: &Vec<char>, pat: &Vec<char>) -> (res: bool)
    ensures
        res == occurs_in(s@, pat@),
{
    let mut i: usize = 0;
    while i < s.len()
        invariant
            i <= s.len(),
            forall|j: int| 0 <= j < i ==> !#[trigger] has_prefix(s@.skip(j), pat@),
        decreases s.len() - i,
    {
        if occurs_at(s, i, pat) {
            return true;
        }
        i = i + 1;
    }
    occurs_at(s, i, pat)
}

/// `s` with every prefix copy of `p` removed from its front, as many times as
/// it occurs there (`str::trim_start_matches` with a string pattern).
pub open spec fn strip_leading(s: Seq<char>, p: Seq<char>) -> Seq<char>
    decreases s.len(),
{
    if p.len() > 0 && has_prefix(s, p) {
        strip_leading(s.skip(p.len() as int), p)
    } else {
        s
    }
}

/// Removes every leading copy of `p` from `s`.
pub fn strip_leading_all(s: &Vec<char>, p: &Vec<char>) -> (res: Vec<char>)
    ensures
        res@ == strip_leading(s@, p@),
{
    let mut i: usize = 0;
    if p.len() == 0 {
        return s.clone();
    }
    assert(s@.skip(0) =~= s@);
    while occurs_at(s, i, p)
        invariant
            i <= s.len(),
            p.len() > 0,
            strip_leading(s@, p@) == strip_leading(s@.skip(i as int), p@),
        decreases s.len() - i,
    {
        assert(s@.skip(i as int).skip(p.len() as int) =~= s@.skip(i + p.len()));
        i = i + p.len();
    }
    let mut res: Vec<char> = Vec::new();
    let mut j: usize = i;
    while j < s.len()
        invariant
            i <= j <= s.len(),
            res@ == s@.subrange(i as int, j as int),
        decreases s.len() - j,
    {
        res.push(s[j]);
        j = j + 1;
    }
    assert(res@ =~= s@.skip(i as int));
    res
}

/// Unicode `White_Space`, the property that `char::is_whitespace` and
/// `str::trim` go by.
pub open spec fn is_white_space(c: char) -> bool {
    let u = c as u32;
    (0x09 <= u && u <= 0x0D) || u == 0x20 || u == 0x85 || u == 0xA0 || u == 0x1680
        || (0x2000 <= u && u <= 0x200A) || u == 0x2028 || u == 0x2029 || u == 0x202F
        || u == 0x205F || u == 0x3000
}

/// Whether `c` is Unicode white space.
pub fn white_space(c: char) -> (res: bool)
    ensures
        res == is_white_space(c),
{
    let u = c as u32;
    (0x09 <= u && u <= 0x0D) || u == 0x20 || u == 0x85 || u == 0xA0 || u == 0x1680
        || (0x2000 <= u && u <= 0x200A) || u == 0x2028 || u == 0x2029 || u == 0x202F
        || u == 0x205F || u == 0x3000
}

/// `s` without its leading white space.
pub open spec fn trim_front(s: Seq<char>) -> Seq<char>
    decreases s.len(),
{
    if s.len() > 0 && is_white_space(s[0]) {
        trim_front(s.drop_first())
    } else {
        s
    }
}

/// `s` without its trailing white space.
pub open spec fn trim_back(s: Seq<char>) -> Seq<char>
    decreases s.len(),
{
    if s.len() > 0 && is_white_space(s.last()) {
        trim_back(s.drop_last())
    } else {
        s
    }
}

/// `s` without leading and trailing white space (`str::trim`).
pub open spec fn trimmed(s: Seq<char>) -> Seq<char> {
    trim_back(trim_front(s))
}

/// Removes leading and trailing white space.
pub fn trim(s: &Vec<char>) -> (res: Vec<char>)
    ensures
        res@ == trimmed(s@),
{
    let mut a: usize = 0;
    assert(s@.skip(0) =~= s@);
    while a < s.len() && white_space(s[a])
        invariant
            a <= s.len(),
            trim_front(s@) == trim_front(s@.skip(a as int)),
        decreases s.len() - a,
    {
        assert(s@.skip(a as int).drop_first() =~= s@.skip(a + 1));
        a = a + 1;
    }
    let ghost front = s@.skip(a as int);
    assert(trim_front(front) == front);
    let mut b: usize = s.len();
    while b > a && white_space(s[b - 1])
        invariant
            a <= b <= s.len(),
            trim_back(front) == trim_back(s@.subrange(a as int, b as int)),
        decreases b,
    {
        assert(s@.subrange(a as int, b as int).drop_last() =~= s@.subrange(a as int, b - 1));
        b = b - 1;
    }
    assert(front =~= s@.subrange(a as int, s.len() as int));
    let mut res: Vec<char> = Vec::new();
    let mut j: usize = a;
    while j < b
        invariant
            a <= j <= b,
            b <= s.len(),
            res@ == s@.subrange(a as int, j as int),
        decreases b - j,
    {
        res.push(s[j]);
        j = j + 1;
    }
    res
}

/// `s` with every occurrence of `pat`, taken from left to right without
/// overlap, replaced by `rep` (`str::replace` with a non-empty pattern).
pub open spec fn replaced(s: Seq<char>, pat: Seq<char>, rep: Seq<char>) -> Seq<char>
    decreases s.len(),
{
    if s.len() == 0 {
        Seq::empty()
    } else if pat.len() > 0 && has_prefix(s, pat) {
        rep + replaced(s.skip(pat.len() as int), pat, rep)
    } else {
        seq![s[0]] + replaced(s.drop_first(), pat, rep)
    }
}

/// Replaces every occurrence of `pat` in `s` by `rep`.
pub fn replace_all(s: &Vec<char>, pat: &Vec<char>, rep: &Vec<char>) -> (res: Vec<char>)
    requires
        pat.len() > 0,
    ensures
        res@ == replaced(s@, pat@, rep@),
{
    let mut res: Vec<char> = Vec::new();
    let mut i: usize = 0;
    assert(s@.skip(0) =~= s@);
    while i < s.len()
        invariant
            i <= s.len(),
            pat.len() > 0,
            replaced(s@, pat@, rep@) == res@ + replaced(s@.skip(i as int), pat@, rep@),
        decreases s.len() - i,
    {
        let ghost rest = s@.skip(i as int);
        if occurs_at(s, i, pat) {
            assert(rest.skip(pat.len() as int) =~= s@.skip(i + pat.len()));
            let mut k: usize = 0;
            let ghost before = res@;
            while k < rep.len()
                invariant
                    k <= rep.len(),
                    res@ == before + rep@.take(k as int),
                decreases rep.len() - k,
            {
                res.push(rep[k]);
                k = k + 1;
                assert(res@ =~= before + rep@.take(k as int));
            }
            assert(rep@.take(rep.len() as int) =~= rep@);
            assert(before + (rep@ + replaced(s@.skip(i + pat.len()), pat@, rep@)) =~= res@
                + replaced(s@.skip(i + pat.len()), pat@, rep@));
            i = i + pat.len();
        } else {
            assert(rest.drop_first() =~= s@.skip(i + 1));
            let ghost before = res@;
            res.push(s[i]);
            assert(before + (seq![s@[i as int]] + replaced(s@.skip(i + 1), pat@, rep@)) =~= res@
                + replaced(s@.skip(i + 1), pat@, rep@));
            i = i + 1;
        }
    }
    assert(res@ + replaced(s@.skip(i as int), pat@, rep@) =~= res@);
    res
}

/// The character that writes the digit `d` (`0`-`9`, then `A`-`F`).
pub open spec fn digit_char(d: nat) -> char {
    if d == 0 { '0' } else if d == 1 { '1' } else if d == 2 { '2' } else if d == 3 { '3' }
    else if d == 4 { '4' } else if d == 5 { '5' } else if d == 6 { '6' } else if d == 7 { '7' }
    else if d == 8 { '8' } else if d == 9 { '9' } else if d == 10 { 'A' } else if d == 11 { 'B' }
    else if d == 12 { 'C' } else if d == 13 { 'D' } else if d == 14 { 'E' } else { 'F' }
}

/// The digit character for `d`.
pub fn digit(d: u64) -> (c: char)
    requires
        d < 16,
    ensures
        c == digit_char(d as nat),
{
    if d == 0 { '0' } else if d == 1 { '1' } else if d == 2 { '2' } else if d == 3 { '3' }
    else if d == 4 { '4' } else if d == 5 { '5' } else if d == 6 { '6' } else if d == 7 { '7' }
    else if d == 8 { '8' } else if d == 9 { '9' } else if d == 10 { 'A' } else if d == 11 { 'B' }
    else if d == 12 { 'C' } else if d == 13 { 'D' } else if d == 14 { 'E' } else { 'F' }
}

/// The decimal digits of `n`, most significant first, without leading zeros.
pub open spec fn digits(n: nat) -> Seq<char>
    decreases n,
{
    if n < 10 {
        seq![digit_char(n)]
    } else {
        digits(n / 10).push(digit_char(n % 10))
    }
}

/// `n` in decimal, with a leading `-` when negative (the `Display` of an
/// integer).
pub open spec fn decimal(n: int) -> Seq<char> {
    if n < 0 {
        seq!['-'] + digits((-n) as nat)
    } else {
        digits(n as nat)
    }
}

/// `n` in decimal, padded on the left with zeros to at least two digits
/// (the `{:02}` rendering of a non-negative integer).
pub open spec fn two_digit(n: nat) -> Seq<char> {
    if n < 10 {
        seq!['0'] + digits(n)
    } else {
        digits(n)
    }
}

/// `n` as two upper-case hexadecimal digits (the `{:02X}` rendering of a byte).
pub open spec fn hex_byte(n: u8) -> Seq<char> {
    seq![digit_char((n / 16) as nat), digit_char((n % 16) as nat)]
}

/// Appends the decimal digits of `n`.
pub fn push_digits(s: &mut String, n: u64)
    ensures
        final(s)@ == old(s)@ + digits(n as nat),
    decreases n,
{
    if n >= 10 {
        push_digits(s, n / 10);
    }
    push_char(s, digit(n % 10));
}

/// Appends `n` in decimal.
pub fn push_decimal(s: &mut String, n: i64)
    ensures
        final(s)@ == old(s)@ + decimal(n as int),
{
    if n < 0 {
        push_char(s, '-');
        let m: u64 = if n == i64::MIN {
            9223372036854775808u64
        } else {
            (-n) as u64
        };
        push_digits(s, m);
        assert(old(s)@.push('-') + digits(m as nat) =~= old(s)@ + (seq!['-'] + digits(m as nat)));
    } else {
        push_digits(s, n as u64);
    }
}

/// Appends `n` padded to two decimal digits.
pub fn push_two_digit(s: &mut String, n: u64)
    ensures
        final(s)@ == old(s)@ + two_digit(n as nat),
{
    if n < 10 {
        push_char(s, '0');
        let ghost mid = s@;
        push_digits(s, n);
        assert(mid + digits(n as nat) =~= old(s)@ + (seq!['0'] + digits(n as nat)));
    } else {
        push_digits(s, n);
    }
}

/// Appends `n` as two upper-case hexadecimal digits.
pub fn push_hex_byte(s: &mut String, n: u8)
    ensures
        final(s)@ == old(s)@ + hex_byte(n),
{
    push_char(s, digit((n / 16) as u64));
    push_char(s, digit((n % 16) as u64));
    assert(final(s)@ =~= old(s)@ + hex_byte(n));
}

/// The number that a string of decimal digits reads as, most significant
/// digit first.
pub open spec fn decimal_value(s: Seq<char>) -> int
    decreases s.len(),
{
    if s.len() == 0 {
        0
    } else {
        decimal_value(s.drop_last()) * 10 + ((s.last() as u32) - 48)
    }
}

/// `s` is made of the digits `0` to `9` only.
pub open spec fn all_decimal_digits(s: Seq<char>) -> bool {
    forall|k: int| 0 <= k < s.len() ==> '0' <= #[trigger] s[k] <= '9'
}

proof fn lemma_digit_char_value(d: nat)
    requires
        d < 10,
    ensures
        '0' <= digit_char(d) <= '9',
        (digit_char(d) as u32) - 48 == d,
{
}

/// The decimal digits of `n` read back as `n`: they are digits only, the
/// first is not a zero unless `n` is, and their value is `n`.
pub proof fn law_digits_read_back(n: nat)
    ensures
        all_decimal_digits(digits(n)),
        decimal_value(digits(n)) == n,
        digits(n).len() >= 1,
        n > 0 ==> digits(n)[0] != '0',
    decreases n,
{
    if n < 10 {
        lemma_digit_char_value(n);
        assert(digits(n).drop_last() =~= Seq::<char>::empty());
        assert(decimal_value(Seq::<char>::empty()) == 0);
    } else {
        law_digits_read_back(n / 10);
        lemma_digit_char_value(n % 10);
        let s = digits(n);
        assert(s.drop_last() =~= digits(n / 10));
        assert(s[0] == digits(n / 10)[0]);
        assert(decimal_value(s) == (n / 10) * 10 + n % 10);
        assert(n == (n / 10) * 10 + n % 10) by (nonlinear_arith);
    }
}

/// A number padded to two digits reads back as the number and has at least
/// two digits, exactly two below a hundred.
pub proof fn law_two_digit_read_back(n: nat)
    ensures
        all_decimal_digits(two_digit(n)),
        decimal_value(two_digit(n)) == n,
        n < 100 ==> two_digit(n).len() == 2,
        two_digit(n).len() >= 2,
{
    law_digits_read_back(n);
    if n < 10 {
        let s = seq!['0'] + digits(n);
        assert(s =~= seq!['0', digit_char(n)]);
        assert(s.drop_last() =~= seq!['0']);
        assert(seq!['0'].drop_last() =~= Seq::<char>::empty());
        assert(decimal_value(Seq::<char>::empty()) == 0);
        assert(decimal_value(seq!['0']) == 0);
        lemma_digit_char_value(n);
    } else {
        law_digits_read_back(n / 10);
        assert(digits(n).drop_last() =~= digits(n / 10));
        if n < 100 {
            assert(digits(n / 10).len() == 1);
        }
    }
}

/// `n` in decimal reads back as `n`: its digits after a `-` exactly when
/// `n` is negative.
pub proof fn law_decimal_read_back(n: int)
    ensures
        n >= 0 ==> all_decimal_digits(decimal(n)) && decimal_value(decimal(n)) == n,
        n < 0 ==> decimal(n)[0] == '-' && all_decimal_digits(decimal(n).drop_first())
            && decimal_value(decimal(n).drop_first()) == -n,
{
    if n >= 0 {
        law_digits_read_back(n as nat);
    } else {
        law_digits_read_back((-n) as nat);
        assert(decimal(n).drop_first() =~= digits((-n) as nat));
    }
}

/// Replacing a pattern that does not occur changes nothing.
pub proof fn law_replaced_absent(s: Seq<char>, pat: Seq<char>, rep: Seq<char>)
    requires
        pat.len() > 0,
        !occurs_in(s, pat),
    ensures
        replaced(s, pat, rep) == s,
    decreases s.len(),
{
    if s.len() > 0 {
        assert(s.skip(0) =~= s);
        assert(!has_prefix(s.skip(0), pat));
        let t = s.drop_first();
        assert forall|i: int| 0 <= i <= t.len() implies !#[trigger] has_prefix(t.skip(i), pat) by {
            assert(t.skip(i) =~= s.skip(i + 1));
            assert(!has_prefix(s.skip(i + 1), pat));
        }
        law_replaced_absent(t, pat, rep);
        assert(seq![s[0]] + t =~= s);
    }
}

/// Deleting every copy of a character leaves none of it.
pub proof fn law_replaced_deletes(s: Seq<char>, q: char)
    ensures
        forall|k: int| 0 <= k < replaced(s, seq![q], Seq::empty()).len()
            ==> #[trigger] replaced(s, seq![q], Seq::empty())[k] != q,
    decreases s.len(),
{
    if s.len() > 0 {
        let r = replaced(s, seq![q], Seq::empty());
        law_replaced_deletes(s.drop_first(), q);
        assert(s.skip(1) =~= s.drop_first());
        if has_prefix(s, seq![q]) {
            assert(r =~= replaced(s.drop_first(), seq![q], Seq::empty()));
        } else {
            assert(s.take(1) =~= seq![s[0]]);
            assert(s[0] != q);
            let rest = replaced(s.drop_first(), seq![q], Seq::empty());
            assert(r == seq![s[0]] + rest);
            assert forall|k: int| 0 <= k < r.len() implies #[trigger] r[k] != q by {
                if k > 0 {
                    assert(r[k] == rest[k - 1]);
                }
            }
        }
    }
}

proof fn lemma_trim_front(s: Seq<char>) -> (a: int)
    ensures
        0 <= a <= s.len(),
        trim_front(s) == s.skip(a),
        forall|k: int| 0 <= k < a ==> is_white_space(#[trigger] s[k]),
        a < s.len() ==> !is_white_space(s[a]),
    decreases s.len(),
{
    if s.len() > 0 && is_white_space(s[0]) {
        let t = s.drop_first();
        let a = lemma_trim_front(t);
        assert(t.skip(a) =~= s.skip(a + 1));
        assert forall|k: int| 0 <= k < a + 1 implies is_white_space(#[trigger] s[k]) by {
            if k > 0 {
                assert(s[k] == t[k - 1]);
            }
        }
        a + 1
    } else {
        assert(s.skip(0) =~= s);
        0
    }
}

proof fn lemma_trim_back(s: Seq<char>) -> (b: int)
    ensures
        0 <= b <= s.len(),
        trim_back(s) == s.take(b),
        forall|k: int| b <= k < s.len() ==> is_white_space(#[trigger] s[k]),
        b > 0 ==> !is_white_space(s[b - 1]),
    decreases s.len(),
{
    if s.len() > 0 && is_white_space(s.last()) {
        let t = s.drop_last();
        let b = lemma_trim_back(t);
        assert(t.take(b) =~= s.take(b));
        assert forall|k: int| b <= k < s.len() implies is_white_space(#[trigger] s[k]) by {
            if k < s.len() - 1 {
                assert(s[k] == t[k]);
            }
        }
        b
    } else {
        assert(s.take(s.len() as int) =~= s);
        s.len() as int
    }
}

/// Trimming removes white space at both ends and nothing else: the result
/// is a stretch of `s` that neither begins nor ends with white space, and
/// all that is cut away before and after it is white space.
pub proof fn law_trimmed(s: Seq<char>)
    ensures
        exists|a: int, b: int| {
            &&& 0 <= a <= b <= s.len()
            &&& trimmed(s) == s.subrange(a, b)
            &&& forall|k: int| 0 <= k < a ==> is_white_space(#[trigger] s[k])
            &&& forall|k: int| b <= k < s.len() ==> is_white_space(#[trigger] s[k])
            &&& a < b ==> !is_white_space(s[a]) && !is_white_space(s[b - 1])
        },
{
    let a = lemma_trim_front(s);
    let t = s.skip(a);
    let m = lemma_trim_back(t);
    let b = a + m;
    assert(t.take(m) =~= s.subrange(a, b));
    assert forall|k: int| b <= k < s.len() implies is_white_space(#[trigger] s[k]) by {
        assert(s[k] == t[k - a]);
    }
    if a < b {
        assert(s[a] == t[0]);
        assert(s[b - 1] == t[m - 1]);
    }
    assert(0 <= a <= b <= s.len() && trimmed(s) == s.subrange(a, b));
}

/// The value of an upper-case hexadecimal digit.
pub open spec fn hex_digit_value(c: char) -> int {
    if '0' <= c <= '9' {
        (c as u32) - 48
    } else {
        (c as u32) - 55
    }
}

/// A byte written as two hexadecimal digits reads back as the byte: both
/// are `0`-`9` or `A`-`F`, the high half first.
pub proof fn law_hex_byte_read_back(n: u8)
    ensures
        hex_byte(n).len() == 2,
        forall|k: int| 0 <= k < 2 ==> ('0' <= #[trigger] hex_byte(n)[k] <= '9' || 'A' <= hex_byte(n)[k] <= 'F'),
        hex_digit_value(hex_byte(n)[0]) * 16 + hex_digit_value(hex_byte(n)[1]) == n,
{
    let hi = (n / 16) as nat;
    let lo = (n % 16) as nat;
    assert(hi < 16);
    assert(hex_digit_value(digit_char(hi)) == hi);
    assert(hex_digit_value(digit_char(lo)) == lo);
    assert(n == hi * 16 + lo);
}

} // verus!
