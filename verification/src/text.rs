//! Text building blocks: decimal rendering of integers, zero padding,
//! and splitting a string at a separator character.
use vstd::prelude::*;

verus! {

/// The ASCII character of the decimal digit `d` (0..=9).
pub open spec fn digit_char(d: int) -> char {
    (48 + d) as char
}

/// The decimal digits of `n`, most significant first, without leading zeros
/// ("0" for zero).
pub open spec fn nat_digits(n: nat) -> Seq<char>
    decreases n,
{
    if n < 10 {
        seq![digit_char(n as int)]
    } else {
        nat_digits(n / 10).push(digit_char((n % 10) as int))
    }
}

/// Absolute value of an integer.
pub open spec fn abs_int(n: int) -> nat {
    if n < 0 {
        (-n) as nat
    } else {
        n as nat
    }
}

/// The sign part of the decimal rendering: "-" for negatives, empty otherwise.
pub open spec fn sign_chars(n: int) -> Seq<char> {
    if n < 0 {
        seq!['-']
    } else {
        Seq::empty()
    }
}

/// How `{}` renders an integer: an optional minus sign, then the digits of
/// its absolute value.
pub open spec fn int_decimal(n: int) -> Seq<char> {
    sign_chars(n) + nat_digits(abs_int(n))
}

/// `k` copies of the character '0'.
pub open spec fn zeros(k: nat) -> Seq<char> {
    Seq::new(k, |i: int| '0')
}

/// How `{:0w$}` renders an integer: the sign first, then as many zeros as
/// it takes to reach `width` characters in all, then the digits. Nothing is
/// cut when the number is wider than `width`.
pub open spec fn zero_padded(n: int, width: nat) -> Seq<char> {
    let sign = sign_chars(n);
    let digits = nat_digits(abs_int(n));
    let used = sign.len() + digits.len();
    let pad: nat = if width > used {
        (width - used) as nat
    } else {
        0
    };
    sign + zeros(pad) + digits
}

/// The value of a string of decimal digits, read most significant first.
pub open spec fn decimal_value(s: Seq<char>) -> int
    decreases s.len(),
{
    if s.len() == 0 {
        0
    } else {
        decimal_value(s.drop_last()) * 10 + (s.last() as int - 48)
    }
}

/// Ten to the power `k`.
pub open spec fn pow10(k: nat) -> nat
    decreases k,
{
    if k == 0 {
        1
    } else {
        10 * pow10((k - 1) as nat)
    }
}

/// Below `10^k` a number has at most `k` digits.
pub proof fn lemma_digits_len_at_most(n: nat, k: nat)
    requires
        k >= 1,
        n < pow10(k),
    ensures
        nat_digits(n).len() <= k,
    decreases n,
{
    if n >= 10 {
        let k1 = (k - 1) as nat;
        if k1 == 0 {
            assert(pow10(k1) == 1);
            assert(pow10(k) == 10);
        } else {
            assert(n / 10 < pow10(k1)) by (nonlinear_arith)
                requires
                    n < 10 * pow10(k1),
            ;
            lemma_digits_len_at_most(n / 10, k1);
        }
    }
}

/// From `10^k` on a number has more than `k` digits.
pub proof fn lemma_digits_len_more_than(n: nat, k: nat)
    requires
        n >= pow10(k),
    ensures
        nat_digits(n).len() > k,
    decreases k,
{
    if k > 0 {
        let k1 = (k - 1) as nat;
        assert(n / 10 >= pow10(k1)) by (nonlinear_arith)
            requires
                n >= 10 * pow10(k1),
        ;
        assert(n >= 10) by {
            lemma_pow10_positive(k1);
        }
        lemma_digits_len_more_than(n / 10, k1);
    }
}

/// Powers of ten are positive.
pub proof fn lemma_pow10_positive(k: nat)
    ensures
        pow10(k) >= 1,
    decreases k,
{
    if k > 0 {
        lemma_pow10_positive((k - 1) as nat);
    }
}

/// Every character of `s` is one of '0'..='9'.
pub open spec fn all_digits(s: Seq<char>) -> bool {
    forall|i: int| 0 <= i < s.len() ==> '0' <= #[trigger] s[i] <= '9'
}

/// The digits of `n` are all decimal digits and read back as `n`.
pub proof fn lemma_nat_digits_value(n: nat)
    ensures
        all_digits(nat_digits(n)),
        decimal_value(nat_digits(n)) == n,
    decreases n,
{
    if n >= 10 {
        lemma_nat_digits_value(n / 10);
        let d = nat_digits(n);
        assert(d.drop_last() =~= nat_digits(n / 10));
        assert(d.last() as int - 48 == n % 10);
        assert(decimal_value(d) == decimal_value(nat_digits(n / 10)) * 10 + n % 10);
        assert(all_digits(d)) by {
            assert forall|i: int| 0 <= i < d.len() implies '0' <= #[trigger] d[i] <= '9' by {
                if i < d.len() - 1 {
                    assert(d[i] == nat_digits(n / 10)[i]);
                }
            }
        }
    } else {
        let d = nat_digits(n);
        assert(d.drop_last() =~= Seq::<char>::empty());
        assert(d.last() as int - 48 == n);
        assert(decimal_value(d.drop_last()) == 0);
        assert(decimal_value(d) == n);
    }
}

/// A digit string without superfluous leading zeros: a single digit, or a
/// first digit other than '0'.
pub open spec fn no_leading_zero(s: Seq<char>) -> bool {
    s.len() == 1 || (s.len() > 1 && s[0] != '0')
}

/// The digits of `n` have no superfluous leading zero.
pub proof fn lemma_nat_digits_no_leading_zero(n: nat)
    ensures
        no_leading_zero(nat_digits(n)),
        n >= 1 ==> nat_digits(n)[0] != '0',
    decreases n,
{
    if n >= 10 {
        lemma_nat_digits_no_leading_zero(n / 10);
        assert(nat_digits(n)[0] == nat_digits(n / 10)[0]);
    } else {
        assert((48 + n) as char as int == 48 + n);
    }
}

/// `{}` of an integer reads back: for `n >= 0` it is decimal digits with no
/// superfluous leading zero whose value is `n`; for `n < 0` it is '-'
/// followed by such digits of `-n`.
pub proof fn lemma_int_decimal_reads_back(n: int)
    ensures
        n >= 0 ==> all_digits(int_decimal(n)) && no_leading_zero(int_decimal(n)) && decimal_value(
            int_decimal(n),
        ) == n,
        n < 0 ==> int_decimal(n).len() >= 2 && int_decimal(n)[0] == '-' && all_digits(
            int_decimal(n).drop_first(),
        ) && no_leading_zero(int_decimal(n).drop_first()) && decimal_value(
            int_decimal(n).drop_first(),
        ) == -n,
{
    let d = nat_digits(abs_int(n));
    lemma_nat_digits_value(abs_int(n));
    lemma_nat_digits_no_leading_zero(abs_int(n));
    if n < 0 {
        assert((seq!['-'] + d).drop_first() =~= d);
    } else {
        assert(Seq::<char>::empty() + d =~= d);
    }
}

/// Leading zeros do not change the value of a string of digits.
pub proof fn lemma_zeros_then_digits(k: nat, d: Seq<char>)
    requires
        all_digits(d),
    ensures
        all_digits(zeros(k) + d),
        decimal_value(zeros(k) + d) == decimal_value(d),
    decreases d.len(), k,
{
    if d.len() == 0 {
        assert(zeros(k) + d =~= zeros(k));
        lemma_zeros_value(k);
    } else {
        assert((zeros(k) + d).drop_last() =~= zeros(k) + d.drop_last());
        assert(all_digits(d.drop_last())) by {
            assert forall|i: int| 0 <= i < d.drop_last().len() implies '0' <= #[trigger] d.drop_last()[i] <= '9' by {
                assert(d.drop_last()[i] == d[i]);
            }
        }
        lemma_zeros_then_digits(k, d.drop_last());
        assert((zeros(k) + d).last() == d.last());
    }
    assert(all_digits(zeros(k) + d)) by {
        assert forall|i: int| 0 <= i < (zeros(k) + d).len() implies '0' <= #[trigger] (zeros(k) + d)[i] <= '9' by {
            if i >= k {
                assert((zeros(k) + d)[i] == d[i - k]);
            }
        }
    }
}

/// A string of zeros is worth zero.
pub proof fn lemma_zeros_value(k: nat)
    ensures
        decimal_value(zeros(k)) == 0,
    decreases k,
{
    if k > 0 {
        assert(zeros(k).drop_last() =~= zeros((k - 1) as nat));
        lemma_zeros_value((k - 1) as nat);
    }
}

/// `s` comes before `t` in character order, as strings compare: at the
/// first place where they differ `s` has the smaller character, or `s` is
/// a proper prefix of `t`.
pub open spec fn text_before(s: Seq<char>, t: Seq<char>) -> bool {
    ||| exists|i: int|
        0 <= i < s.len() && i < t.len() && s.take(i) == t.take(i) && #[trigger] s[i] < t[i]
    ||| (s.len() < t.len() && s == t.take(s.len() as int))
}

/// A four-character string is worth its four digits weighted by place.
pub proof fn lemma_four_digit_value(s: Seq<char>)
    requires
        s.len() == 4,
    ensures
        decimal_value(s) == 1000 * (s[0] as int - 48) + 100 * (s[1] as int - 48) + 10 * (
        s[2] as int - 48) + (s[3] as int - 48),
{
    let s3 = s.drop_last();
    let s2 = s3.drop_last();
    let s1 = s2.drop_last();
    let s0 = s1.drop_last();
    assert(s0 =~= Seq::<char>::empty());
    assert(decimal_value(s0) == 0);
    assert(s1.last() == s[0]);
    assert(s2.last() == s[1]);
    assert(s3.last() == s[2]);
    assert(decimal_value(s1) == s[0] as int - 48);
    assert(decimal_value(s2) == decimal_value(s1) * 10 + (s[1] as int - 48));
    assert(decimal_value(s3) == decimal_value(s2) * 10 + (s[2] as int - 48));
}

/// `String::push`. Trusted: the character is appended at the end.
#[verifier::external_body]
pub(crate) fn push_char(s: &mut String, c: char)
    ensures
        final(s)@ == old(s)@.push(c),
{
    s.push(c)
}

/// The digit character of `d`.
fn digit_to_char(d: u32) -> (c: char)
    requires
        d < 10,
    ensures
        c == digit_char(d as int),
{
    if d == 0 {
        '0'
    } else if d == 1 {
        '1'
    } else if d == 2 {
        '2'
    } else if d == 3 {
        '3'
    } else if d == 4 {
        '4'
    } else if d == 5 {
        '5'
    } else if d == 6 {
        '6'
    } else if d == 7 {
        '7'
    } else if d == 8 {
        '8'
    } else {
        '9'
    }
}

/// Appends the decimal digits of `n` to `s`.
pub fn push_digits(s: &mut String, n: u32)
    ensures
        final(s)@ == old(s)@ + nat_digits(n as nat),
    decreases n,
{
    if n >= 10 {
        push_digits(s, n / 10);
    }
    push_char(s, digit_to_char(n % 10));
    proof {
        if n >= 10 {
            assert(old(s)@ + nat_digits(n as nat) =~= (old(s)@ + nat_digits((n / 10) as nat)).push(
                digit_char((n % 10) as int),
            ));
        } else {
            assert(old(s)@ + nat_digits(n as nat) =~= old(s)@.push(digit_char(n as int)));
        }
    }
}

/// The number of decimal digits of `n`.
pub fn count_digits(n: u32) -> (k: usize)
    ensures
        k == nat_digits(n as nat).len(),
        1 <= k <= 10,
    decreases n,
{
    proof {
        reveal_with_fuel(pow10, 11);
        assert(pow10(10) == 10000000000nat);
        lemma_digits_len_at_most(n as nat, 10);
    }
    if n >= 10 {
        1 + count_digits(n / 10)
    } else {
        1
    }
}

/// The absolute value of `n` as an unsigned number.
pub fn abs_u32(n: i32) -> (a: u32)
    ensures
        a == abs_int(n as int),
{
    if n < 0 {
        let wide: i64 = n as i64;
        (-wide) as u32
    } else {
        n as u32
    }
}

/// Renders `n` in decimal, as `{}` does.
pub fn int_to_decimal(n: i32) -> (s: String)
    ensures
        s@ == int_decimal(n as int),
        n >= 0 ==> all_digits(s@) && no_leading_zero(s@) && decimal_value(s@) == n,
        n < 0 ==> s@.len() >= 2 && s@[0] == '-' && all_digits(s@.drop_first()) && no_leading_zero(
            s@.drop_first(),
        ) && decimal_value(s@.drop_first()) == -n,
{
    proof {
        lemma_int_decimal_reads_back(n as int);
    }
    let mut s = String::new();
    if n < 0 {
        push_char(&mut s, '-');
    }
    push_digits(&mut s, abs_u32(n));
    proof {
        assert(s@ =~= int_decimal(n as int));
    }
    s
}

/// Renders `n` in decimal padded with zeros to `width` characters, as
/// `{:0width$}` does: a minus sign comes before the zeros.
pub fn int_to_zero_padded(n: i32, width: usize) -> (s: String)
    ensures
        s@ == zero_padded(n as int, width as nat),
{
    let mut s = String::new();
    let mut used: usize = 0;
    if n < 0 {
        push_char(&mut s, '-');
        used = 1;
    }
    let a = abs_u32(n);
    used = used + count_digits(a);
    let ghost sign = s@;
    assert(sign == sign_chars(n as int));
    let mut k: usize = used;
    while k < width
        invariant
            used <= k,
            k <= width || k == used,
            s@ == sign + zeros((k - used) as nat),
        decreases width - k,
    {
        push_char(&mut s, '0');
        assert(s@ =~= sign + zeros((k + 1 - used) as nat));
        k = k + 1;
    }
    push_digits(&mut s, a);
    proof {
        let pad: nat = if width > used {
            (width - used) as nat
        } else {
            0
        };
        assert((k - used) as nat == pad);
        assert(s@ =~= zero_padded(n as int, width as nat));
    }
    s
}

/// The pieces of `s` between occurrences of `sep`, as `str::split` yields
/// them for a `char` pattern: one more piece than there are separators,
/// empty pieces included.
pub open spec fn split_on(s: Seq<char>, sep: char) -> Seq<Seq<char>>
    decreases s.len(),
{
    if s.len() == 0 {
        seq![Seq::empty()]
    } else {
        let front = split_on(s.drop_last(), sep);
        if s.last() == sep {
            front.push(Seq::empty())
        } else {
            front.update(front.len() - 1, front.last().push(s.last()))
        }
    }
}

/// The pieces joined back together with `sep` between them.
pub open spec fn join_with(pieces: Seq<Seq<char>>, sep: char) -> Seq<char>
    decreases pieces.len(),
{
    if pieces.len() == 0 {
        Seq::empty()
    } else if pieces.len() == 1 {
        pieces[0]
    } else {
        join_with(pieces.drop_last(), sep) + seq![sep] + pieces.last()
    }
}

/// Adding a character to the last piece adds it to the end of the joined
/// text.
proof fn lemma_join_extend_last(pieces: Seq<Seq<char>>, sep: char, c: char)
    requires
        pieces.len() >= 1,
    ensures
        join_with(pieces.update(pieces.len() - 1, pieces.last().push(c)), sep) == join_with(
            pieces,
            sep,
        ).push(c),
{
    let v = pieces.update(pieces.len() - 1, pieces.last().push(c));
    if pieces.len() > 1 {
        assert(v.drop_last() =~= pieces.drop_last());
    }
}

/// Splitting loses nothing: no piece holds the separator, and joining the
/// pieces with the separator gives the string back.
pub proof fn lemma_split_join(s: Seq<char>, sep: char)
    ensures
        split_on(s, sep).len() >= 1,
        forall|i: int|
            0 <= i < split_on(s, sep).len() ==> !(#[trigger] split_on(s, sep)[i]).contains(sep),
        join_with(split_on(s, sep), sep) == s,
    decreases s.len(),
{
    if s.len() == 0 {
        assert(!Seq::<char>::empty().contains(sep));
        assert(split_on(s, sep)[0] == Seq::<char>::empty());
        assert(s =~= Seq::<char>::empty());
    } else {
        let front = split_on(s.drop_last(), sep);
        lemma_split_join(s.drop_last(), sep);
        let c = s.last();
        let parts = split_on(s, sep);
        if c == sep {
            assert(parts == front.push(Seq::empty()));
            assert(parts.drop_last() =~= front);
            assert(!Seq::<char>::empty().contains(sep));
            assert forall|i: int| 0 <= i < parts.len() implies !(#[trigger] parts[i]).contains(sep) by {
                if i < front.len() {
                    assert(parts[i] == front[i]);
                }
            }
            assert(join_with(parts, sep) =~= s.drop_last() + seq![sep] + Seq::<char>::empty());
            assert(s.drop_last() + seq![sep] =~= s);
        } else {
            assert(parts == front.update(front.len() - 1, front.last().push(c)));
            lemma_join_extend_last(front, sep, c);
            assert(s.drop_last().push(c) =~= s);
            assert forall|i: int| 0 <= i < parts.len() implies !(#[trigger] parts[i]).contains(sep) by {
                if i < front.len() - 1 {
                    assert(parts[i] == front[i]);
                } else {
                    let p = front.last().push(c);
                    assert(parts[i] == p);
                    if p.contains(sep) {
                        let j = choose|j: int| 0 <= j < p.len() && p[j] == sep;
                        if j < front.last().len() {
                            assert(front.last()[j] == sep);
                            assert(front[front.len() - 1] == front.last());
                        }
                    }
                }
            }
        }
    }
}

/// Splitting always yields at least one piece.
pub proof fn lemma_split_nonempty(s: Seq<char>, sep: char)
    ensures
        split_on(s, sep).len() >= 1,
    decreases s.len(),
{
    if s.len() > 0 {
        lemma_split_nonempty(s.drop_last(), sep);
    }
}

/// A string without the separator is a single piece.
pub proof fn lemma_split_no_sep(s: Seq<char>, sep: char)
    requires
        !s.contains(sep),
    ensures
        split_on(s, sep) == seq![s],
    decreases s.len(),
{
    if s.len() > 0 {
        assert(!s.drop_last().contains(sep)) by {
            if s.drop_last().contains(sep) {
                let i = choose|i: int| 0 <= i < s.drop_last().len() && s.drop_last()[i] == sep;
                assert(s[i] == sep);
            }
        }
        lemma_split_no_sep(s.drop_last(), sep);
        assert(s.last() != sep) by {
            assert(s[s.len() - 1] == s.last());
        }
        assert(s.drop_last().push(s.last()) =~= s);
        assert(seq![s.drop_last()].update(0, s.drop_last().push(s.last())) =~= seq![s]);
    } else {
        assert(s =~= Seq::<char>::empty());
    }
}

/// Splitting `a`, a separator, then `b` gives the pieces of `a` followed by
/// the pieces of `b`.
pub proof fn lemma_split_concat(a: Seq<char>, b: Seq<char>, sep: char)
    ensures
        split_on(a + seq![sep] + b, sep) == split_on(a, sep) + split_on(b, sep),
    decreases b.len(),
{
    let c = a + seq![sep] + b;
    if b.len() == 0 {
        assert(c.drop_last() =~= a);
        assert(split_on(a, sep).push(Seq::empty()) =~= split_on(a, sep) + split_on(b, sep));
    } else {
        assert(c.drop_last() =~= a + seq![sep] + b.drop_last());
        lemma_split_concat(a, b.drop_last(), sep);
        lemma_split_nonempty(b.drop_last(), sep);
        lemma_split_nonempty(a, sep);
        let x = split_on(a, sep);
        let y = split_on(b.drop_last(), sep);
        assert(c.last() == b.last());
        if b.last() == sep {
            assert((x + y).push(Seq::empty()) =~= x + y.push(Seq::empty()));
        } else {
            let l = b.last();
            assert((x + y).update((x + y).len() - 1, (x + y).last().push(l)) =~= x + y.update(
                y.len() - 1,
                y.last().push(l),
            ));
        }
    }
}

/// Splits `s` at every `sep`, as `s.split(sep).collect()` does.
pub fn split_char<'a>(s: &'a str, sep: char) -> (parts: Vec<&'a str>)
    ensures
        parts.len() == split_on(s@, sep).len(),
        forall|i: int| 0 <= i < parts.len() ==> #[trigger] parts[i]@ == split_on(s@, sep)[i],
        parts.len() >= 1,
        forall|i: int| 0 <= i < parts.len() ==> !(#[trigger] parts[i]@).contains(sep),
        join_with(parts@.map_values(|p: &str| p@), sep) == s@,
{
    proof {
        lemma_split_join(s@, sep);
    }
    let n = s.unicode_len();
    let mut parts: Vec<&'a str> = Vec::new();
    let mut start: usize = 0;
    let mut i: usize = 0;
    while i < n
        invariant
            n == s@.len(),
            start <= i <= n,
            parts.len() + 1 == split_on(s@.take(i as int), sep).len(),
            forall|j: int|
                0 <= j < parts.len() ==> #[trigger] parts[j]@ == split_on(s@.take(i as int), sep)[j],
            split_on(s@.take(i as int), sep).last() == s@.subrange(start as int, i as int),
        decreases n - i,
    {
        let c = s.get_char(i);
        let ghost before = split_on(s@.take(i as int), sep);
        assert(s@.take(i + 1).drop_last() =~= s@.take(i as int));
        assert(s@.take(i + 1).last() == c);
        if c == sep {
            let piece = s.substring_char(start, i);
            parts.push(piece);
            start = i + 1;
            assert(s@.subrange(start as int, (i + 1) as int) =~= Seq::<char>::empty());
        } else {
            assert(s@.subrange(start as int, i as int).push(c) =~= s@.subrange(
                start as int,
                (i + 1) as int,
            ));
        }
        i = i + 1;
    }
    let last = s.substring_char(start, n);
    parts.push(last);
    assert(s@.take(n as int) =~= s@);
    assert(parts@.map_values(|p: &str| p@) =~= split_on(s@, sep));
    parts
}

} // verus!
