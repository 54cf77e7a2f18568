//! Decimal rendering and parsing of unsigned integers, at the character
//! level. This is the shared foundation for amount formatting, RPC URL
//! construction, and the persisted wallet-state record format.

use vstd::prelude::*;

verus! {

use vstd::arithmetic::div_mod::lemma_fundamental_div_mod;
use vstd::arithmetic::div_mod::lemma_fundamental_div_mod_converse;

/// The character for a single decimal digit value.
pub open spec fn digit_char(d: nat) -> char {
    if d == 0 {
        '0'
    } else if d == 1 {
        '1'
    } else if d == 2 {
        '2'
    } else if d == 3 {
        '3'
    } else if d == 4 {
        '4'
    } else if d == 5 {
        '5'
    } else if d == 6 {
        '6'
    } else if d == 7 {
        '7'
    } else if d == 8 {
        '8'
    } else {
        '9'
    }
}

/// Whether a character is a decimal digit.
pub open spec fn is_digit_char(c: char) -> bool {
    '0' <= c && c <= '9'
}

/// The numeric value of a decimal digit character.
pub open spec fn digit_val(c: char) -> nat {
    (c as int - '0' as int) as nat
}

/// Whether every character of a sequence is a decimal digit.
pub open spec fn all_digits(s: Seq<char>) -> bool {
    forall|i: int| 0 <= i < s.len() ==> is_digit_char(#[trigger] s[i])
}

/// The canonical decimal rendering of a natural number: no sign, no
/// leading zeros (a lone `0` for zero).
pub open spec fn dec_str(n: nat) -> Seq<char>
    decreases n,
{
    if n < 10 {
        seq![digit_char(n)]
    } else {
        dec_str(n / 10).push(digit_char(n % 10))
    }
}

/// A fixed-width, zero-padded decimal rendering holding the low `width`
/// digits of a natural number.
pub open spec fn dec_pad(n: nat, width: nat) -> Seq<char>
    decreases width,
{
    if width == 0 {
        Seq::<char>::empty()
    } else {
        dec_pad(n / 10, (width - 1) as nat).push(digit_char(n % 10))
    }
}

/// The value of a sequence of decimal digit characters (most significant
/// first); an empty sequence has value zero.
pub open spec fn dec_val(s: Seq<char>) -> nat
    decreases s.len(),
{
    if s.len() == 0 {
        0
    } else {
        dec_val(s.drop_last()) * 10 + digit_val(s.last())
    }
}

/// Whether a digit sequence is the canonical rendering of its own value:
/// nonempty, all digits, and no leading zero unless it is `0` alone.
pub open spec fn is_canon_digits(s: Seq<char>) -> bool {
    &&& s.len() >= 1
    &&& all_digits(s)
    &&& (s[0] == '0' ==> s.len() == 1)
}

/// Ten to the power `k`.
pub open spec fn pow10(k: nat) -> nat
    decreases k,
{
    if k == 0 {
        1
    } else {
        10 * pow10((k - 1) as nat)
    }
}

proof fn lemma_digit_char_val(d: nat)
    requires
        d < 10,
    ensures
        is_digit_char(digit_char(d)),
        digit_val(digit_char(d)) == d,
        d != 0 ==> digit_char(d) != '0',
{
}

proof fn lemma_digit_char_of_val(c: char)
    requires
        is_digit_char(c),
    ensures
        digit_val(c) < 10,
        digit_char(digit_val(c)) == c,
{
}

/// Every character of a canonical decimal rendering is a digit, the
/// rendering is nonempty, and it has no leading zero unless it is `0` itself.
pub proof fn lemma_dec_str_wf(n: nat)
    ensures
        is_canon_digits(dec_str(n)),
        n != 0 ==> dec_str(n)[0] != '0',
        n == 0 ==> dec_str(n) =~= seq!['0'],
    decreases n,
{
    if n < 10 {
        lemma_digit_char_val(n);
    } else {
        lemma_dec_str_wf(n / 10);
        lemma_digit_char_val(n % 10);
        assert(dec_str(n)[0] == dec_str(n / 10)[0]);
    }
}

/// The value of a canonical decimal rendering is the number it renders.
pub proof fn lemma_dec_val_of_dec_str(n: nat)
    ensures
        dec_val(dec_str(n)) == n,
    decreases n,
{
    if n < 10 {
        lemma_digit_char_val(n);
        assert(dec_str(n).drop_last() =~= Seq::<char>::empty());
        assert(dec_str(n).last() == digit_char(n));
        assert(dec_val(dec_str(n)) == dec_val(Seq::<char>::empty()) * 10 + digit_val(digit_char(n)));
    } else {
        lemma_dec_val_of_dec_str(n / 10);
        lemma_digit_char_val(n % 10);
        assert(dec_str(n).drop_last() =~= dec_str(n / 10));
        assert(dec_str(n).last() == digit_char(n % 10));
        assert(dec_val(dec_str(n)) == (n / 10) * 10 + n % 10);
        assert(n == (n / 10) * 10 + n % 10) by {
            lemma_fundamental_div_mod(n as int, 10);
        }
    }
}

/// A digit sequence with a nonzero leading digit has value at least ten to
/// the power of its remaining length.
pub proof fn lemma_dec_val_lower(s: Seq<char>)
    requires
        all_digits(s),
        s.len() >= 1,
        s[0] != '0',
    ensures
        dec_val(s) >= pow10((s.len() - 1) as nat),
    decreases s.len(),
{
    if s.len() == 1 {
        assert(s.drop_last() =~= Seq::<char>::empty());
        assert(s.last() == s[0]);
        assert(digit_val(s[0]) >= 1);
    } else {
        assert(all_digits(s.drop_last())) by {
            assert(forall|i: int|
                0 <= i < s.len() - 1 ==> s.drop_last()[i] == #[trigger] s[i]);
        }
        assert(s.drop_last()[0] == s[0]);
        lemma_dec_val_lower(s.drop_last());
        assert(dec_val(s) >= pow10((s.len() - 2) as nat) * 10);
    }
}

/// A canonical digit sequence is recovered exactly by rendering its value:
/// `dec_str` and `dec_val` are mutually inverse on canonical sequences.
pub proof fn lemma_dec_str_of_dec_val(s: Seq<char>)
    requires
        is_canon_digits(s),
    ensures
        dec_str(dec_val(s)) =~= s,
    decreases s.len(),
{
    if s.len() == 1 {
        lemma_digit_char_of_val(s[0]);
        assert(s.drop_last() =~= Seq::<char>::empty());
        assert(s.last() == s[0]);
        assert(dec_val(s) == dec_val(Seq::<char>::empty()) * 10 + digit_val(s[0]));
        assert(dec_str(dec_val(s)) =~= seq![digit_char(digit_val(s[0]))]);
    } else {
        let dl = s.drop_last();
        assert(all_digits(dl) && dl[0] == s[0]) by {
            assert(forall|i: int| 0 <= i < s.len() - 1 ==> dl[i] == #[trigger] s[i]);
        }
        assert(s[0] != '0');
        lemma_dec_val_lower(dl);
        assert(pow10((dl.len() - 1) as nat) >= 1) by {
            lemma_pow10_pos((dl.len() - 1) as nat);
        }
        lemma_dec_str_of_dec_val(dl);
        lemma_digit_char_of_val(s.last());
        let n = dec_val(s);
        assert(n == dec_val(dl) * 10 + digit_val(s.last()));
        assert(n / 10 == dec_val(dl) && n % 10 == digit_val(s.last())) by {
            lemma_fundamental_div_mod_converse(
                n as int,
                10,
                dec_val(dl) as int,
                digit_val(s.last()) as int,
            );
        }
        assert(n >= 10);
        assert(dec_str(n) =~= dec_str(dec_val(dl)).push(digit_char(digit_val(s.last()))));
        assert(dec_str(n) =~= dl.push(s.last()));
        assert(dl.push(s.last()) =~= s);
    }
}

/// Ten to any power is positive.
pub proof fn lemma_pow10_pos(k: nat)
    ensures
        pow10(k) >= 1,
    decreases k,
{
    if k > 0 {
        lemma_pow10_pos((k - 1) as nat);
    }
}

/// Powers of ten grow with the exponent.
pub proof fn lemma_pow10_mono(a: nat, b: nat)
    requires
        a <= b,
    ensures
        pow10(a) <= pow10(b),
    decreases b,
{
    if a < b {
        lemma_pow10_mono(a, (b - 1) as nat);
        lemma_pow10_pos((b - 1) as nat);
    }
}

/// Ten to the twelfth is the atomic-unit scale; this pins its literal
/// value, and the eighth power used to bound whole-XMR digit counts.
pub proof fn lemma_pow10_12()
    ensures
        pow10(8) == 100_000_000,
        pow10(12) == 1_000_000_000_000,
{
    reveal_with_fuel(pow10, 13);
}

/// Ten to the twentieth, the first power of ten past the largest value
/// that fits sixty-four bits.
pub proof fn lemma_pow10_20()
    ensures
        pow10(19) == 10_000_000_000_000_000_000,
        pow10(20) == 100_000_000_000_000_000_000,
{
    reveal_with_fuel(pow10, 21);
}

/// A value below ten to the `k` renders in at most `k` digits.
pub proof fn lemma_dec_str_len_le(n: nat, k: nat)
    requires
        n < pow10(k),
        k >= 1,
    ensures
        dec_str(n).len() <= k,
    decreases n,
{
    if n < 10 {
    } else {
        assert(k >= 2) by {
            if k == 1 {
                assert(pow10(1) == 10) by {
                    reveal_with_fuel(pow10, 2);
                }
            }
        }
        assert(n / 10 < pow10((k - 1) as nat)) by {
            lemma_fundamental_div_mod(n as int, 10);
        }
        lemma_dec_str_len_le(n / 10, (k - 1) as nat);
    }
}

/// A padded rendering has exactly the requested width and holds digits only.
pub proof fn lemma_dec_pad_wf(n: nat, width: nat)
    ensures
        dec_pad(n, width).len() == width,
        all_digits(dec_pad(n, width)),
    decreases width,
{
    if width > 0 {
        lemma_dec_pad_wf(n / 10, (width - 1) as nat);
        lemma_digit_char_val(n % 10);
    }
}

/// A padded rendering of a value that fits the width renders that value.
pub proof fn lemma_dec_val_of_dec_pad(n: nat, width: nat)
    requires
        n < pow10(width),
    ensures
        dec_val(dec_pad(n, width)) == n,
    decreases width,
{
    if width == 0 {
    } else {
        assert(n / 10 < pow10((width - 1) as nat)) by {
            lemma_fundamental_div_mod(n as int, 10);
        }
        lemma_dec_val_of_dec_pad(n / 10, (width - 1) as nat);
        lemma_digit_char_val(n % 10);
        lemma_dec_pad_wf(n / 10, (width - 1) as nat);
        assert(dec_pad(n, width).drop_last() =~= dec_pad(n / 10, (width - 1) as nat));
        assert(dec_pad(n, width).last() == digit_char(n % 10));
        assert(dec_val(dec_pad(n, width)) == (n / 10) * 10 + n % 10);
        assert(n == (n / 10) * 10 + n % 10) by {
            lemma_fundamental_div_mod(n as int, 10);
        }
    }
}

/// Any all-digit sequence is recovered exactly by padding its value to its
/// own length.
pub proof fn lemma_dec_pad_of_dec_val(s: Seq<char>)
    requires
        all_digits(s),
    ensures
        dec_pad(dec_val(s), s.len()) =~= s,
    decreases s.len(),
{
    if s.len() == 0 {
    } else {
        let dl = s.drop_last();
        assert(all_digits(dl)) by {
            assert(forall|i: int| 0 <= i < s.len() - 1 ==> dl[i] == #[trigger] s[i]);
        }
        lemma_dec_pad_of_dec_val(dl);
        lemma_digit_char_of_val(s.last());
        let n = dec_val(s);
        assert(n / 10 == dec_val(dl) && n % 10 == digit_val(s.last())) by {
            lemma_fundamental_div_mod_converse(
                n as int,
                10,
                dec_val(dl) as int,
                digit_val(s.last()) as int,
            );
        }
        assert(dec_pad(n, s.len()) =~= dec_pad(dec_val(dl), dl.len()).push(
            digit_char(digit_val(s.last())),
        ));
        assert(dl.push(s.last()) =~= s);
    }
}

/// The string for a single decimal digit value.
fn digit_str(d: u64) -> (s: &'static str)
    requires
        d < 10,
    ensures
        s@ =~= seq![digit_char(d as nat)],
{
    proof {
        reveal_strlit("0");
        reveal_strlit("1");
        reveal_strlit("2");
        reveal_strlit("3");
        reveal_strlit("4");
        reveal_strlit("5");
        reveal_strlit("6");
        reveal_strlit("7");
        reveal_strlit("8");
        reveal_strlit("9");
    }
    if d == 0 {
        "0"
    } else if d == 1 {
        "1"
    } else if d == 2 {
        "2"
    } else if d == 3 {
        "3"
    } else if d == 4 {
        "4"
    } else if d == 5 {
        "5"
    } else if d == 6 {
        "6"
    } else if d == 7 {
        "7"
    } else if d == 8 {
        "8"
    } else {
        "9"
    }
}

/// Render a number as its canonical decimal string.
pub fn u64_to_dec(n: u64) -> (s: String)
    ensures
        s@ =~= dec_str(n as nat),
    decreases n,
{
    if n < 10 {
        String::from_str(digit_str(n))
    } else {
        let prefix = u64_to_dec(n / 10);
        let s = prefix.concat(digit_str(n % 10));
        proof {
            assert(s@ =~= dec_str((n / 10) as nat).push(digit_char((n % 10) as nat)));
        }
        s
    }
}

/// Render the low `width` digits of a number, zero padded to the width.
pub fn u64_to_dec_pad(n: u64, width: usize) -> (s: String)
    ensures
        s@ =~= dec_pad(n as nat, width as nat),
    decreases width,
{
    if width == 0 {
        String::new()
    } else {
        let prefix = u64_to_dec_pad(n / 10, width - 1);
        let s = prefix.concat(digit_str(n % 10));
        proof {
            assert(s@ =~= dec_pad((n / 10) as nat, (width - 1) as nat).push(
                digit_char((n % 10) as nat),
            ));
        }
        s
    }
}

/// Read the value of a run of decimal digit characters, `from` inclusive
/// to `to` exclusive. Runs of up to twelve digits always fit; a run
/// containing a non-digit is rejected.
pub fn parse_digits(s: &str, from: usize, to: usize) -> (r: Option<u64>)
    requires
        from <= to <= s@.len(),
        to - from <= 12,
    ensures
        match r {
            Some(v) => {
                &&& all_digits(s@.subrange(from as int, to as int))
                &&& v as nat == dec_val(s@.subrange(from as int, to as int))
                &&& v < pow10((to - from) as nat)
            },
            None => !all_digits(s@.subrange(from as int, to as int)),
        },
{
    let ghost whole = s@.subrange(from as int, to as int);
    let mut v: u64 = 0;
    let mut i: usize = from;
    while i < to
        invariant
            from <= i <= to <= s@.len(),
            to - from <= 12,
            whole == s@.subrange(from as int, to as int),
            all_digits(s@.subrange(from as int, i as int)),
            v as nat == dec_val(s@.subrange(from as int, i as int)),
            v < pow10((i - from) as nat),
        decreases to - i,
    {
        let c = s.get_char(i);
        match char_digit_val(c) {
            Option::None => {
                proof {
                    assert(whole[i - from] == s@[i as int]);
                }
                return None;
            },
            Option::Some(d) => {
                proof {
                    lemma_pow10_mono((i - from) as nat, 11);
                    assert(pow10(11) == 100_000_000_000) by {
                        reveal_with_fuel(pow10, 12);
                    }
                }
                v = v * 10 + d;
                proof {
                    let pre = s@.subrange(from as int, i as int);
                    let ext = s@.subrange(from as int, i as int + 1);
                    assert(ext.drop_last() =~= pre);
                    assert(ext.last() == s@[i as int]);
                    assert(dec_val(ext) == dec_val(pre) * 10 + digit_val(s@[i as int]));
                    assert(forall|j: int|
                        0 <= j < ext.len() ==> is_digit_char(#[trigger] ext[j]));
                }
                i = i + 1;
            },
        }
    }
    proof {
        assert(s@.subrange(from as int, i as int) == whole);
    }
    Some(v)
}

/// Whether one character is a decimal digit.
pub fn is_digit(c: char) -> (r: bool)
    ensures
        r == is_digit_char(c),
{
    '0' <= c && c <= '9'
}

/// The numeric value of one character, if it is a decimal digit.
pub fn char_digit_val(c: char) -> (r: Option<u64>)
    ensures
        match r {
            Some(v) => is_digit_char(c) && v as nat == digit_val(c) && v < 10,
            None => !is_digit_char(c),
        },
{
    if '0' <= c && c <= '9' {
        Some(c as u64 - '0' as u64)
    } else {
        None
    }
}

} // verus!
