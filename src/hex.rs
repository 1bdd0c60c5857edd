use vstd::prelude::*;

verus! {

/// The sixteen lower-case hexadecimal digits, in order of value.
pub open spec fn hex_digits() -> Seq<char> {
    seq!['0', '1', '2', '3', '4', '5', '6', '7', '8', '9', 'a', 'b', 'c', 'd', 'e', 'f']
}

/// Whether `c` is a lower-case hexadecimal digit.
pub open spec fn is_hex_char(c: char) -> bool {
    ('0' <= c && c <= '9') || ('a' <= c && c <= 'f')
}

/// The value of a hexadecimal digit.
pub open spec fn hex_value_of(c: char) -> nat {
    if c <= '9' {
        (c as int - '0' as int) as nat
    } else {
        (c as int - 'a' as int + 10) as nat
    }
}

/// `16` to the power `n`.
pub open spec fn pow16(n: nat) -> nat
    decreases n,
{
    if n == 0 {
        1
    } else {
        16 * pow16((n - 1) as nat)
    }
}

/// `x` modulo `16^n`, written with exactly `n` digits, most significant first.
pub open spec fn hex_fixed(x: nat, n: nat) -> Seq<char>
    decreases n,
{
    if n == 0 {
        seq![]
    } else {
        hex_fixed(x / 16, (n - 1) as nat).push(hex_digits()[(x % 16) as int])
    }
}

/// The number that a string of hexadecimal digits denotes.
pub open spec fn hex_value(s: Seq<char>) -> nat
    decreases s.len(),
{
    if s.len() == 0 {
        0
    } else {
        hex_value(s.drop_last()) * 16 + hex_value_of(s.last())
    }
}

/// Whether every character of `s` is a lower-case hexadecimal digit.
pub open spec fn all_hex(s: Seq<char>) -> bool {
    forall|i: int| 0 <= i < s.len() ==> is_hex_char(#[trigger] s[i])
}

/// Each byte of `b` as two hexadecimal digits, high half first.
pub open spec fn hex_of_bytes(b: Seq<u8>) -> Seq<char>
    decreases b.len(),
{
    if b.len() == 0 {
        seq![]
    } else {
        hex_of_bytes(b.drop_last()).push(hex_digits()[(b.last() / 16) as int]).push(
            hex_digits()[(b.last() % 16) as int],
        )
    }
}

/// A digit's character reads back as that digit.
pub proof fn lemma_digit_round_trip(d: nat)
    requires
        d < 16,
    ensures
        is_hex_char(hex_digits()[d as int]),
        hex_value_of(hex_digits()[d as int]) == d,
{
}

/// A hexadecimal character is the digit of its value.
pub proof fn lemma_char_round_trip(c: char)
    requires
        is_hex_char(c),
    ensures
        hex_value_of(c) < 16,
        hex_digits()[hex_value_of(c) as int] == c,
{
}

/// `16^16` is `2^64`.
pub proof fn lemma_pow16_16()
    ensures
        pow16(16) == 0x1_0000_0000_0000_0000,
{
    reveal_with_fuel(pow16, 17);
}

/// `hex_fixed` writes `n` hexadecimal digits.
pub proof fn lemma_hex_fixed_shape(x: nat, n: nat)
    ensures
        hex_fixed(x, n).len() == n,
        all_hex(hex_fixed(x, n)),
    decreases n,
{
    if n > 0 {
        lemma_hex_fixed_shape(x / 16, (n - 1) as nat);
        lemma_digit_round_trip(x % 16);
        let s = hex_fixed(x, n);
        assert forall|i: int| 0 <= i < s.len() implies is_hex_char(#[trigger] s[i]) by {
            if i < n - 1 {
                assert(s[i] == hex_fixed(x / 16, (n - 1) as nat)[i]);
            }
        }
    }
}

/// Reading back `n` digits of a number below `16^n` gives the number.
pub proof fn lemma_value_of_fixed(x: nat, n: nat)
    requires
        x < pow16(n),
    ensures
        hex_value(hex_fixed(x, n)) == x,
    decreases n,
{
    if n > 0 {
        assert(x / 16 < pow16((n - 1) as nat)) by (nonlinear_arith)
            requires
                x < 16 * pow16((n - 1) as nat),
        ;
        lemma_value_of_fixed(x / 16, (n - 1) as nat);
        lemma_digit_round_trip(x % 16);
        let s = hex_fixed(x, n);
        assert(s.drop_last() =~= hex_fixed(x / 16, (n - 1) as nat));
        assert(x == (x / 16) * 16 + x % 16) by (nonlinear_arith);
    }
}

/// Writing the value of a string of digits, with as many digits, gives the
/// string back; the value is below `16^len`.
pub proof fn lemma_fixed_of_value(s: Seq<char>)
    requires
        all_hex(s),
    ensures
        hex_value(s) < pow16(s.len()),
        hex_fixed(hex_value(s), s.len()) == s,
    decreases s.len(),
{
    if s.len() > 0 {
        let p = s.drop_last();
        assert(all_hex(p)) by {
            assert forall|i: int| 0 <= i < p.len() implies is_hex_char(#[trigger] p[i]) by {
                assert(p[i] == s[i]);
            }
        }
        lemma_fixed_of_value(p);
        assert(is_hex_char(s[s.len() - 1]));
        lemma_char_round_trip(s.last());
        let v = hex_value(p);
        let d = hex_value_of(s.last());
        let n1 = p.len();
        assert(v * 16 + d < 16 * pow16(n1)) by (nonlinear_arith)
            requires
                v < pow16(n1),
                d < 16,
        ;
        assert((v * 16 + d) / 16 == v && (v * 16 + d) % 16 == d) by (nonlinear_arith)
            requires
                d < 16,
        ;
        assert(hex_fixed(hex_value(s), s.len()) =~= p.push(s.last()));
        assert(p.push(s.last()) =~= s);
    }
}

/// `hex_of_bytes` writes two digits for each byte.
pub proof fn lemma_hex_of_bytes_len(b: Seq<u8>)
    ensures
        hex_of_bytes(b).len() == 2 * b.len(),
    decreases b.len(),
{
    if b.len() > 0 {
        lemma_hex_of_bytes_len(b.drop_last());
    }
}

/// Appends the digit of value `d` to `out`.
pub fn push_hex_digit(out: &mut String, d: u8)
    requires
        d < 16,
    ensures
        final(out)@ == old(out)@.push(hex_digits()[d as int]),
{
    let table = "0123456789abcdef";
    proof {
        reveal_strlit("0123456789abcdef");
    }
    assert(table@ =~= hex_digits());
    let piece = table.substring_ascii(d as usize, d as usize + 1);
    out.append(piece);
    assert(piece@ =~= seq![hex_digits()[d as int]]);
}

/// Appends the `n` lowest hexadecimal digits of `x`, most significant first.
pub fn push_hex_fixed(out: &mut String, x: u64, n: usize)
    ensures
        final(out)@ == old(out)@ + hex_fixed(x as nat, n as nat),
    decreases n,
{
    if n > 0 {
        push_hex_fixed(out, x / 16, n - 1);
        push_hex_digit(out, (x % 16) as u8);
    }
}

/// Appends each byte of `b` as two hexadecimal digits.
pub fn push_hex_of_bytes(out: &mut String, b: &[u8])
    ensures
        final(out)@ == old(out)@ + hex_of_bytes(b@),
{
    let ghost start = out@;
    let mut i: usize = 0;
    while i < b.len()
        invariant
            i <= b@.len(),
            out@ == start + hex_of_bytes(b@.subrange(0, i as int)),
        decreases b@.len() - i,
    {
        let byte = b[i];
        push_hex_digit(out, byte / 16);
        push_hex_digit(out, byte % 16);
        proof {
            assert(b@.subrange(0, i + 1).drop_last() =~= b@.subrange(0, i as int));
        }
        i = i + 1;
    }
    assert(b@.subrange(0, b@.len() as int) =~= b@);
}

/// Reads a string of at most sixteen hexadecimal digits as a number; `None`
/// where a character is no such digit.
pub fn parse_hex_u64(s: &str) -> (r: Option<u64>)
    requires
        s@.len() <= 16,
    ensures
        r is Some <==> all_hex(s@),
        r matches Some(v) ==> v as nat == hex_value(s@),
{
    let n = s.unicode_len();
    let mut v: u64 = 0;
    let mut i: usize = 0;
    while i < n
        invariant
            n == s@.len() <= 16,
            i <= n,
            all_hex(s@.subrange(0, i as int)),
            v as nat == hex_value(s@.subrange(0, i as int)),
        decreases n - i,
    {
        let c = s.get_char(i);
        if !(('0' <= c && c <= '9') || ('a' <= c && c <= 'f')) {
            return None;
        }
        let d: u64 = if c <= '9' {
            (c as u32 - '0' as u32) as u64
        } else {
            (c as u32 - 'a' as u32 + 10) as u64
        };
        let ghost pre = s@.subrange(0, i as int);
        let ghost next = s@.subrange(0, i + 1);
        proof {
            lemma_fixed_of_value(pre);
            lemma_pow16_16();
            lemma_pow16_mono(pre.len(), 15);
            assert(v * 16 + d < pow16(16)) by (nonlinear_arith)
                requires
                    v < pow16(15),
                    d < 16,
                    pow16(16) == 16 * pow16(15),
            ;
            assert(next.drop_last() =~= pre);
            assert(all_hex(next)) by {
                assert forall|j: int| 0 <= j < next.len() implies is_hex_char(#[trigger] next[j]) by {
                    if j < i {
                        assert(next[j] == pre[j]);
                    }
                }
            }
        }
        v = v * 16 + d;
        i = i + 1;
    }
    assert(s@.subrange(0, n as int) =~= s@);
    Some(v)
}

/// `pow16` does not decrease.
pub proof fn lemma_pow16_mono(a: nat, b: nat)
    requires
        a <= b,
    ensures
        pow16(a) <= pow16(b),
    decreases b,
{
    if a < b {
        lemma_pow16_mono(a, (b - 1) as nat);
    }
}

} // verus!
