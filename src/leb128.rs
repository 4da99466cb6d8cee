//! Unsigned LEB128 numbers: seven bits per byte, least significant group first, with the
//! high bit set on every byte but the last.
use vstd::prelude::*;

verus! {

/// The ULEB128 encoding of `v`, in its shortest form.
pub open spec fn uleb128(v: nat) -> Seq<u8>
    decreases v,
{
    if v < 128 {
        seq![v as u8]
    } else {
        seq![(v % 128 + 128) as u8] + uleb128(v / 128)
    }
}

/// The ULEB128 number that starts at index `i` of `s`, read as a value and the index just
/// after its last byte; `None` where `s` ends before a byte with the high bit clear.
pub open spec fn uleb128_at(s: Seq<u8>, i: int) -> Option<(nat, int)>
    decreases s.len() - i,
{
    if i < 0 || i >= s.len() {
        None
    } else if s[i] < 128 {
        Some((s[i] as nat, i + 1))
    } else {
        match uleb128_at(s, i + 1) {
            Some((v, j)) => Some(((s[i] - 128) as nat + 128 * v, j)),
            None => None,
        }
    }
}

/// Reading back the encoding of `v`, wherever it stands, gives `v` and consumes exactly
/// the encoding.
pub proof fn lemma_uleb128_read(s: Seq<u8>, i: int, v: nat)
    requires
        0 <= i,
        i + uleb128(v).len() <= s.len(),
        s.subrange(i, i + uleb128(v).len()) == uleb128(v),
    ensures
        uleb128_at(s, i) == Some((v, i + uleb128(v).len())),
    decreases v,
{
    let e = uleb128(v);
    assert(s[i] == s.subrange(i, i + e.len())[0]);
    if v >= 128 {
        let rest = uleb128(v / 128);
        assert(s.subrange(i + 1, i + 1 + rest.len()) =~= rest) by {
            assert forall|k: int| 0 <= k < rest.len() implies s[i + 1 + k] == rest[k] by {
                assert(s[i + 1 + k] == s.subrange(i, i + e.len())[1 + k]);
            }
        }
        lemma_uleb128_read(s, i + 1, v / 128);
    }
}

/// A number whose bytes all have the high bit set up to the end of `s` cannot be read.
proof fn lemma_uleb128_unterminated(s: Seq<u8>, i: int)
    requires
        0 <= i <= s.len(),
        forall|k: int| i <= k < s.len() ==> s[k] >= 128,
    ensures
        uleb128_at(s, i) is None,
    decreases s.len() - i,
{
    if i < s.len() {
        lemma_uleb128_unterminated(s, i + 1);
    }
}

/// Starting a number earlier, on bytes with the high bit set, never makes it smaller.
proof fn lemma_uleb128_grows(s: Seq<u8>, a: int, b: int)
    requires
        0 <= a <= b,
        uleb128_at(s, b) is Some,
        forall|k: int| a <= k < b ==> s[k] >= 128,
    ensures
        uleb128_at(s, a) is Some,
        uleb128_at(s, a).unwrap().0 >= uleb128_at(s, b).unwrap().0,
        uleb128_at(s, a).unwrap().1 == uleb128_at(s, b).unwrap().1,
    decreases b - a,
{
    if a < b {
        lemma_uleb128_grows(s, a + 1, b);
    }
}

/// A number that can be read ends within the input, after its first byte.
pub proof fn lemma_uleb128_in_bounds(s: Seq<u8>, i: int)
    requires
        uleb128_at(s, i) is Some,
    ensures
        i < uleb128_at(s, i).unwrap().1 <= s.len(),
    decreases s.len() - i,
{
    if s[i] >= 128 {
        lemma_uleb128_in_bounds(s, i + 1);
    }
}

/// Appends the ULEB128 encoding of `v` to `out`.
pub fn encode_uleb128(out: &mut Vec<u8>, v: u64)
    ensures
        final(out)@ == old(out)@ + uleb128(v as nat),
{
    let mut rest: u64 = v;
    while rest >= 128
        invariant
            out@ + uleb128(rest as nat) == old(out)@ + uleb128(v as nat),
        decreases rest,
    {
        let ghost before = out@;
        out.push((rest % 128 + 128) as u8);
        assert(out@ + uleb128((rest / 128) as nat) =~= before + uleb128(rest as nat));
        rest = rest / 128;
    }
    let ghost before = out@;
    out.push(rest as u8);
    assert(out@ =~= before + uleb128(rest as nat));
}

/// How reading a ULEB128 number can go wrong.
pub enum UlebFailure {
    /// The input ends before the number does.
    Truncated,
    /// The number does not fit in 64 bits.
    TooLarge,
}

/// The number at index `i` of `s` as a 64-bit value, or why it cannot be read as one.
pub open spec fn read_uleb128(s: Seq<u8>, i: int) -> Result<(nat, int), UlebFailure> {
    match uleb128_at(s, i) {
        None => Err(UlebFailure::Truncated),
        Some((v, j)) => if v > u64::MAX {
            Err(UlebFailure::TooLarge)
        } else {
            Ok((v, j))
        },
    }
}

/// Reads the ULEB128 number that starts at index `start` of `s`: its value and the index
/// just after it.
pub fn decode_uleb128(s: &[u8], start: usize) -> (r: Result<(u64, usize), UlebFailure>)
    requires
        start <= s@.len(),
    ensures
        r matches Ok((v, j)) ==> read_uleb128(s@, start as int) == Ok::<(nat, int), UlebFailure>(
            (v as nat, j as int),
        ),
        r matches Err(f) ==> read_uleb128(s@, start as int) == Err::<(nat, int), UlebFailure>(f),
{
    let mut end: usize = start;
    while end < s.len() && s[end] >= 128
        invariant
            start <= end <= s@.len(),
            forall|k: int| start <= k < end ==> s@[k] >= 128,
        decreases s@.len() - end,
    {
        end += 1;
    }
    if end == s.len() {
        proof {
            lemma_uleb128_unterminated(s@, start as int);
        }
        return Err(UlebFailure::Truncated);
    }
    let mut value: u64 = s[end] as u64;
    let mut k: usize = end;
    while k > start
        invariant
            start <= k <= end < s@.len(),
            forall|m: int| start <= m < end ==> s@[m] >= 128,
            uleb128_at(s@, k as int) == Some((value as nat, end as int + 1)),
        decreases k,
    {
        let low: u64 = (s[k - 1] - 128) as u64;
        match value.checked_mul(128) {
            Some(high) => match high.checked_add(low) {
                Some(next) => {
                    value = next;
                    k -= 1;
                },
                None => {
                    proof {
                        lemma_uleb128_grows(s@, start as int, k - 1);
                    }
                    return Err(UlebFailure::TooLarge);
                },
            },
            None => {
                proof {
                    lemma_uleb128_grows(s@, start as int, k - 1);
                }
                return Err(UlebFailure::TooLarge);
            },
        }
    }
    Ok((value, end + 1))
}

} // verus!
