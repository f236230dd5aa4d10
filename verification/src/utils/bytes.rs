//! Little-endian integers in byte sequences.
use vstd::prelude::*;

verus! {

/// The number of values that `n` bytes can hold.
pub open spec fn radix(n: nat) -> nat
    decreases n,
{
    if n == 0 {
        1
    } else {
        256 * radix((n - 1) as nat)
    }
}

/// The integer that a byte sequence spells, least significant byte first.
pub open spec fn le_value(s: Seq<u8>) -> nat
    decreases s.len(),
{
    if s.len() == 0 {
        0
    } else {
        s[0] as nat + 256 * le_value(s.drop_first())
    }
}

/// The `n` low bytes of an integer, least significant byte first.
pub open spec fn le_bytes(v: nat, n: nat) -> Seq<u8>
    decreases n,
{
    if n == 0 {
        Seq::empty()
    } else {
        seq![(v % 256) as u8] + le_bytes(v / 256, (n - 1) as nat)
    }
}

/// The integer in the `n` bytes that start at `at`.
pub open spec fn le_at(s: Seq<u8>, at: int, n: int) -> nat {
    le_value(s.subrange(at, at + n))
}

pub proof fn le_bytes_len(v: nat, n: nat)
    ensures
        le_bytes(v, n).len() == n,
    decreases n,
{
    if n > 0 {
        le_bytes_len(v / 256, (n - 1) as nat);
    }
}

/// Writing an integer that fits and reading it back gives the integer.
pub proof fn le_round_trip(v: nat, n: nat)
    requires
        v < radix(n),
    ensures
        le_bytes(v, n).len() == n,
        le_value(le_bytes(v, n)) == v,
    decreases n,
{
    if n > 0 {
        le_round_trip(v / 256, (n - 1) as nat);
        let s = le_bytes(v, n);
        assert(s.drop_first() =~= le_bytes(v / 256, (n - 1) as nat));
        assert(s[0] == (v % 256) as u8);
    }
}

/// Reading bytes and writing them again gives the bytes.
pub proof fn le_read_back(s: Seq<u8>)
    ensures
        le_bytes(le_value(s), s.len()) == s,
    decreases s.len(),
{
    if s.len() > 0 {
        le_read_back(s.drop_first());
        let v = le_value(s);
        assert(v % 256 == s[0] as nat);
        assert(v / 256 == le_value(s.drop_first()));
        assert(le_bytes(v, s.len()) =~= s);
    } else {
        assert(le_bytes(le_value(s), s.len()) =~= s);
    }
}

pub proof fn le_value_bound(s: Seq<u8>)
    ensures
        le_value(s) < radix(s.len()),
    decreases s.len(),
{
    if s.len() > 0 {
        le_value_bound(s.drop_first());
    }
}

pub proof fn radix_values()
    ensures
        radix(0) == 1,
        radix(2) == 0x1_0000,
        radix(4) == 0x1_0000_0000,
        radix(8) == 0x1_0000_0000_0000_0000,
{
    reveal_with_fuel(radix, 9);
}

/// Bytes written somewhere in a sequence read back as the integer.
pub proof fn le_at_of_slice(s: Seq<u8>, at: int, v: nat, n: nat)
    requires
        0 <= at,
        at + n <= s.len(),
        v < radix(n),
        s.subrange(at, at + n) == le_bytes(v, n),
    ensures
        le_at(s, at, n as int) == v,
{
    le_round_trip(v, n);
}

/// A part of a part is a part of the whole.
pub broadcast proof fn subrange_of_subrange(s: Seq<u8>, from: int, to: int, a: int, b: int)
    requires
        0 <= from <= to <= s.len(),
        0 <= a <= b <= to - from,
    ensures
        #[trigger] s.subrange(from, to).subrange(a, b) == s.subrange(from + a, from + b),
{
    assert(s.subrange(from, to).subrange(a, b) =~= s.subrange(from + a, from + b));
}

/// Reads `n` bytes as an integer.
pub fn read_le(s: &[u8], at: usize, n: usize) -> (r: u64)
    requires
        at + n <= s@.len(),
        n <= 8,
    ensures
        r == le_at(s@, at as int, n as int),
        r < radix(n as nat),
{
    let ghost part = s@.subrange(at as int, at + n);
    let total: usize = s.len();
    let mut value: u64 = 0;
    let mut i: usize = n;
    while i > 0
        invariant
            i <= n <= 8,
            at + n <= total == s@.len(),
            part == s@.subrange(at as int, at + n),
            value == le_value(part.skip(i as int)),
            value < radix((n - i) as nat),
        decreases i,
    {
        i = i - 1;
        proof {
            let tail = part.skip(i as int);
            assert(tail.drop_first() =~= part.skip(i + 1));
            assert(tail[0] == s@[at + i]);
            le_value_bound(tail);
            reveal_with_fuel(radix, 9);
        }
        value = s[at + i] as u64 + 256 * value;
    }
    proof {
        assert(part.skip(0) =~= part);
    }
    value
}

/// Appends the `n` low bytes of an integer.
pub fn put_le(out: &mut Vec<u8>, v: u64, n: usize)
    ensures
        final(out)@ == old(out)@ + le_bytes(v as nat, n as nat),
{
    let mut rest: u64 = v;
    let mut i: usize = 0;
    while i < n
        invariant
            i <= n,
            out@ + le_bytes(rest as nat, (n - i) as nat) == old(out)@ + le_bytes(
                v as nat,
                n as nat,
            ),
        decreases n - i,
    {
        let ghost before = out@;
        out.push((rest % 256) as u8);
        proof {
            let head = seq![(rest as nat % 256) as u8];
            assert(before + (head + le_bytes((rest / 256) as nat, (n - i - 1) as nat)) =~= out@
                + le_bytes((rest / 256) as nat, (n - i - 1) as nat));
        }
        rest = rest / 256;
        i = i + 1;
    }
    assert(out@ + le_bytes(rest as nat, 0) =~= out@);
}

/// Appends a byte sequence.
pub fn put_bytes(out: &mut Vec<u8>, bytes: &[u8])
    ensures
        final(out)@ == old(out)@ + bytes@,
{
    let mut i: usize = 0;
    while i < bytes.len()
        invariant
            i <= bytes.len(),
            out@ == old(out)@ + bytes@.take(i as int),
        decreases bytes.len() - i,
    {
        proof {
            assert(bytes@.take(i + 1) =~= bytes@.take(i as int).push(bytes@[i as int]));
            assert(old(out)@ + bytes@.take(i + 1) =~= (old(out)@ + bytes@.take(i as int)).push(
                bytes@[i as int],
            ));
        }
        out.push(bytes[i]);
        i = i + 1;
    }
    assert(bytes@.take(bytes@.len() as int) =~= bytes@);
}

/// Whether two byte sequences are equal.
pub fn same_bytes(a: &[u8], b: &[u8]) -> (r: bool)
    ensures
        r == (a@ == b@),
{
    if a.len() != b.len() {
        return false;
    }
    let mut i: usize = 0;
    while i < a.len()
        invariant
            i <= a.len(),
            a.len() == b.len(),
            forall|k: int| 0 <= k < i ==> a@[k] == b@[k],
        decreases a.len() - i,
    {
        if a[i] != b[i] {
            return false;
        }
        i = i + 1;
    }
    assert(a@ =~= b@);
    true
}

} // verus!
