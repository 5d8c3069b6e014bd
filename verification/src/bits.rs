//! Words read as sets of bit positions: the model behind `Buttons` and `Lights`.
use vstd::prelude::*;

verus! {

broadcast use vstd::seq_lib::seq_to_set_is_finite;

/// The set of a sequence grows by the pushed element.
pub proof fn lemma_push_to_set<A>(s: Seq<A>, x: A)
    ensures
        s.push(x).to_set() == s.to_set().insert(x),
{
    assert forall|a: A| #[trigger] s.push(x).to_set().contains(a) implies s.to_set().insert(x).contains(a) by {
        let k = choose|k: int| 0 <= k < s.push(x).len() && s.push(x)[k] == a;
        if k < s.len() {
            assert(s[k] == a);
        }
    }
    assert forall|a: A| #[trigger] s.to_set().insert(x).contains(a) implies s.push(x).to_set().contains(a) by {
        if a == x {
            assert(s.push(x)[s.len() as int] == x);
        } else {
            let k = choose|k: int| 0 <= k < s.len() && s[k] == a;
            assert(s.push(x)[k] == a);
        }
    }
    assert(s.push(x).to_set() =~= s.to_set().insert(x));
}

/// The numbers of `s`, as a set of integers.
pub open spec fn usize_seq_to_set(s: Seq<usize>) -> Set<int> {
    s.map_values(|x: usize| x as int).to_set()
}

// ---------------------------------------------------------------------------
// Bits of a `u16` word.
// ---------------------------------------------------------------------------

/// Bit `i` of `v` is set (bit 0 is the least significant one).
pub open spec fn bit16(v: u16, i: int) -> bool {
    0 <= i < 16 && (v >> (i as u16)) & 1u16 == 1u16
}

/// The positions below `n` whose bit is set in `v`.
pub open spec fn set16(v: u16, n: int) -> Set<int> {
    Set::new(|i: int| 0 <= i < n && bit16(v, i))
}

/// The positions below `n` whose bit is set in `v`, in increasing order.
pub open spec fn seq16(v: u16, n: nat) -> Seq<int>
    decreases n,
{
    if n == 0 {
        Seq::empty()
    } else if bit16(v, n - 1) {
        seq16(v, (n - 1) as nat).push(n - 1)
    } else {
        seq16(v, (n - 1) as nat)
    }
}

proof fn lemma_bit16_point(a: u16, b: u16, i: u16)
    by (bit_vector)
    requires
        i < 16,
    ensures
        ((a | b) >> i) & 1u16 == 1u16 <==> ((a >> i) & 1u16 == 1u16 || (b >> i) & 1u16 == 1u16),
        ((a & b) >> i) & 1u16 == 1u16 <==> ((a >> i) & 1u16 == 1u16 && (b >> i) & 1u16 == 1u16),
        ((a ^ b) >> i) & 1u16 == 1u16 <==> ((a >> i) & 1u16 == 1u16) != ((b >> i) & 1u16 == 1u16),
        ((!a) >> i) & 1u16 == 1u16 <==> !((a >> i) & 1u16 == 1u16),
        (0u16 >> i) & 1u16 != 1u16,
        b < 16 ==> (((1u16 << b) >> i) & 1u16 == 1u16 <==> i == b),
{
}

/// What `|`, `&`, `^` and `!` do to each bit, and which bits `0` and `1 << k` have.
pub proof fn lemma_bit16_ops(a: u16, b: u16)
    ensures
        forall|i: int| #[trigger] bit16(a | b, i) == (bit16(a, i) || bit16(b, i)),
        forall|i: int| #[trigger] bit16(a & b, i) == (bit16(a, i) && bit16(b, i)),
        forall|i: int| #[trigger] bit16(a ^ b, i) == (bit16(a, i) != bit16(b, i)),
        forall|i: int| 0 <= i < 16 ==> #[trigger] bit16(!a, i) == !bit16(a, i),
        forall|i: int| !#[trigger] bit16(0u16, i),
        b < 16 ==> forall|i: int| #[trigger] bit16(1u16 << b, i) == (i == b),
{
    assert forall|i: int| #[trigger] bit16(a | b, i) == (bit16(a, i) || bit16(b, i)) by {
        if 0 <= i < 16 {
            lemma_bit16_point(a, b, i as u16);
        }
    }
    assert forall|i: int| #[trigger] bit16(a & b, i) == (bit16(a, i) && bit16(b, i)) by {
        if 0 <= i < 16 {
            lemma_bit16_point(a, b, i as u16);
        }
    }
    assert forall|i: int| #[trigger] bit16(a ^ b, i) == (bit16(a, i) != bit16(b, i)) by {
        if 0 <= i < 16 {
            lemma_bit16_point(a, b, i as u16);
        }
    }
    assert forall|i: int| 0 <= i < 16 implies #[trigger] bit16(!a, i) == !bit16(a, i) by {
        lemma_bit16_point(a, b, i as u16);
    }
    assert forall|i: int| !#[trigger] bit16(0u16, i) by {
        if 0 <= i < 16 {
            lemma_bit16_point(a, b, i as u16);
        }
    }
    if b < 16 {
        assert forall|i: int| #[trigger] bit16(1u16 << b, i) == (i == b) by {
            if 0 <= i < 16 {
                lemma_bit16_point(a, b, i as u16);
            }
        }
    }
}

proof fn lemma_bit16_nonzero(a: u16, i: u16)
    by (bit_vector)
    ensures
        ((a >> i) & 1u16 != 0u16) == ((a >> i) & 1u16 == 1u16),
{
}

proof fn lemma_bit16_bound_point(a: u16, b: u16, i: u16)
    by (bit_vector)
    ensures
        a < 1024u16 && b < 1024u16 ==> (a | b) < 1024u16,
        a < 1024u16 ==> (a & b) < 1024u16 && (b & a) < 1024u16,
        a < 1024u16 && b < 1024u16 ==> (a ^ b) < 1024u16,
        (!a) & 1023u16 < 1024u16,
        i < 10 ==> (1u16 << i) < 1024u16,
        a < 1024u16 && 10 <= i < 16 ==> (a >> i) & 1u16 != 1u16,
{
}

/// Words below `1024u16` have no bit set at `10` or above, and the usual operations stay below it.
pub proof fn lemma_bit16_bound(a: u16, b: u16)
    ensures
        a < 1024u16 && b < 1024u16 ==> (a | b) < 1024u16,
        a < 1024u16 ==> (a & b) < 1024u16 && (b & a) < 1024u16,
        a < 1024u16 && b < 1024u16 ==> (a ^ b) < 1024u16,
        (!a) & 1023u16 < 1024u16,
        forall|i: u16| i < 10 ==> #[trigger] (1u16 << i) < 1024u16,
        a < 1024u16 ==> forall|i: int| 10 <= i ==> !#[trigger] bit16(a, i),
{
    lemma_bit16_bound_point(a, b, 0);
    assert forall|i: u16| i < 10 implies #[trigger] (1u16 << i) < 1024u16 by {
        lemma_bit16_bound_point(a, b, i);
    }
    if a < 1024u16 {
        assert forall|i: int| 10 <= i implies !#[trigger] bit16(a, i) by {
            if i < 16 {
                lemma_bit16_bound_point(a, b, i as u16);
            }
        }
    }
}

proof fn lemma_bit16_ext_point(a: u16, b: u16)
    by (bit_vector)
    requires
        (a >> 0u16) & 1u16 == (b >> 0u16) & 1u16,
        (a >> 1u16) & 1u16 == (b >> 1u16) & 1u16,
        (a >> 2u16) & 1u16 == (b >> 2u16) & 1u16,
        (a >> 3u16) & 1u16 == (b >> 3u16) & 1u16,
        (a >> 4u16) & 1u16 == (b >> 4u16) & 1u16,
        (a >> 5u16) & 1u16 == (b >> 5u16) & 1u16,
        (a >> 6u16) & 1u16 == (b >> 6u16) & 1u16,
        (a >> 7u16) & 1u16 == (b >> 7u16) & 1u16,
        (a >> 8u16) & 1u16 == (b >> 8u16) & 1u16,
        (a >> 9u16) & 1u16 == (b >> 9u16) & 1u16,
        (a >> 10u16) & 1u16 == (b >> 10u16) & 1u16,
        (a >> 11u16) & 1u16 == (b >> 11u16) & 1u16,
        (a >> 12u16) & 1u16 == (b >> 12u16) & 1u16,
        (a >> 13u16) & 1u16 == (b >> 13u16) & 1u16,
        (a >> 14u16) & 1u16 == (b >> 14u16) & 1u16,
        (a >> 15u16) & 1u16 == (b >> 15u16) & 1u16,
    ensures
        a == b,
{
}

/// Two words with the same bits are equal.
pub proof fn lemma_bit16_ext(a: u16, b: u16)
    requires
        forall|i: int| 0 <= i < 16 ==> bit16(a, i) == bit16(b, i),
    ensures
        a == b,
{
    assert forall|i: u16| i < 16 implies (a >> i) & 1u16 == (b >> i) & 1u16 by {
        assert(bit16(a, i as int) == bit16(b, i as int));
        lemma_bit16_point2(a, b, i);
    }
    assert((a >> 0u16) & 1u16 == (b >> 0u16) & 1u16);
    assert((a >> 1u16) & 1u16 == (b >> 1u16) & 1u16);
    assert((a >> 2u16) & 1u16 == (b >> 2u16) & 1u16);
    assert((a >> 3u16) & 1u16 == (b >> 3u16) & 1u16);
    assert((a >> 4u16) & 1u16 == (b >> 4u16) & 1u16);
    assert((a >> 5u16) & 1u16 == (b >> 5u16) & 1u16);
    assert((a >> 6u16) & 1u16 == (b >> 6u16) & 1u16);
    assert((a >> 7u16) & 1u16 == (b >> 7u16) & 1u16);
    assert((a >> 8u16) & 1u16 == (b >> 8u16) & 1u16);
    assert((a >> 9u16) & 1u16 == (b >> 9u16) & 1u16);
    assert((a >> 10u16) & 1u16 == (b >> 10u16) & 1u16);
    assert((a >> 11u16) & 1u16 == (b >> 11u16) & 1u16);
    assert((a >> 12u16) & 1u16 == (b >> 12u16) & 1u16);
    assert((a >> 13u16) & 1u16 == (b >> 13u16) & 1u16);
    assert((a >> 14u16) & 1u16 == (b >> 14u16) & 1u16);
    assert((a >> 15u16) & 1u16 == (b >> 15u16) & 1u16);
    lemma_bit16_ext_point(a, b);
}

proof fn lemma_bit16_point2(a: u16, b: u16, i: u16)
    by (bit_vector)
    requires
        i < 16,
        ((a >> i) & 1u16 == 1u16) == ((b >> i) & 1u16 == 1u16),
    ensures
        (a >> i) & 1u16 == (b >> i) & 1u16,
{
}

/// One more position adds its bit to `set16`.
pub proof fn lemma_set16_step(v: u16, n: int)
    requires
        0 <= n,
    ensures
        set16(v, n + 1) == (if bit16(v, n) { set16(v, n).insert(n) } else { set16(v, n) }),
{
    if bit16(v, n) {
        assert(set16(v, n + 1) =~= set16(v, n).insert(n));
    } else {
        assert(set16(v, n + 1) =~= set16(v, n));
    }
}

/// `set16` is finite, its elements are the elements of `seq16`, which lists them in increasing order.
pub proof fn lemma_seq16(v: u16, n: nat)
    ensures
        set16(v, n as int).finite(),
        seq16(v, n).to_set() == set16(v, n as int),
        seq16(v, n).len() == set16(v, n as int).len(),
        seq16(v, n).no_duplicates(),
        forall|k: int| 0 <= k < seq16(v, n).len() ==> 0 <= #[trigger] seq16(v, n)[k] < n,
        forall|k: int, l: int| 0 <= k < l < seq16(v, n).len() ==> #[trigger] seq16(v, n)[k] < #[trigger] seq16(v, n)[l],
        forall|k: int| 0 <= k < seq16(v, n).len() ==> bit16(v, #[trigger] seq16(v, n)[k]),
    decreases n,
{
    if n == 0 {
        assert(set16(v, 0) =~= Set::empty());
        assert(seq16(v, 0).to_set() =~= Set::empty());
    } else {
        let m = (n - 1) as nat;
        lemma_seq16(v, m);
        lemma_set16_step(v, m as int);
        let s = seq16(v, m);
        if bit16(v, m as int) {
            assert(seq16(v, n) == s.push(m as int));
            assert(!s.contains(m as int)) by {
                if s.contains(m as int) {
                    let k = choose|k: int| 0 <= k < s.len() && s[k] == m as int;
                    assert(s[k] < m);
                }
            }
            lemma_push_to_set(s, m as int);
            assert(forall|k: int| 0 <= k < s.len() ==> s.push(m as int)[k] == s[k]);
        }
    }
    seq16(v, n).unique_seq_to_set();
}

/// Words that agree below `n` have the same `seq16` and `set16` up to `n`.
pub proof fn lemma_seq16_agree(a: u16, b: u16, n: nat)
    requires
        forall|i: int| 0 <= i < n ==> bit16(a, i) == bit16(b, i),
    ensures
        seq16(a, n) == seq16(b, n),
        set16(a, n as int) == set16(b, n as int),
    decreases n,
{
    assert(set16(a, n as int) =~= set16(b, n as int));
    if n > 0 {
        lemma_seq16_agree(a, b, (n - 1) as nat);
    }
}

/// Without bits in `m..n`, `seq16` does not grow from `m` to `n`.
pub proof fn lemma_seq16_gap(v: u16, m: nat, n: nat)
    requires
        m <= n,
        forall|i: int| m <= i < n ==> !bit16(v, i),
    ensures
        seq16(v, n) == seq16(v, m),
    decreases n,
{
    if n > m {
        lemma_seq16_gap(v, m, (n - 1) as nat);
    }
}

/// Clearing the lowest set bit `t` drops the first element of `seq16`.
pub proof fn lemma_seq16_drop_lowest(v: u16, t: u16, n: nat)
    requires
        t < n <= 16,
        bit16(v, t as int),
        forall|j: int| 0 <= j < t ==> !bit16(v, j),
    ensures
        seq16(v, n) == seq![t as int] + seq16(v ^ (1u16 << t), n),
    decreases n,
{
    let w = v ^ (1u16 << t);
    lemma_bit16_ops(v, 1u16 << t);
    lemma_bit16_ops(0, t);
    if n == t + 1 {
        lemma_seq16_gap(v, 0, t as nat);
        lemma_seq16_gap(w, 0, n);
        assert(seq16(v, n) =~= seq![t as int] + seq16(w, n));
    } else {
        let m = (n - 1) as nat;
        lemma_seq16_drop_lowest(v, t, m);
        assert(bit16(w, m as int) == bit16(v, m as int));
        if bit16(v, m as int) {
            assert(seq16(v, n) =~= seq![t as int] + seq16(w, n));
        } else {
            assert(seq16(v, n) =~= seq![t as int] + seq16(w, n));
        }
    }
}

/// Clearing the highest set bit `h` drops the last element of `seq16`.
pub proof fn lemma_seq16_drop_highest(v: u16, h: u16, n: nat)
    requires
        h < n <= 16,
        bit16(v, h as int),
        forall|j: int| h < j < 16 ==> !bit16(v, j),
    ensures
        seq16(v, n) == seq16(v ^ (1u16 << h), n).push(h as int),
{
    let w = v ^ (1u16 << h);
    lemma_bit16_ops(v, 1u16 << h);
    lemma_bit16_ops(0, h);
    lemma_seq16_gap(v, (h + 1) as nat, n);
    lemma_seq16_gap(w, h as nat, n);
    lemma_seq16_agree(v, w, h as nat);
}

/// The lowest set bit of a non-zero word.
pub fn lowest_bit16(v: u16) -> (t: u16)
    requires
        v != 0,
    ensures
        t < 16,
        bit16(v, t as int),
        forall|j: int| 0 <= j < t ==> !bit16(v, j),
{
    let t = v.trailing_zeros();
    proof {
        broadcast use vstd::std_specs::bits::axiom_u16_trailing_zeros;
        assert forall|j: int| 0 <= j < t implies !bit16(v, j) by {
            assert((v >> (j as u16)) & 1u16 == 0u16);
        }
    }
    t as u16
}

/// The highest set bit of a non-zero word.
pub fn highest_bit16(v: u16) -> (h: u16)
    requires
        v != 0,
    ensures
        h < 16,
        bit16(v, h as int),
        forall|j: int| h < j < 16 ==> !bit16(v, j),
{
    let z = v.leading_zeros();
    proof {
        broadcast use vstd::std_specs::bits::axiom_u16_leading_zeros;
    }
    let h = (16 - 1 - z) as u16;
    proof {
        lemma_bit16_nonzero(v, h);
        assert forall|j: int| h < j < 16 implies !bit16(v, j) by {
            assert((v >> (j as u16)) & 1u16 == 0u16);
        }
    }
    h
}

/// A word lists no positions exactly when it is zero.
pub proof fn lemma_seq16_empty(v: u16)
    ensures
        (seq16(v, 16 as nat).len() == 0) == (v == 0),
{
    lemma_seq16(v, 16 as nat);
    lemma_bit16_ops(0, 0);
    if v == 0 {
        lemma_seq16_gap(0, 0, 16 as nat);
    }
    if seq16(v, 16 as nat).len() == 0 {
        assert forall|i: int| 0 <= i < 16 implies bit16(v, i) == bit16(0, i) by {
            if bit16(v, i) {
                assert(set16(v, 16 as int).contains(i));
                assert(seq16(v, 16 as nat).to_set().contains(i));
            }
        }
        lemma_bit16_ext(v, 0);
    }
}

// ---------------------------------------------------------------------------
// Bits of a `u64` word.
// ---------------------------------------------------------------------------

/// Bit `i` of `v` is set (bit 0 is the least significant one).
pub open spec fn bit64(v: u64, i: int) -> bool {
    0 <= i < 64 && (v >> (i as u64)) & 1u64 == 1u64
}

/// The positions below `n` whose bit is set in `v`.
pub open spec fn set64(v: u64, n: int) -> Set<int> {
    Set::new(|i: int| 0 <= i < n && bit64(v, i))
}

/// The positions below `n` whose bit is set in `v`, in increasing order.
pub open spec fn seq64(v: u64, n: nat) -> Seq<int>
    decreases n,
{
    if n == 0 {
        Seq::empty()
    } else if bit64(v, n - 1) {
        seq64(v, (n - 1) as nat).push(n - 1)
    } else {
        seq64(v, (n - 1) as nat)
    }
}

proof fn lemma_bit64_point(a: u64, b: u64, i: u64)
    by (bit_vector)
    requires
        i < 64,
    ensures
        ((a | b) >> i) & 1u64 == 1u64 <==> ((a >> i) & 1u64 == 1u64 || (b >> i) & 1u64 == 1u64),
        ((a & b) >> i) & 1u64 == 1u64 <==> ((a >> i) & 1u64 == 1u64 && (b >> i) & 1u64 == 1u64),
        ((a ^ b) >> i) & 1u64 == 1u64 <==> ((a >> i) & 1u64 == 1u64) != ((b >> i) & 1u64 == 1u64),
        ((!a) >> i) & 1u64 == 1u64 <==> !((a >> i) & 1u64 == 1u64),
        (0u64 >> i) & 1u64 != 1u64,
        b < 64 ==> (((1u64 << b) >> i) & 1u64 == 1u64 <==> i == b),
{
}

/// What `|`, `&`, `^` and `!` do to each bit, and which bits `0` and `1 << k` have.
pub proof fn lemma_bit64_ops(a: u64, b: u64)
    ensures
        forall|i: int| #[trigger] bit64(a | b, i) == (bit64(a, i) || bit64(b, i)),
        forall|i: int| #[trigger] bit64(a & b, i) == (bit64(a, i) && bit64(b, i)),
        forall|i: int| #[trigger] bit64(a ^ b, i) == (bit64(a, i) != bit64(b, i)),
        forall|i: int| 0 <= i < 64 ==> #[trigger] bit64(!a, i) == !bit64(a, i),
        forall|i: int| !#[trigger] bit64(0u64, i),
        b < 64 ==> forall|i: int| #[trigger] bit64(1u64 << b, i) == (i == b),
{
    assert forall|i: int| #[trigger] bit64(a | b, i) == (bit64(a, i) || bit64(b, i)) by {
        if 0 <= i < 64 {
            lemma_bit64_point(a, b, i as u64);
        }
    }
    assert forall|i: int| #[trigger] bit64(a & b, i) == (bit64(a, i) && bit64(b, i)) by {
        if 0 <= i < 64 {
            lemma_bit64_point(a, b, i as u64);
        }
    }
    assert forall|i: int| #[trigger] bit64(a ^ b, i) == (bit64(a, i) != bit64(b, i)) by {
        if 0 <= i < 64 {
            lemma_bit64_point(a, b, i as u64);
        }
    }
    assert forall|i: int| 0 <= i < 64 implies #[trigger] bit64(!a, i) == !bit64(a, i) by {
        lemma_bit64_point(a, b, i as u64);
    }
    assert forall|i: int| !#[trigger] bit64(0u64, i) by {
        if 0 <= i < 64 {
            lemma_bit64_point(a, b, i as u64);
        }
    }
    if b < 64 {
        assert forall|i: int| #[trigger] bit64(1u64 << b, i) == (i == b) by {
            if 0 <= i < 64 {
                lemma_bit64_point(a, b, i as u64);
            }
        }
    }
}

proof fn lemma_bit64_nonzero(a: u64, i: u64)
    by (bit_vector)
    ensures
        ((a >> i) & 1u64 != 0u64) == ((a >> i) & 1u64 == 1u64),
{
}

proof fn lemma_bit64_bound_point(a: u64, b: u64, i: u64)
    by (bit_vector)
    ensures
        a < 0x100_0000_0000u64 && b < 0x100_0000_0000u64 ==> (a | b) < 0x100_0000_0000u64,
        a < 0x100_0000_0000u64 ==> (a & b) < 0x100_0000_0000u64 && (b & a) < 0x100_0000_0000u64,
        a < 0x100_0000_0000u64 && b < 0x100_0000_0000u64 ==> (a ^ b) < 0x100_0000_0000u64,
        (!a) & 0xff_ffff_ffffu64 < 0x100_0000_0000u64,
        i < 40 ==> (1u64 << i) < 0x100_0000_0000u64,
        a < 0x100_0000_0000u64 && 40 <= i < 64 ==> (a >> i) & 1u64 != 1u64,
{
}

/// Words below `0x100_0000_0000u64` have no bit set at `40` or above, and the usual operations stay below it.
pub proof fn lemma_bit64_bound(a: u64, b: u64)
    ensures
        a < 0x100_0000_0000u64 && b < 0x100_0000_0000u64 ==> (a | b) < 0x100_0000_0000u64,
        a < 0x100_0000_0000u64 ==> (a & b) < 0x100_0000_0000u64 && (b & a) < 0x100_0000_0000u64,
        a < 0x100_0000_0000u64 && b < 0x100_0000_0000u64 ==> (a ^ b) < 0x100_0000_0000u64,
        (!a) & 0xff_ffff_ffffu64 < 0x100_0000_0000u64,
        forall|i: u64| i < 40 ==> #[trigger] (1u64 << i) < 0x100_0000_0000u64,
        a < 0x100_0000_0000u64 ==> forall|i: int| 40 <= i ==> !#[trigger] bit64(a, i),
{
    lemma_bit64_bound_point(a, b, 0);
    assert forall|i: u64| i < 40 implies #[trigger] (1u64 << i) < 0x100_0000_0000u64 by {
        lemma_bit64_bound_point(a, b, i);
    }
    if a < 0x100_0000_0000u64 {
        assert forall|i: int| 40 <= i implies !#[trigger] bit64(a, i) by {
            if i < 64 {
                lemma_bit64_bound_point(a, b, i as u64);
            }
        }
    }
}

proof fn lemma_bit64_ext_point(a: u64, b: u64)
    by (bit_vector)
    requires
        (a >> 0u64) & 1u64 == (b >> 0u64) & 1u64,
        (a >> 1u64) & 1u64 == (b >> 1u64) & 1u64,
        (a >> 2u64) & 1u64 == (b >> 2u64) & 1u64,
        (a >> 3u64) & 1u64 == (b >> 3u64) & 1u64,
        (a >> 4u64) & 1u64 == (b >> 4u64) & 1u64,
        (a >> 5u64) & 1u64 == (b >> 5u64) & 1u64,
        (a >> 6u64) & 1u64 == (b >> 6u64) & 1u64,
        (a >> 7u64) & 1u64 == (b >> 7u64) & 1u64,
        (a >> 8u64) & 1u64 == (b >> 8u64) & 1u64,
        (a >> 9u64) & 1u64 == (b >> 9u64) & 1u64,
        (a >> 10u64) & 1u64 == (b >> 10u64) & 1u64,
        (a >> 11u64) & 1u64 == (b >> 11u64) & 1u64,
        (a >> 12u64) & 1u64 == (b >> 12u64) & 1u64,
        (a >> 13u64) & 1u64 == (b >> 13u64) & 1u64,
        (a >> 14u64) & 1u64 == (b >> 14u64) & 1u64,
        (a >> 15u64) & 1u64 == (b >> 15u64) & 1u64,
        (a >> 16u64) & 1u64 == (b >> 16u64) & 1u64,
        (a >> 17u64) & 1u64 == (b >> 17u64) & 1u64,
        (a >> 18u64) & 1u64 == (b >> 18u64) & 1u64,
        (a >> 19u64) & 1u64 == (b >> 19u64) & 1u64,
        (a >> 20u64) & 1u64 == (b >> 20u64) & 1u64,
        (a >> 21u64) & 1u64 == (b >> 21u64) & 1u64,
        (a >> 22u64) & 1u64 == (b >> 22u64) & 1u64,
        (a >> 23u64) & 1u64 == (b >> 23u64) & 1u64,
        (a >> 24u64) & 1u64 == (b >> 24u64) & 1u64,
        (a >> 25u64) & 1u64 == (b >> 25u64) & 1u64,
        (a >> 26u64) & 1u64 == (b >> 26u64) & 1u64,
        (a >> 27u64) & 1u64 == (b >> 27u64) & 1u64,
        (a >> 28u64) & 1u64 == (b >> 28u64) & 1u64,
        (a >> 29u64) & 1u64 == (b >> 29u64) & 1u64,
        (a >> 30u64) & 1u64 == (b >> 30u64) & 1u64,
        (a >> 31u64) & 1u64 == (b >> 31u64) & 1u64,
        (a >> 32u64) & 1u64 == (b >> 32u64) & 1u64,
        (a >> 33u64) & 1u64 == (b >> 33u64) & 1u64,
        (a >> 34u64) & 1u64 == (b >> 34u64) & 1u64,
        (a >> 35u64) & 1u64 == (b >> 35u64) & 1u64,
        (a >> 36u64) & 1u64 == (b >> 36u64) & 1u64,
        (a >> 37u64) & 1u64 == (b >> 37u64) & 1u64,
        (a >> 38u64) & 1u64 == (b >> 38u64) & 1u64,
        (a >> 39u64) & 1u64 == (b >> 39u64) & 1u64,
        (a >> 40u64) & 1u64 == (b >> 40u64) & 1u64,
        (a >> 41u64) & 1u64 == (b >> 41u64) & 1u64,
        (a >> 42u64) & 1u64 == (b >> 42u64) & 1u64,
        (a >> 43u64) & 1u64 == (b >> 43u64) & 1u64,
        (a >> 44u64) & 1u64 == (b >> 44u64) & 1u64,
        (a >> 45u64) & 1u64 == (b >> 45u64) & 1u64,
        (a >> 46u64) & 1u64 == (b >> 46u64) & 1u64,
        (a >> 47u64) & 1u64 == (b >> 47u64) & 1u64,
        (a >> 48u64) & 1u64 == (b >> 48u64) & 1u64,
        (a >> 49u64) & 1u64 == (b >> 49u64) & 1u64,
        (a >> 50u64) & 1u64 == (b >> 50u64) & 1u64,
        (a >> 51u64) & 1u64 == (b >> 51u64) & 1u64,
        (a >> 52u64) & 1u64 == (b >> 52u64) & 1u64,
        (a >> 53u64) & 1u64 == (b >> 53u64) & 1u64,
        (a >> 54u64) & 1u64 == (b >> 54u64) & 1u64,
        (a >> 55u64) & 1u64 == (b >> 55u64) & 1u64,
        (a >> 56u64) & 1u64 == (b >> 56u64) & 1u64,
        (a >> 57u64) & 1u64 == (b >> 57u64) & 1u64,
        (a >> 58u64) & 1u64 == (b >> 58u64) & 1u64,
        (a >> 59u64) & 1u64 == (b >> 59u64) & 1u64,
        (a >> 60u64) & 1u64 == (b >> 60u64) & 1u64,
        (a >> 61u64) & 1u64 == (b >> 61u64) & 1u64,
        (a >> 62u64) & 1u64 == (b >> 62u64) & 1u64,
        (a >> 63u64) & 1u64 == (b >> 63u64) & 1u64,
    ensures
        a == b,
{
}

/// Two words with the same bits are equal.
pub proof fn lemma_bit64_ext(a: u64, b: u64)
    requires
        forall|i: int| 0 <= i < 64 ==> bit64(a, i) == bit64(b, i),
    ensures
        a == b,
{
    assert forall|i: u64| i < 64 implies (a >> i) & 1u64 == (b >> i) & 1u64 by {
        assert(bit64(a, i as int) == bit64(b, i as int));
        lemma_bit64_point2(a, b, i);
    }
    assert((a >> 0u64) & 1u64 == (b >> 0u64) & 1u64);
    assert((a >> 1u64) & 1u64 == (b >> 1u64) & 1u64);
    assert((a >> 2u64) & 1u64 == (b >> 2u64) & 1u64);
    assert((a >> 3u64) & 1u64 == (b >> 3u64) & 1u64);
    assert((a >> 4u64) & 1u64 == (b >> 4u64) & 1u64);
    assert((a >> 5u64) & 1u64 == (b >> 5u64) & 1u64);
    assert((a >> 6u64) & 1u64 == (b >> 6u64) & 1u64);
    assert((a >> 7u64) & 1u64 == (b >> 7u64) & 1u64);
    assert((a >> 8u64) & 1u64 == (b >> 8u64) & 1u64);
    assert((a >> 9u64) & 1u64 == (b >> 9u64) & 1u64);
    assert((a >> 10u64) & 1u64 == (b >> 10u64) & 1u64);
    assert((a >> 11u64) & 1u64 == (b >> 11u64) & 1u64);
    assert((a >> 12u64) & 1u64 == (b >> 12u64) & 1u64);
    assert((a >> 13u64) & 1u64 == (b >> 13u64) & 1u64);
    assert((a >> 14u64) & 1u64 == (b >> 14u64) & 1u64);
    assert((a >> 15u64) & 1u64 == (b >> 15u64) & 1u64);
    assert((a >> 16u64) & 1u64 == (b >> 16u64) & 1u64);
    assert((a >> 17u64) & 1u64 == (b >> 17u64) & 1u64);
    assert((a >> 18u64) & 1u64 == (b >> 18u64) & 1u64);
    assert((a >> 19u64) & 1u64 == (b >> 19u64) & 1u64);
    assert((a >> 20u64) & 1u64 == (b >> 20u64) & 1u64);
    assert((a >> 21u64) & 1u64 == (b >> 21u64) & 1u64);
    assert((a >> 22u64) & 1u64 == (b >> 22u64) & 1u64);
    assert((a >> 23u64) & 1u64 == (b >> 23u64) & 1u64);
    assert((a >> 24u64) & 1u64 == (b >> 24u64) & 1u64);
    assert((a >> 25u64) & 1u64 == (b >> 25u64) & 1u64);
    assert((a >> 26u64) & 1u64 == (b >> 26u64) & 1u64);
    assert((a >> 27u64) & 1u64 == (b >> 27u64) & 1u64);
    assert((a >> 28u64) & 1u64 == (b >> 28u64) & 1u64);
    assert((a >> 29u64) & 1u64 == (b >> 29u64) & 1u64);
    assert((a >> 30u64) & 1u64 == (b >> 30u64) & 1u64);
    assert((a >> 31u64) & 1u64 == (b >> 31u64) & 1u64);
    assert((a >> 32u64) & 1u64 == (b >> 32u64) & 1u64);
    assert((a >> 33u64) & 1u64 == (b >> 33u64) & 1u64);
    assert((a >> 34u64) & 1u64 == (b >> 34u64) & 1u64);
    assert((a >> 35u64) & 1u64 == (b >> 35u64) & 1u64);
    assert((a >> 36u64) & 1u64 == (b >> 36u64) & 1u64);
    assert((a >> 37u64) & 1u64 == (b >> 37u64) & 1u64);
    assert((a >> 38u64) & 1u64 == (b >> 38u64) & 1u64);
    assert((a >> 39u64) & 1u64 == (b >> 39u64) & 1u64);
    assert((a >> 40u64) & 1u64 == (b >> 40u64) & 1u64);
    assert((a >> 41u64) & 1u64 == (b >> 41u64) & 1u64);
    assert((a >> 42u64) & 1u64 == (b >> 42u64) & 1u64);
    assert((a >> 43u64) & 1u64 == (b >> 43u64) & 1u64);
    assert((a >> 44u64) & 1u64 == (b >> 44u64) & 1u64);
    assert((a >> 45u64) & 1u64 == (b >> 45u64) & 1u64);
    assert((a >> 46u64) & 1u64 == (b >> 46u64) & 1u64);
    assert((a >> 47u64) & 1u64 == (b >> 47u64) & 1u64);
    assert((a >> 48u64) & 1u64 == (b >> 48u64) & 1u64);
    assert((a >> 49u64) & 1u64 == (b >> 49u64) & 1u64);
    assert((a >> 50u64) & 1u64 == (b >> 50u64) & 1u64);
    assert((a >> 51u64) & 1u64 == (b >> 51u64) & 1u64);
    assert((a >> 52u64) & 1u64 == (b >> 52u64) & 1u64);
    assert((a >> 53u64) & 1u64 == (b >> 53u64) & 1u64);
    assert((a >> 54u64) & 1u64 == (b >> 54u64) & 1u64);
    assert((a >> 55u64) & 1u64 == (b >> 55u64) & 1u64);
    assert((a >> 56u64) & 1u64 == (b >> 56u64) & 1u64);
    assert((a >> 57u64) & 1u64 == (b >> 57u64) & 1u64);
    assert((a >> 58u64) & 1u64 == (b >> 58u64) & 1u64);
    assert((a >> 59u64) & 1u64 == (b >> 59u64) & 1u64);
    assert((a >> 60u64) & 1u64 == (b >> 60u64) & 1u64);
    assert((a >> 61u64) & 1u64 == (b >> 61u64) & 1u64);
    assert((a >> 62u64) & 1u64 == (b >> 62u64) & 1u64);
    assert((a >> 63u64) & 1u64 == (b >> 63u64) & 1u64);
    lemma_bit64_ext_point(a, b);
}

proof fn lemma_bit64_point2(a: u64, b: u64, i: u64)
    by (bit_vector)
    requires
        i < 64,
        ((a >> i) & 1u64 == 1u64) == ((b >> i) & 1u64 == 1u64),
    ensures
        (a >> i) & 1u64 == (b >> i) & 1u64,
{
}

/// One more position adds its bit to `set64`.
pub proof fn lemma_set64_step(v: u64, n: int)
    requires
        0 <= n,
    ensures
        set64(v, n + 1) == (if bit64(v, n) { set64(v, n).insert(n) } else { set64(v, n) }),
{
    if bit64(v, n) {
        assert(set64(v, n + 1) =~= set64(v, n).insert(n));
    } else {
        assert(set64(v, n + 1) =~= set64(v, n));
    }
}

/// `set64` is finite, its elements are the elements of `seq64`, which lists them in increasing order.
pub proof fn lemma_seq64(v: u64, n: nat)
    ensures
        set64(v, n as int).finite(),
        seq64(v, n).to_set() == set64(v, n as int),
        seq64(v, n).len() == set64(v, n as int).len(),
        seq64(v, n).no_duplicates(),
        forall|k: int| 0 <= k < seq64(v, n).len() ==> 0 <= #[trigger] seq64(v, n)[k] < n,
        forall|k: int, l: int| 0 <= k < l < seq64(v, n).len() ==> #[trigger] seq64(v, n)[k] < #[trigger] seq64(v, n)[l],
        forall|k: int| 0 <= k < seq64(v, n).len() ==> bit64(v, #[trigger] seq64(v, n)[k]),
    decreases n,
{
    if n == 0 {
        assert(set64(v, 0) =~= Set::empty());
        assert(seq64(v, 0).to_set() =~= Set::empty());
    } else {
        let m = (n - 1) as nat;
        lemma_seq64(v, m);
        lemma_set64_step(v, m as int);
        let s = seq64(v, m);
        if bit64(v, m as int) {
            assert(seq64(v, n) == s.push(m as int));
            assert(!s.contains(m as int)) by {
                if s.contains(m as int) {
                    let k = choose|k: int| 0 <= k < s.len() && s[k] == m as int;
                    assert(s[k] < m);
                }
            }
            lemma_push_to_set(s, m as int);
            assert(forall|k: int| 0 <= k < s.len() ==> s.push(m as int)[k] == s[k]);
        }
    }
    seq64(v, n).unique_seq_to_set();
}

/// Words that agree below `n` have the same `seq64` and `set64` up to `n`.
pub proof fn lemma_seq64_agree(a: u64, b: u64, n: nat)
    requires
        forall|i: int| 0 <= i < n ==> bit64(a, i) == bit64(b, i),
    ensures
        seq64(a, n) == seq64(b, n),
        set64(a, n as int) == set64(b, n as int),
    decreases n,
{
    assert(set64(a, n as int) =~= set64(b, n as int));
    if n > 0 {
        lemma_seq64_agree(a, b, (n - 1) as nat);
    }
}

/// Without bits in `m..n`, `seq64` does not grow from `m` to `n`.
pub proof fn lemma_seq64_gap(v: u64, m: nat, n: nat)
    requires
        m <= n,
        forall|i: int| m <= i < n ==> !bit64(v, i),
    ensures
        seq64(v, n) == seq64(v, m),
    decreases n,
{
    if n > m {
        lemma_seq64_gap(v, m, (n - 1) as nat);
    }
}

/// Clearing the lowest set bit `t` drops the first element of `seq64`.
pub proof fn lemma_seq64_drop_lowest(v: u64, t: u64, n: nat)
    requires
        t < n <= 64,
        bit64(v, t as int),
        forall|j: int| 0 <= j < t ==> !bit64(v, j),
    ensures
        seq64(v, n) == seq![t as int] + seq64(v ^ (1u64 << t), n),
    decreases n,
{
    let w = v ^ (1u64 << t);
    lemma_bit64_ops(v, 1u64 << t);
    lemma_bit64_ops(0, t);
    if n == t + 1 {
        lemma_seq64_gap(v, 0, t as nat);
        lemma_seq64_gap(w, 0, n);
        assert(seq64(v, n) =~= seq![t as int] + seq64(w, n));
    } else {
        let m = (n - 1) as nat;
        lemma_seq64_drop_lowest(v, t, m);
        assert(bit64(w, m as int) == bit64(v, m as int));
        if bit64(v, m as int) {
            assert(seq64(v, n) =~= seq![t as int] + seq64(w, n));
        } else {
            assert(seq64(v, n) =~= seq![t as int] + seq64(w, n));
        }
    }
}

/// Clearing the highest set bit `h` drops the last element of `seq64`.
pub proof fn lemma_seq64_drop_highest(v: u64, h: u64, n: nat)
    requires
        h < n <= 64,
        bit64(v, h as int),
        forall|j: int| h < j < 64 ==> !bit64(v, j),
    ensures
        seq64(v, n) == seq64(v ^ (1u64 << h), n).push(h as int),
{
    let w = v ^ (1u64 << h);
    lemma_bit64_ops(v, 1u64 << h);
    lemma_bit64_ops(0, h);
    lemma_seq64_gap(v, (h + 1) as nat, n);
    lemma_seq64_gap(w, h as nat, n);
    lemma_seq64_agree(v, w, h as nat);
}

/// The lowest set bit of a non-zero word.
pub fn lowest_bit64(v: u64) -> (t: u64)
    requires
        v != 0,
    ensures
        t < 64,
        bit64(v, t as int),
        forall|j: int| 0 <= j < t ==> !bit64(v, j),
{
    let t = v.trailing_zeros();
    proof {
        broadcast use vstd::std_specs::bits::axiom_u64_trailing_zeros;
        assert forall|j: int| 0 <= j < t implies !bit64(v, j) by {
            assert((v >> (j as u64)) & 1u64 == 0u64);
        }
    }
    t as u64
}

/// The highest set bit of a non-zero word.
pub fn highest_bit64(v: u64) -> (h: u64)
    requires
        v != 0,
    ensures
        h < 64,
        bit64(v, h as int),
        forall|j: int| h < j < 64 ==> !bit64(v, j),
{
    let z = v.leading_zeros();
    proof {
        broadcast use vstd::std_specs::bits::axiom_u64_leading_zeros;
    }
    let h = (64 - 1 - z) as u64;
    proof {
        lemma_bit64_nonzero(v, h);
        assert forall|j: int| h < j < 64 implies !bit64(v, j) by {
            assert((v >> (j as u64)) & 1u64 == 0u64);
        }
    }
    h
}

/// A word lists no positions exactly when it is zero.
pub proof fn lemma_seq64_empty(v: u64)
    ensures
        (seq64(v, 64 as nat).len() == 0) == (v == 0),
{
    lemma_seq64(v, 64 as nat);
    lemma_bit64_ops(0, 0);
    if v == 0 {
        lemma_seq64_gap(0, 0, 64 as nat);
    }
    if seq64(v, 64 as nat).len() == 0 {
        assert forall|i: int| 0 <= i < 64 implies bit64(v, i) == bit64(0, i) by {
            if bit64(v, i) {
                assert(set64(v, 64 as int).contains(i));
                assert(seq64(v, 64 as nat).to_set().contains(i));
            }
        }
        lemma_bit64_ext(v, 0);
    }
}

} // verus!
