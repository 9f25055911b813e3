//! Little-endian byte images of fixed-width integers, and byte buffers built
//! from a sequence of records.
use vstd::prelude::*;

verus! {

/// The two bytes of `x`, least significant first.
pub open spec fn le_u16(x: u16) -> Seq<u8> {
    seq![(x % 256) as u8, (x / 256) as u8]
}

/// The four bytes of `x`, least significant first.
pub open spec fn le_u32(x: u32) -> Seq<u8> {
    seq![
        (x % 256) as u8,
        ((x / 256) % 256) as u8,
        ((x / 65536) % 256) as u8,
        (x / 16777216) as u8,
    ]
}

/// The unsigned value of the two bytes at `at`, least significant first.
pub open spec fn read_le_u16(bytes: Seq<u8>, at: int) -> int {
    bytes[at] + 256 * bytes[at + 1]
}

/// The unsigned value of the four bytes at `at`, least significant first.
pub open spec fn read_le_u32(bytes: Seq<u8>, at: int) -> int {
    bytes[at] + 256 * bytes[at + 1] + 65536 * bytes[at + 2] + 16777216 * bytes[at + 3]
}

/// The concatenation of the records `record(s[0]) + record(s[1]) + ...`.
pub open spec fn concat_records<T>(s: Seq<T>, record: spec_fn(T) -> Seq<u8>) -> Seq<u8>
    decreases s.len(),
{
    if s.len() == 0 {
        Seq::empty()
    } else {
        concat_records(s.drop_last(), record) + record(s.last())
    }
}

/// Reading the two little-endian bytes of `x` back gives `x`.
pub proof fn lemma_le_u16_read_back(x: u16)
    ensures
        le_u16(x).len() == 2,
        read_le_u16(le_u16(x), 0) == x,
{
}

/// Reading the four little-endian bytes of `x` back gives `x`.
pub proof fn lemma_le_u32_read_back(x: u32)
    ensures
        le_u32(x).len() == 4,
        read_le_u32(le_u32(x), 0) == x,
{
}

/// Appending one more record extends the concatenation by that record.
pub proof fn lemma_concat_records_take_step<T>(s: Seq<T>, i: int, record: spec_fn(T) -> Seq<u8>)
    requires
        0 <= i < s.len(),
    ensures
        concat_records(s.take(i + 1), record) == concat_records(s.take(i), record) + record(s[i]),
{
    assert(s.take(i + 1).drop_last() =~= s.take(i));
}

/// The concatenation of two runs of records is the concatenation of their
/// encodings.
pub proof fn lemma_concat_records_append<T>(a: Seq<T>, b: Seq<T>, record: spec_fn(T) -> Seq<u8>)
    ensures
        concat_records(a + b, record) == concat_records(a, record) + concat_records(b, record),
    decreases b.len(),
{
    if b.len() == 0 {
        assert(a + b =~= a);
        assert(concat_records(a, record) + concat_records(b, record) =~= concat_records(a, record));
    } else {
        lemma_concat_records_append(a, b.drop_last(), record);
        assert((a + b).drop_last() =~= a + b.drop_last());
        assert((a + b).last() == b.last());
        assert(concat_records(a + b, record) =~= concat_records(a, record) + concat_records(
            b,
            record,
        ));
    }
}

/// Where every record has `size` bytes, the concatenation has `size` bytes per
/// record and record `k` stands at offset `size * k`.
pub proof fn lemma_concat_records_fixed_size<T>(
    s: Seq<T>,
    record: spec_fn(T) -> Seq<u8>,
    size: nat,
)
    requires
        forall|e: T| #[trigger] record(e).len() == size,
    ensures
        concat_records(s, record).len() == size * s.len(),
        forall|k: int|
            0 <= k < s.len() ==> #[trigger] concat_records(s, record).subrange(
                size * k,
                size * k + size,
            ) == record(s[k]),
    decreases s.len(),
{
    if s.len() > 0 {
        let prev = s.drop_last();
        lemma_concat_records_fixed_size(prev, record, size);
        let whole = concat_records(s, record);
        assert(whole == concat_records(prev, record) + record(s.last()));
        assert(size * s.len() == size * prev.len() + size) by (nonlinear_arith)
            requires
                s.len() == prev.len() + 1,
        ;
        assert forall|k: int| 0 <= k < s.len() implies #[trigger] whole.subrange(
            size * k,
            size * k + size,
        ) == record(s[k]) by {
            if k < prev.len() {
                assert(size * k + size <= size * prev.len()) by (nonlinear_arith)
                    requires
                        k < prev.len(),
                        0 <= k,
                ;
                assert(0 <= size * k) by (nonlinear_arith)
                    requires
                        0 <= k,
                ;
                assert(whole.subrange(size * k, size * k + size) =~= concat_records(
                    prev,
                    record,
                ).subrange(size * k, size * k + size));
                assert(prev[k] == s[k]);
            } else {
                assert(k == prev.len());
                assert(whole.subrange(size * k, size * k + size) =~= record(s.last()));
            }
        }
    }
}

/// Appends the little-endian encoding of `x`.
pub fn push_le_u16(buf: &mut Vec<u8>, x: u16)
    ensures
        final(buf)@ == old(buf)@ + le_u16(x),
{
    buf.push((x % 256) as u8);
    buf.push((x / 256) as u8);
    assert(buf@ =~= old(buf)@ + le_u16(x));
}

/// Appends the little-endian encoding of `x`.
pub fn push_le_u32(buf: &mut Vec<u8>, x: u32)
    ensures
        final(buf)@ == old(buf)@ + le_u32(x),
{
    buf.push((x % 256) as u8);
    buf.push(((x / 256) % 256) as u8);
    buf.push(((x / 65536) % 256) as u8);
    buf.push((x / 16777216) as u8);
    assert(buf@ =~= old(buf)@ + le_u32(x));
}

/// Appends the bytes of `bytes` in order.
pub fn push_bytes(buf: &mut Vec<u8>, bytes: &[u8])
    ensures
        final(buf)@ == old(buf)@ + bytes@,
{
    let ghost start = buf@;
    let mut i: usize = 0;
    while i < bytes.len()
        invariant
            i <= bytes@.len(),
            buf@ == start + bytes@.take(i as int),
        decreases bytes@.len() - i,
    {
        buf.push(bytes[i]);
        assert(bytes@.take(i + 1) =~= bytes@.take(i as int).push(bytes@[i as int]));
        i += 1;
    }
    assert(bytes@.take(i as int) =~= bytes@);
}

/// Where `r` stands in `b` at offset `at`, every byte of `r`, and so every
/// little-endian field read inside `r`, reads the same in `b`.
pub proof fn lemma_subrange_fields(b: Seq<u8>, at: int, r: Seq<u8>)
    requires
        0 <= at,
        at + r.len() <= b.len(),
        b.subrange(at, at + r.len()) == r,
    ensures
        forall|j: int| 0 <= j < r.len() ==> b[at + j] == #[trigger] r[j],
        forall|j: int|
            0 <= j && j + 1 < r.len() ==> read_le_u16(b, at + j) == #[trigger] read_le_u16(r, j),
        forall|j: int|
            0 <= j && j + 3 < r.len() ==> read_le_u32(b, at + j) == #[trigger] read_le_u32(r, j),
{
    assert forall|j: int| 0 <= j < r.len() implies b[at + j] == #[trigger] r[j] by {
        assert(b.subrange(at, at + r.len())[j] == b[at + j]);
    }
    assert forall|j: int| 0 <= j && j + 1 < r.len() implies read_le_u16(b, at + j) == #[trigger] read_le_u16(r, j) by {
        assert(b[at + j] == r[j]);
        assert(b[at + (j + 1)] == r[j + 1]);
    }
    assert forall|j: int| 0 <= j && j + 3 < r.len() implies read_le_u32(b, at + j) == #[trigger] read_le_u32(r, j) by {
        assert(b[at + j] == r[j]);
        assert(b[at + (j + 1)] == r[j + 1]);
        assert(b[at + (j + 2)] == r[j + 2]);
        assert(b[at + (j + 3)] == r[j + 3]);
    }
}

/// A single record concatenates to itself.
pub proof fn lemma_concat_records_single<T>(e: T, record: spec_fn(T) -> Seq<u8>)
    ensures
        concat_records(seq![e], record) == record(e),
{
    let one = seq![e];
    assert(one.drop_last() =~= Seq::<T>::empty());
    assert(concat_records(one.drop_last(), record) == Seq::<u8>::empty());
    assert(one.last() == e);
    assert(concat_records(one, record) =~= record(e));
}

} // verus!
