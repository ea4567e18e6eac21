//! Cutting an encoded frame into payloads that fit a datagram.
use vstd::prelude::*;

verus! {

/// The pieces of `size` bytes that `data` is cut into; the last one may be shorter.
pub open spec fn chunks(data: Seq<u8>, size: nat) -> Seq<Seq<u8>>
    decreases data.len(),
{
    if data.len() == 0 || size == 0 {
        Seq::empty()
    } else if data.len() <= size {
        seq![data]
    } else {
        seq![data.take(size as int)] + chunks(data.skip(size as int), size)
    }
}

/// The pieces one after the other.
pub open spec fn concat(parts: Seq<Seq<u8>>) -> Seq<u8>
    decreases parts.len(),
{
    if parts.len() == 0 {
        Seq::empty()
    } else {
        concat(parts.drop_last()) + parts.last()
    }
}

/// What the vectors hold.
pub open spec fn byte_views(v: Seq<Vec<u8>>) -> Seq<Seq<u8>> {
    v.map_values(|b: Vec<u8>| b@)
}

proof fn concat_with_head(head: Seq<u8>, rest: Seq<Seq<u8>>)
    ensures
        concat(seq![head] + rest) == head + concat(rest),
    decreases rest.len(),
{
    let all = seq![head] + rest;
    if rest.len() == 0 {
        reveal_with_fuel(concat, 2);
        assert(all.drop_last() =~= Seq::<Seq<u8>>::empty());
        assert(concat(all) =~= head + concat(rest));
    } else {
        concat_with_head(head, rest.drop_last());
        assert(all.drop_last() =~= seq![head] + rest.drop_last());
        assert(concat(all) =~= head + concat(rest));
    }
}

/// The pieces of some data, one after the other, are that data again.
pub proof fn chunks_make_up_the_data(data: Seq<u8>, size: nat)
    requires
        size > 0,
    ensures
        concat(chunks(data, size)) == data,
    decreases data.len(),
{
    if data.len() == 0 {
        assert(data =~= Seq::<u8>::empty());
    } else if data.len() <= size {
        reveal_with_fuel(concat, 2);
        assert(seq![data].drop_last() =~= Seq::<Seq<u8>>::empty());
        assert(concat(seq![data]) =~= data);
    } else {
        let rest = data.skip(size as int);
        chunks_make_up_the_data(rest, size);
        concat_with_head(data.take(size as int), chunks(rest, size));
        assert(data.take(size as int) + rest =~= data);
    }
}

/// No piece is empty or longer than `size`, and there are as many as it takes: the length
/// divided by `size`, rounded up.
pub proof fn chunks_are_sized(data: Seq<u8>, size: nat)
    requires
        size > 0,
    ensures
        forall|i: int|
            0 <= i < chunks(data, size).len() ==> 0 < (#[trigger] chunks(data, size)[i]).len()
                <= size,
        chunks(data, size).len() == (data.len() + size - 1) / size as int,
    decreases data.len(),
{
    if data.len() == 0 {
        assert((size - 1) / size as int == 0) by (nonlinear_arith)
            requires
                size > 0,
        ;
    } else if data.len() <= size {
        let n = data.len();
        assert((n + size - 1) / size as int == 1) by (nonlinear_arith)
            requires
                0 < n <= size,
        ;
    } else {
        let rest = data.skip(size as int);
        chunks_are_sized(rest, size);
        let n = data.len();
        let m = rest.len();
        assert((n + size - 1) / size as int == (m + size - 1) / size as int + 1) by (nonlinear_arith)
            requires
                n == m + size,
                size > 0,
        ;
        let c = chunks(data, size);
        assert forall|i: int| 0 <= i < c.len() implies 0 < (#[trigger] c[i]).len() <= size by {
            if i > 0 {
                assert(c[i] == chunks(rest, size)[i - 1]);
            }
        }
    }
}

/// Cuts `data` into pieces of `size` bytes.
pub fn split_chunks(data: &[u8], size: usize) -> (r: Vec<Vec<u8>>)
    requires
        size > 0,
    ensures
        byte_views(r@) == chunks(data@, size as nat),
{
    let mut r: Vec<Vec<u8>> = Vec::new();
    let mut start: usize = 0;
    assert(data@.skip(0) =~= data@);
    assert(byte_views(r@) + chunks(data@, size as nat) =~= chunks(data@, size as nat));
    while start < data.len()
        invariant
            start <= data.len(),
            size > 0,
            byte_views(r@) + chunks(data@.skip(start as int), size as nat) == chunks(
                data@,
                size as nat,
            ),
        decreases data.len() - start,
    {
        let ghost before = r@;
        let ghost rest = data@.skip(start as int);
        let end: usize = if data.len() - start > size { start + size } else { data.len() };
        let piece = vstd::slice::slice_to_vec(vstd::slice::slice_subrange(data, start, end));
        proof {
            let next = data@.skip(end as int);
            if rest.len() > size {
                assert(piece@ =~= rest.take(size as int));
                assert(next =~= rest.skip(size as int));
            } else {
                assert(piece@ =~= rest);
                assert(next =~= Seq::<u8>::empty());
            }
            assert(chunks(rest, size as nat) =~= seq![piece@] + chunks(next, size as nat));
        }
        r.push(piece);
        assert(byte_views(r@) =~= byte_views(before).push(piece@));
        start = end;
        assert(byte_views(r@) + chunks(data@.skip(start as int), size as nat) =~= byte_views(before)
            + chunks(rest, size as nat));
    }
    assert(byte_views(r@) + chunks(data@.skip(start as int), size as nat) =~= byte_views(r@));
    r
}

/// The `i`th piece holds the bytes from `i` times the size on: as many as the size, but for the
/// last piece, which holds the rest.
pub proof fn pieces_are_cut_in_order(data: Seq<u8>, size: nat, i: int)
    requires
        size > 0,
        0 <= i < chunks(data, size).len(),
    ensures
        i + 1 < chunks(data, size).len() ==> chunks(data, size)[i].len() == size && (i + 1) * size
            < data.len() && chunks(data, size)[i] == data.subrange(i * size, (i + 1) * size),
        i + 1 == chunks(data, size).len() ==> 0 <= i * size < data.len() && chunks(data, size)[i]
            == data.skip(i * size),
    decreases data.len(),
{
    if data.len() <= size {
        assert(i == 0);
        assert(i * size == 0) by (nonlinear_arith)
            requires
                i == 0,
        ;
        assert(data.skip(0) =~= data);
    } else {
        let rest = data.skip(size as int);
        let n = chunks(rest, size).len() as int;
        chunks_are_sized(rest, size);
        assert(chunks(data, size).len() == n + 1);
        assert(n > 0) by {
            assert(chunks(rest, size).len() > 0);
        }
        if i == 0 {
            assert(i * size == 0 && (i + 1) * size == size) by (nonlinear_arith)
                requires
                    i == 0,
            ;
            assert(chunks(data, size)[0] == data.take(size as int));
            assert(data.subrange(0, size as int) =~= data.take(size as int));
        } else {
            pieces_are_cut_in_order(rest, size, i - 1);
            assert(chunks(data, size)[i] == chunks(rest, size)[i - 1]);
            assert((i - 1) * size + size == i * size && i * size + size == (i + 1) * size)
                by (nonlinear_arith);
            if i < n {
                assert(rest.subrange((i - 1) * size, i * size) =~= data.subrange(
                    i * size,
                    (i + 1) * size,
                ));
            } else {
                assert(rest.skip((i - 1) * size) =~= data.skip(i * size));
            }
        }
    }
}

} // verus!
