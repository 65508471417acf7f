//! Cutting an ordered sequence into consecutive chunks of bounded size.

use crate::error::MigrationError;
use vstd::arithmetic::div_mod::lemma_fundamental_div_mod_converse;
use vstd::prelude::*;
use vstd::slice::slice_subrange;

verus! {

/// Number of chunks that `len` items fill when a chunk holds `size` items:
/// `len / size`, rounded up.
pub open spec fn chunk_count(len: nat, size: nat) -> nat {
    if size == 0 {
        0
    } else {
        ((len + size - 1) / (size as int)) as nat
    }
}

/// Position of the first item of chunk `index` (counted from zero).
pub open spec fn chunk_start(size: nat, index: nat) -> nat {
    index * size
}

/// Position just past the last item of chunk `index` (counted from zero).
pub open spec fn chunk_end(len: nat, size: nat, index: nat) -> nat {
    if (index + 1) * size <= len {
        (index + 1) * size
    } else {
        len
    }
}

/// Chunk `index` (counted from zero) of `items`.
pub open spec fn chunk_of<T>(items: Seq<T>, size: nat, index: nat) -> Seq<T> {
    items.subrange(chunk_start(size, index) as int, chunk_end(items.len(), size, index) as int)
}

/// The first `count` chunks of `items`, in order.
pub open spec fn leading_chunks<T>(items: Seq<T>, size: nat, count: nat) -> Seq<Seq<T>> {
    Seq::new(count, |i: int| chunk_of(items, size, i as nat))
}

/// All chunks of `items`, in order.
pub open spec fn chunks_of<T>(items: Seq<T>, size: nat) -> Seq<Seq<T>> {
    leading_chunks(items, size, chunk_count(items.len(), size))
}

/// What each borrowed chunk of a batch holds.
pub open spec fn chunk_views<T>(chunks: Seq<&[T]>) -> Seq<Seq<T>> {
    Seq::new(chunks.len(), |i: int| chunks[i]@)
}

/// The chunk count is the least number of chunks of `size` items that cover
/// `len` items.
pub proof fn lemma_chunk_count_covers(len: nat, size: nat)
    requires
        size > 0,
    ensures
        len <= chunk_count(len, size) * size,
        len > 0 ==> chunk_count(len, size) >= 1 && (chunk_count(len, size) - 1) * size < len,
        len == 0 ==> chunk_count(len, size) == 0,
        chunk_count(len, size) <= len,
{
    let x: int = len + size - 1;
    let d: int = size as int;
    let q: int = x / d;
    assert(x == d * q + x % d && 0 <= x % d < d) by (nonlinear_arith)
        requires
            d > 0,
            q == x / d,
    ;
    assert(q >= 0) by (nonlinear_arith)
        requires
            d > 0,
            x >= 0,
            q == x / d,
    ;
    assert(q * d == d * q && (q - 1) * d == d * q - d) by (nonlinear_arith);
    if len == 0 {
        assert(q == 0) by (nonlinear_arith)
            requires
                d > 0,
                0 <= x < d,
                q == x / d,
        ;
    } else {
        assert(q <= len) by (nonlinear_arith)
            requires
                d >= 1,
                q >= 0,
                d * q - d < len,
        ;
    }
}

/// A count `k` with `(k - 1) * size < len <= k * size` is the chunk count.
pub proof fn lemma_chunk_count_unique(len: nat, size: nat, k: nat)
    requires
        size > 0,
        len <= k * size,
        k > 0 ==> (k - 1) * size < len,
    ensures
        chunk_count(len, size) == k,
{
    lemma_chunk_count_covers(len, size);
    let q: int = chunk_count(len, size) as int;
    let d: int = size as int;
    let n: int = len as int;
    let kk: int = k as int;
    assert(q == kk) by (nonlinear_arith)
        requires
            d > 0,
            q >= 0,
            kk >= 0,
            n >= 0,
            n <= kk * d,
            kk > 0 ==> (kk - 1) * d < n,
            n <= q * d,
            n > 0 ==> q >= 1 && (q - 1) * d < n,
            n == 0 ==> q == 0,
    ;
}

/// Every chunk before the last holds `size` items; the last holds what is
/// left, at least one item and at most `size`.
pub proof fn lemma_chunk_len<T>(items: Seq<T>, size: nat, index: nat)
    requires
        size > 0,
        index < chunk_count(items.len(), size),
    ensures
        chunk_start(size, index) < items.len(),
        chunk_start(size, index) < chunk_end(items.len(), size, index) <= items.len(),
        chunk_of(items, size, index).len() == chunk_end(items.len(), size, index) - chunk_start(
            size,
            index,
        ),
        index + 1 < chunk_count(items.len(), size) ==> chunk_of(items, size, index).len() == size,
        index + 1 == chunk_count(items.len(), size) ==> chunk_of(items, size, index).len() == (
        if items.len() % size == 0 {
            size
        } else {
            items.len() % size
        }),
        1 <= chunk_of(items, size, index).len() <= size,
{
    lemma_chunk_count_covers(items.len(), size);
    let n: int = items.len() as int;
    let d: int = size as int;
    let i: int = index as int;
    let c: int = chunk_count(items.len(), size) as int;
    assert(i * d < n && (i + 1) * d == i * d + d && (i + 1 < c ==> (i + 1) * d < n) && (i + 1 == c
        ==> n <= (i + 1) * d)) by (nonlinear_arith)
        requires
            d > 0,
            0 <= i < c,
            (c - 1) * d < n,
            n <= c * d,
    ;
    if i + 1 == c {
        let last: int = n - i * d;
        if last == d {
            lemma_fundamental_div_mod_converse(n, d, c, 0);
        } else {
            lemma_fundamental_div_mod_converse(n, d, i, last);
        }
    }
}

/// The first `count` chunks, concatenated in order, are the first
/// `count * size` items (all of them, where there are fewer).
pub proof fn lemma_leading_chunks_flatten<T>(items: Seq<T>, size: nat, count: nat)
    requires
        size > 0,
        count <= chunk_count(items.len(), size),
    ensures
        leading_chunks(items, size, count).flatten() == items.take(
            if count * size <= items.len() {
                (count * size) as int
            } else {
                items.len() as int
            },
        ),
    decreases count,
{
    if count == 0 {
        assert(leading_chunks(items, size, 0).flatten() =~= items.take(0));
    } else {
        let before: nat = (count - 1) as nat;
        lemma_leading_chunks_flatten(items, size, before);
        lemma_chunk_len(items, size, before);
        let last = chunk_of(items, size, before);
        assert(leading_chunks(items, size, count) =~= leading_chunks(items, size, before).push(
            last,
        ));
        leading_chunks(items, size, before).lemma_flatten_push(last);
        assert(before * size <= items.len());
        assert(items.take((before * size) as int) + last =~= items.take(
            chunk_end(items.len(), size, before) as int,
        ));
    }
}

/// Round trip: there are `chunk_count` chunks, and concatenated in order they
/// give back the items, each once and in its place.
pub proof fn lemma_chunks_round_trip<T>(items: Seq<T>, size: nat)
    requires
        size > 0,
    ensures
        chunks_of(items, size).len() == chunk_count(items.len(), size),
        chunks_of(items, size).flatten() == items,
{
    let count = chunk_count(items.len(), size);
    lemma_chunk_count_covers(items.len(), size);
    lemma_leading_chunks_flatten(items, size, count);
    assert(items.take(items.len() as int) =~= items);
}

/// Number of chunks that `len` items are cut into, for chunks of `size` items.
pub fn count_chunks(len: usize, size: usize) -> (res: Result<usize, MigrationError>)
    ensures
        res is Err <==> size == 0,
        res matches Err(e) ==> e == MigrationError::InvalidConfig,
        res matches Ok(n) ==> n == chunk_count(len as nat, size as nat),
{
    if size == 0 {
        return Err(MigrationError::InvalidConfig);
    }
    let full: usize = len / size;
    let rest: usize = len % size;
    proof {
        let d: int = size as int;
        let n: int = len as int;
        let f: int = full as int;
        let r: int = rest as int;
        assert(n == d * f + r && 0 <= r < d) by (nonlinear_arith)
            requires
                d > 0,
                f == n / d,
                r == n % d,
        ;
        assert(f * d == d * f && (f - 1) * d == d * f - d && (f + 1) * d == d * f + d)
            by (nonlinear_arith);
        if rest == 0 {
            lemma_chunk_count_unique(len as nat, size as nat, full as nat);
        } else {
            assert(f < n) by (nonlinear_arith)
                requires
                    d > 0,
                    f >= 0,
                    r > 0,
                    n == d * f + r,
            ;
            lemma_chunk_count_unique(len as nat, size as nat, (full + 1) as nat);
        }
    }
    if rest == 0 {
        Ok(full)
    } else {
        Ok(full + 1)
    }
}

/// Chunk `index` (counted from zero) of `items`, for chunks of `size` items;
/// `None` past the last chunk. A `size` of zero is refused.
pub fn nth_chunk<'a, T>(items: &'a [T], size: usize, index: usize) -> (res: Result<
    Option<&'a [T]>,
    MigrationError,
>)
    ensures
        res is Err <==> size == 0,
        res matches Err(e) ==> e == MigrationError::InvalidConfig,
        res matches Ok(found) ==> match found {
            Some(chunk) => index < chunk_count(items@.len(), size as nat) && chunk@ == chunk_of(
                items@,
                size as nat,
                index as nat,
            ),
            None => index >= chunk_count(items@.len(), size as nat),
        },
{
    let len: usize = items.len();
    let count: usize = match count_chunks(len, size) {
        Ok(count) => count,
        Err(e) => {
            return Err(e);
        },
    };
    if index >= count {
        return Ok(None);
    }
    proof {
        lemma_chunk_len(items@, size as nat, index as nat);
        assert((index + 1) * size == index * size + size) by (nonlinear_arith);
    }
    let start: usize = index * size;
    let end: usize = if len - start <= size {
        len
    } else {
        start + size
    };
    Ok(Some(slice_subrange(items, start, end)))
}

/// Cuts `items` into consecutive chunks of `size` items; the last chunk holds
/// what is left. Nothing is copied: each chunk borrows its part of `items`.
/// No items give no chunks. A `size` of zero is refused.
pub fn batch<'a, T>(items: &'a [T], size: usize) -> (res: Result<Vec<&'a [T]>, MigrationError>)
    ensures
        res is Err <==> size == 0,
        res matches Err(e) ==> e == MigrationError::InvalidConfig,
        res matches Ok(chunks) ==> {
            &&& chunks@.len() == chunk_count(items@.len(), size as nat)
            &&& chunk_views(chunks@) == chunks_of(items@, size as nat)
            &&& chunk_views(chunks@).flatten() == items@
        },
{
    if size == 0 {
        return Err(MigrationError::InvalidConfig);
    }
    let len: usize = items.len();
    let mut chunks: Vec<&'a [T]> = Vec::new();
    let mut start: usize = 0;
    proof {
        lemma_chunk_count_covers(len as nat, size as nat);
    }
    while start < len
        invariant
            size > 0,
            len == items@.len(),
            start <= len,
            chunks@.len() <= chunk_count(len as nat, size as nat),
            start < len ==> start == chunks@.len() * size,
            start == len ==> chunks@.len() == chunk_count(len as nat, size as nat),
            chunk_views(chunks@) == leading_chunks(items@, size as nat, chunks@.len()),
        decreases len - start,
    {
        let ghost index: nat = chunks@.len();
        let ghost before = chunks@;
        proof {
            lemma_chunk_count_covers(len as nat, size as nat);
            if index >= chunk_count(len as nat, size as nat) {
                assert(false) by (nonlinear_arith)
                    requires
                        size > 0,
                        index >= chunk_count(len as nat, size as nat),
                        len <= chunk_count(len as nat, size as nat) * size,
                        index * size < len,
                ;
            }
            lemma_chunk_len(items@, size as nat, index);
            assert((index + 1) * size == index * size + size) by (nonlinear_arith);
        }
        let end: usize = if len - start <= size {
            len
        } else {
            start + size
        };
        let chunk = slice_subrange(items, start, end);
        chunks.push(chunk);
        proof {
            assert(chunk@ == chunk_of(items@, size as nat, index));
            assert(chunk_views(chunks@) =~= leading_chunks(
                items@,
                size as nat,
                chunks@.len(),
            )) by {
                assert forall|i: int| 0 <= i < chunks@.len() implies chunk_views(chunks@)[i]
                    == leading_chunks(items@, size as nat, chunks@.len())[i] by {
                    if i < index {
                        assert(chunks@[i] == before[i]);
                        assert(chunk_views(before)[i] == before[i]@);
                    }
                }
            }
            if end == len {
                lemma_chunk_count_unique(len as nat, size as nat, index + 1);
            }
        }
        start = end;
    }
    proof {
        lemma_chunk_count_covers(len as nat, size as nat);
        lemma_chunks_round_trip(items@, size as nat);
    }
    Ok(chunks)
}

} // verus!
