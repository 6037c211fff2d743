//! Runs of equal length that a list is cut into.
use vstd::prelude::*;

verus! {

/// How many runs of up to `size` items a list of `len` items is cut into.
pub open spec fn chunk_count(len: nat, size: nat) -> nat {
    (len + size - 1) as nat / size
}

/// Where run `i` begins.
pub open spec fn chunk_start(size: nat, i: int) -> int {
    i * size
}

/// Where run `i` ends: the last one may be short.
pub open spec fn chunk_end(len: nat, size: nat, i: int) -> int {
    if (i + 1) * size < len {
        (i + 1) * size
    } else {
        len as int
    }
}

/// The runs that `items` is cut into, from the first on, as far as the run before `n`.
pub open spec fn joined_chunks<T>(items: Seq<T>, size: nat, n: nat) -> Seq<T>
    decreases n,
{
    if n == 0 {
        Seq::empty()
    } else {
        joined_chunks(items, size, (n - 1) as nat) + items.subrange(
            chunk_start(size, n - 1),
            chunk_end(items.len(), size, n - 1),
        )
    }
}

proof fn lemma_chunk_count(len: nat, size: nat)
    requires
        size > 0,
    ensures
        chunk_count(len, size) * size >= len,
        chunk_count(len, size) * size < len + size,
{
    let n = (len + size - 1) as int;
    vstd::arithmetic::div_mod::lemma_fundamental_div_mod(n, size as int);
    vstd::arithmetic::div_mod::lemma_mod_bound(n, size as int);
    assert(size * (n / size as int) == (n / size as int) * size) by (nonlinear_arith);
}

/// Where a list of `len` items is cut into runs of `size` items, the last one shorter where they
/// do not come out even: each run by its begin and its end.
pub fn chunk_ranges(len: usize, size: usize) -> (r: Vec<(usize, usize)>)
    requires
        size > 0,
    ensures
        r@.len() == chunk_count(len as nat, size as nat),
        forall|i: int|
            0 <= i < r@.len() ==> (#[trigger] r@[i]).0 == chunk_start(size as nat, i) && r@[i].1
                == chunk_end(len as nat, size as nat, i),
        len == 0 <==> r@.len() == 0,
        len > 0 ==> r@[0].0 == 0 && r@.last().1 == len,
        forall|i: int|
            #![trigger r@[i]]
            0 <= i < r@.len() ==> {
                &&& r@[i].0 < r@[i].1 <= r@[i].0 + size
                &&& i + 1 < r@.len() ==> r@[i].1 == r@[i].0 + size && r@[i].1 == r@[i + 1].0
            },
{
    let mut r: Vec<(usize, usize)> = Vec::new();
    let mut start: usize = 0;
    assert(0 * size == 0) by (nonlinear_arith);
    while start < len
        invariant
            size > 0,
            len == 0 ==> r@.len() == 0,
            start <= len,
            start == len ==> r@.len() * size >= len && (len > 0 ==> (r@.len() - 1) * size < len),
            start < len ==> start == r@.len() * size,
            forall|i: int|
                0 <= i < r@.len() ==> (#[trigger] r@[i]).0 == chunk_start(size as nat, i) && r@[i].1
                    == chunk_end(len as nat, size as nat, i),
        decreases len - start,
    {
        let end: usize = if size < len - start {
            start + size
        } else {
            len
        };
        proof {
            let n = r@.len() as int;
            assert((n + 1) * size == n * size + size) by (nonlinear_arith);
        }
        r.push((start, end));
        start = end;
    }
    proof {
        lemma_chunk_count(len as nat, size as nat);
        let n = r@.len() as int;
        let c = chunk_count(len as nat, size as nat) as int;
        if len > 0 {
            assert(n == c) by (nonlinear_arith)
                requires
                    n * size >= len,
                    (n - 1) * size < len,
                    c * size >= len,
                    c * size < len + size,
                    size > 0,
            ;
        } else {
            assert(c == 0) by (nonlinear_arith)
                requires
                    0 <= c,
                    c * size < size,
                    size > 0,
            ;
        }
        assert forall|i: int|
            #![trigger r@[i]]
            0 <= i < r@.len() implies {
            &&& r@[i].0 < r@[i].1 <= r@[i].0 + size
            &&& i + 1 < r@.len() ==> r@[i].1 == r@[i].0 + size && r@[i].1 == r@[i + 1].0
        } by {
            law_chunks_are_full(len as nat, size as nat, i);
        }
        if len > 0 {
            assert(n > 0) by (nonlinear_arith)
                requires
                    n * size >= len,
                    len > 0,
            ;
            law_chunks_are_full(len as nat, size as nat, 0);
            law_chunks_are_full(len as nat, size as nat, n - 1);
        }
    }
    r
}

/// The first run begins at the beginning, each run begins where the one before it ends, and the
/// last one ends at the end. No run is empty, none is longer than `size`, and all but the last one
/// have `size` items.
pub proof fn law_chunks_are_full(len: nat, size: nat, i: int)
    requires
        size > 0,
        0 <= i < chunk_count(len, size),
    ensures
        chunk_start(size, i) < chunk_end(len, size, i) <= len,
        chunk_start(size, 0) == 0,
        chunk_end(len, size, i) - chunk_start(size, i) <= size,
        i + 1 < chunk_count(len, size) ==> chunk_end(len, size, i) - chunk_start(size, i) == size,
        i + 1 < chunk_count(len, size) ==> chunk_end(len, size, i) == chunk_start(size, i + 1),
        i + 1 == chunk_count(len, size) ==> chunk_end(len, size, i) == len,
{
    lemma_chunk_count(len, size);
    let c = chunk_count(len, size) as int;
    assert(0 * size == 0) by (nonlinear_arith);
    assert((i + 1) * size == i * size + size) by (nonlinear_arith);
    assert(i * size < len) by (nonlinear_arith)
        requires
            i + 1 <= c,
            c * size < len + size,
            size > 0,
    ;
    if i + 1 < c {
        assert((i + 1) * size < len) by (nonlinear_arith)
            requires
                i + 2 <= c,
                c * size < len + size,
                size > 0,
        ;
    }
}

/// Every item is in one run, and the runs one behind the other are the list.
pub proof fn law_chunks_make_up_the_list<T>(items: Seq<T>, size: nat)
    requires
        size > 0,
    ensures
        joined_chunks(items, size, chunk_count(items.len(), size)) == items,
{
    lemma_chunk_count(items.len(), size);
    let c = chunk_count(items.len(), size);
    lemma_joined_chunks(items, size, c);
    if items.len() > 0 {
        assert(c > 0) by (nonlinear_arith)
            requires
                c * size >= items.len(),
                items.len() > 0,
        ;
        law_chunks_are_full(items.len(), size, c - 1);
        assert(items.take(items.len() as int) =~= items);
    } else {
        assert(c == 0) by (nonlinear_arith)
            requires
                c * size < size,
                size > 0,
        ;
        assert(items =~= Seq::<T>::empty());
    }
}

proof fn lemma_joined_chunks<T>(items: Seq<T>, size: nat, n: nat)
    requires
        size > 0,
        n <= chunk_count(items.len(), size),
    ensures
        joined_chunks(items, size, n) == items.take(
            if n == 0 {
                0
            } else {
                chunk_end(items.len(), size, n - 1)
            },
        ),
    decreases n,
{
    if n > 0 {
        lemma_joined_chunks(items, size, (n - 1) as nat);
        law_chunks_are_full(items.len(), size, n - 1);
        if n > 1 {
            law_chunks_are_full(items.len(), size, n - 2);
        }
        assert(joined_chunks(items, size, n) =~= items.take(
            chunk_end(items.len(), size, n - 1),
        ));
    }
}

/// `size` items more make one run more, up to `size` items make one run, and no items make none.
pub proof fn law_chunk_count_steps(len: nat, size: nat)
    requires
        size > 0,
    ensures
        chunk_count(0, size) == 0,
        chunk_count(len + size, size) == chunk_count(len, size) + 1,
        0 < len <= size ==> chunk_count(len, size) == 1,
{
    lemma_chunk_count(0, size);
    lemma_chunk_count(len, size);
    lemma_chunk_count(len + size, size);
    let none = chunk_count(0, size) as int;
    let c = chunk_count(len, size) as int;
    let more = chunk_count(len + size, size) as int;
    assert(none == 0) by (nonlinear_arith)
        requires
            none >= 0,
            none * size < size,
            size > 0,
    ;
    assert(more == c + 1) by (nonlinear_arith)
        requires
            more * size >= len + size,
            more * size < len + size + size,
            c * size >= len,
            c * size < len + size,
            size > 0,
    ;
    if 0 < len <= size {
        assert(c == 1) by (nonlinear_arith)
            requires
                c * size >= len,
                c * size < len + size,
                0 < len <= size,
        ;
    }
}

} // verus!
