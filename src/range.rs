use vstd::prelude::*;
use vstd::arithmetic::div_mod::{lemma_fundamental_div_mod, lemma_div_is_ordered, lemma_mod_bound, lemma_fundamental_div_mod_converse};
use crate::error::RimError;
use crate::meta::BlobMeta;

verus! {

/// An inclusive byte range of a blob.
#[derive(Debug, Clone, Copy, PartialEq, Eq, Structural)]
pub struct ReadByteRange {
    pub start: u64,
    pub end: u64,
}

/// Effective range of a read: the requested one when it lies within the
/// blob, the whole blob when none was requested.
pub fn resolve_effective_range(size_bytes: u64, requested: Option<ReadByteRange>) -> (r: Result<ReadByteRange, RimError>)
    requires
        requested is Some || size_bytes > 0,
    ensures
        match requested {
            Some(rg) => {
                &&& (r is Ok <==> rg.start <= rg.end && rg.end < size_bytes)
                &&& (r is Ok ==> r->Ok_0 == rg)
                &&& (r is Err ==> r->Err_0 is InvalidRequest)
            },
            None => r == Ok::<ReadByteRange, RimError>(ReadByteRange { start: 0, end: (size_bytes - 1) as u64 }),
        },
{
    match requested {
        Some(range) => {
            if range.start > range.end || range.end >= size_bytes {
                return Err(RimError::InvalidRequest(String::from_str("range not satisfiable")));
            }
            Ok(range)
        },
        None => Ok(ReadByteRange { start: 0, end: size_bytes - 1 }),
    }
}

/// Part size actually used for a record: at least one byte.
pub open spec fn effective_part_size(part_size: u64) -> int {
    if part_size == 0 { 1 } else { part_size as int }
}

/// Number of parts of a blob: the size divided by the part size, rounded up.
pub open spec fn part_count_spec(size_bytes: int, part_size: int) -> int {
    if size_bytes == 0 { 0 } else { (size_bytes + part_size - 1) / part_size }
}

/// Number of parts of a blob of `size_bytes` bytes cut in parts of
/// `part_size` bytes (a zero part size counts as one).
pub fn part_count_for(size_bytes: u64, part_size: u64) -> (r: u64)
    ensures
        r as int == part_count_spec(size_bytes as int, effective_part_size(part_size)),
{
    let ps: u64 = if part_size == 0 { 1 } else { part_size };
    if size_bytes == 0 {
        0
    } else {
        let q = size_bytes / ps;
        let rem = size_bytes % ps;
        proof {
            lemma_fundamental_div_mod(size_bytes as int, ps as int);
            lemma_mod_bound(size_bytes as int, ps as int);
            assert(((size_bytes + ps - 1) as int) / (ps as int) == if rem == 0 { q as int } else { q as int + 1 }) by (nonlinear_arith)
                requires
                    size_bytes as int == (ps as int) * (q as int) + rem as int,
                    0 <= rem < ps,
                    ps > 0,
            {
                if rem == 0 {
                    assert((size_bytes + ps - 1) as int == ps * q + (ps - 1));
                } else {
                    assert((size_bytes + ps - 1) as int == ps * (q + 1) + (rem - 1));
                }
            }
            assert(q <= size_bytes) by (nonlinear_arith)
                requires size_bytes as int == (ps as int) * (q as int) + rem as int, rem >= 0, ps >= 1, q >= 0;
            assert(rem != 0 ==> q < size_bytes) by (nonlinear_arith)
                requires size_bytes as int == (ps as int) * (q as int) + rem as int, rem >= 0, ps >= 1, q >= 0;
        }
        if rem == 0 { q } else { q + 1 }
    }
}

/// First byte of part `part_no`, when the part lies within the blob.
pub open spec fn part_start(part_no: int, part_size: int) -> int {
    part_no * part_size
}

/// Inclusive byte range of part `part_no` of a blob, clipped to its size.
pub fn part_byte_range(meta: &BlobMeta, part_no: u32) -> (r: Result<(u64, u64), RimError>)
    ensures
        ({
            let ps = effective_part_size(meta.part_size);
            let start = part_no as int * ps;
            &&& (r is Ok <==> start < meta.size_bytes)
            &&& (r is Ok ==> r->Ok_0.0 as int == start && r->Ok_0.1 as int == if start + ps - 1 < meta.size_bytes - 1 { start + ps - 1 } else { meta.size_bytes - 1 })
            &&& (r is Err ==> r->Err_0 is InvalidRequest)
        }),
{
    let ps: u64 = if meta.part_size == 0 { 1 } else { meta.part_size };
    let start = match (part_no as u64).checked_mul(ps) {
        Some(v) => v,
        None => {
            return Err(RimError::InvalidRequest(String::from_str("part_no out of range")));
        },
    };
    if start >= meta.size_bytes {
        return Err(RimError::InvalidRequest(String::from_str("part_no out of range")));
    }
    let last_of_part: u64 = if ps - 1 < meta.size_bytes - 1 - start { start + (ps - 1) } else { meta.size_bytes - 1 };
    Ok((start, last_of_part))
}

/// Index of the first part that a range touches.
pub open spec fn first_part(start: int, ps: int) -> int {
    start / ps
}

/// Index of the last part that a range touches.
pub open spec fn last_part(end: int, ps: int) -> int {
    end / ps
}

/// Offset in the `j`-th part handed over at which the range begins.
pub open spec fn slice_lo(j: int, start: int, ps: int) -> int {
    if j == 0 { start - first_part(start, ps) * ps } else { 0 }
}

/// Offset in the `j`-th part handed over just past the range.
pub open spec fn slice_hi(parts: Seq<Seq<u8>>, j: int, start: int, end: int, ps: int) -> int {
    if j == parts.len() - 1 { end - (first_part(start, ps) + j) * ps + 1 } else { parts[j].len() as int }
}

/// Whether every part handed over is long enough for its slice.
pub open spec fn slices_fit(parts: Seq<Seq<u8>>, start: int, end: int, ps: int) -> bool {
    forall|j: int| 0 <= j < parts.len() ==>
        0 <= #[trigger] slice_lo(j, start, ps) <= slice_hi(parts, j, start, end, ps) <= parts[j].len()
}

/// Concatenation of the slices of the first `j` parts handed over.
pub open spec fn assembled(parts: Seq<Seq<u8>>, j: int, start: int, end: int, ps: int) -> Seq<u8>
    decreases j,
{
    if j <= 0 {
        Seq::empty()
    } else {
        assembled(parts, j - 1, start, end, ps)
            + parts[j - 1].subrange(slice_lo(j - 1, start, ps), slice_hi(parts, j - 1, start, end, ps))
    }
}

/// Views of the parts handed over.
pub open spec fn part_views(parts: Seq<Vec<u8>>) -> Seq<Seq<u8>> {
    parts.map_values(|p: Vec<u8>| p@)
}

proof fn lemma_part_offsets(start: int, end: int, ps: int, j: int)
    requires
        ps > 0,
        0 <= start <= end,
        0 <= j <= last_part(end, ps) - first_part(start, ps),
    ensures
        0 <= (first_part(start, ps) + j) * ps <= end,
        first_part(start, ps) * ps <= start,
        start - first_part(start, ps) * ps < ps,
        end - last_part(end, ps) * ps < ps,
        last_part(end, ps) * ps <= end,
        first_part(start, ps) <= last_part(end, ps),
{
    lemma_fundamental_div_mod(start, ps);
    lemma_fundamental_div_mod(end, ps);
    lemma_mod_bound(start, ps);
    lemma_mod_bound(end, ps);
    lemma_div_is_ordered(start, end, ps);
    let f = first_part(start, ps);
    let l = last_part(end, ps);
    assert(f >= 0) by (nonlinear_arith) requires f == start / ps, start >= 0, ps > 0;
    assert((f + j) * ps <= l * ps) by (nonlinear_arith) requires f + j <= l, ps > 0;
    assert(0 <= (f + j) * ps) by (nonlinear_arith) requires f + j >= 0, ps > 0;
    assert(f * ps == ps * f) by (nonlinear_arith);
    assert(l * ps == ps * l) by (nonlinear_arith);
}

/// Cut the bytes of an inclusive range out of the parts that it touches.
/// `parts` holds those parts in order, from the one that holds `range.start`
/// to the one that holds `range.end`.
pub fn assemble_range(parts: &Vec<Vec<u8>>, range: ReadByteRange, part_size: u64) -> (r: Result<Vec<u8>, RimError>)
    requires
        part_size > 0,
        range.start <= range.end,
        parts@.len() == last_part(range.end as int, part_size as int) - first_part(range.start as int, part_size as int) + 1,
    ensures
        r is Ok <==> slices_fit(part_views(parts@), range.start as int, range.end as int, part_size as int),
        r is Ok ==> r->Ok_0@ == assembled(part_views(parts@), parts@.len() as int, range.start as int, range.end as int, part_size as int),
        r is Err ==> r->Err_0 is Internal,
{
    let ghost pv = part_views(parts@);
    let ghost s = range.start as int;
    let ghost e = range.end as int;
    let ghost ps = part_size as int;
    let first = range.start / part_size;
    let count = parts.len();
    let mut body: Vec<u8> = Vec::new();
    let mut j: usize = 0;
    while j < count
        invariant
            part_size > 0,
            s <= e,
            count == parts@.len(),
            pv == part_views(parts@),
            first as int == first_part(s, ps),
            count as int == last_part(e, ps) - first_part(s, ps) + 1,
            j <= count,
            s == range.start as int,
            e == range.end as int,
            ps == part_size as int,
            body@ == assembled(pv, j as int, s, e, ps),
            forall|k: int| 0 <= k < j ==> 0 <= #[trigger] slice_lo(k, s, ps) <= slice_hi(pv, k, s, e, ps) <= pv[k].len(),
        decreases count - j,
    {
        proof {
            lemma_part_offsets(s, e, ps, j as int);
        }
        let part = &parts[j];
        let part_start: u64 = (first + j as u64) * part_size;
        let lo_u64: u64 = if j == 0 { range.start - part_start } else { 0 };
        let hi_u64: u64 = if j == count - 1 { range.end - part_start + 1 } else { part.len() as u64 };
        proof {
            assert(pv.len() == count);
            assert(pv[j as int] == part@);
            assert(part_start as int == (first_part(s, ps) + j) * ps);
            assert(lo_u64 as int == slice_lo(j as int, s, ps));
            assert(hi_u64 as int == slice_hi(pv, j as int, s, e, ps));
        }
        if hi_u64 < lo_u64 || hi_u64 > part.len() as u64 {
            proof {
                assert(!(0 <= slice_lo(j as int, s, ps) <= slice_hi(pv, j as int, s, e, ps) <= pv[j as int].len()));
            }
            return Err(RimError::Internal(String::from_str("invalid part slice")));
        }
        let lo = lo_u64 as usize;
        let hi = hi_u64 as usize;
        let mut k: usize = lo;
        let ghost before = body@;
        while k < hi
            invariant
                lo <= k <= hi <= part@.len(),
                body@ == before + part@.subrange(lo as int, k as int),
            decreases hi - k,
        {
            body.push(part[k]);
            proof {
                assert(part@.subrange(lo as int, k as int + 1) == part@.subrange(lo as int, k as int).push(part@[k as int]));
            }
            k = k + 1;
        }
        proof {
            assert(body@ == assembled(pv, j as int + 1, s, e, ps));
        }
        j = j + 1;
    }
    proof {
        assert(slices_fit(pv, s, e, ps));
    }
    Ok(body)
}

/// Bytes of part `k` of `full` cut in parts of `ps` bytes.
pub open spec fn part_of(full: Seq<u8>, k: int, ps: int) -> Seq<u8> {
    full.subrange(k * ps, if (k + 1) * ps < full.len() { (k + 1) * ps } else { full.len() as int })
}

proof fn lemma_assembled_prefix(full: Seq<u8>, ps: int, s: int, e: int, parts: Seq<Seq<u8>>, j: int)
    requires
        ps > 0,
        0 <= s <= e < full.len(),
        parts.len() == last_part(e, ps) - first_part(s, ps) + 1,
        forall|i: int| 0 <= i < parts.len() ==> #[trigger] parts[i] == part_of(full, first_part(s, ps) + i, ps),
        1 <= j <= parts.len(),
    ensures
        forall|i: int| 0 <= i < j ==> 0 <= #[trigger] slice_lo(i, s, ps) <= slice_hi(parts, i, s, e, ps) <= parts[i].len(),
        assembled(parts, j, s, e, ps) == full.subrange(s, if j == parts.len() { e + 1 } else { (first_part(s, ps) + j) * ps }),
    decreases j,
{
    let f = first_part(s, ps);
    let l = last_part(e, ps);
    let i = j - 1;
    let k = f + i;
    lemma_part_offsets(s, e, ps, i);
    assert(k * ps + ps == (k + 1) * ps) by (nonlinear_arith);
    if i < parts.len() - 1 {
        assert((k + 1) * ps <= l * ps) by (nonlinear_arith) requires k + 1 <= l, ps > 0;
    }
    let part = parts[i];
    assert(part == part_of(full, k, ps));
    let top = if (k + 1) * ps < full.len() { (k + 1) * ps } else { full.len() as int };
    assert(part.len() == top - k * ps);
    let lo = slice_lo(i, s, ps);
    let hi = slice_hi(parts, i, s, e, ps);
    let a = if i == 0 { s } else { k * ps };
    let b = if j == parts.len() { e + 1 } else { (k + 1) * ps };
    assert(lo == a - k * ps);
    assert(hi == b - k * ps);
    assert(0 <= lo <= hi <= part.len());
    assert(part.subrange(lo, hi) =~= full.subrange(a, b));
    if j > 1 {
        lemma_assembled_prefix(full, ps, s, e, parts, j - 1);
        assert(a == k * ps);
        assert((f + 1) * ps <= k * ps) by (nonlinear_arith) requires f + 1 <= k, ps > 0;
        assert(f * ps + ps == (f + 1) * ps) by (nonlinear_arith);
        assert(s <= a);
        assert(full.subrange(s, a) + full.subrange(a, b) =~= full.subrange(s, b));
    } else {
        assert(assembled(parts, 0, s, e, ps) == Seq::<u8>::empty());
        assert(Seq::<u8>::empty() + full.subrange(a, b) =~= full.subrange(s, b));
    }
}

/// A range read returns exactly the bytes of the blob in that range: when
/// the parts handed over are the blob's own parts from the one holding
/// `s` to the one holding `e`, every slice fits and their concatenation is
/// `full[s..=e]`.
pub proof fn lemma_range_read_is_slice_of_body(full: Seq<u8>, ps: int, s: int, e: int, parts: Seq<Seq<u8>>)
    requires
        ps > 0,
        0 <= s <= e < full.len(),
        parts.len() == last_part(e, ps) - first_part(s, ps) + 1,
        forall|i: int| 0 <= i < parts.len() ==> #[trigger] parts[i] == part_of(full, first_part(s, ps) + i, ps),
    ensures
        slices_fit(parts, s, e, ps),
        assembled(parts, parts.len() as int, s, e, ps) == full.subrange(s, e + 1),
{
    lemma_div_is_ordered(s, e, ps);
    lemma_assembled_prefix(full, ps, s, e, parts, parts.len() as int);
}

proof fn lemma_ceil_div(n: int, ps: int, k: int)
    requires
        ps > 0,
        n > 0,
        k >= 1,
        (k - 1) * ps < n <= k * ps,
    ensures
        part_count_spec(n, ps) == k,
        (n - 1) / ps == k - 1,
{
    assert(n + ps - 1 == k * ps + (n - 1 - (k - 1) * ps)) by (nonlinear_arith);
    assert(0 <= n - 1 - (k - 1) * ps < ps) by (nonlinear_arith)
        requires (k - 1) * ps < n, n <= k * ps, ps > 0;
    lemma_fundamental_div_mod_converse(n + ps - 1, ps, k, n - 1 - (k - 1) * ps);
    assert(n - 1 == (k - 1) * ps + (n - 1 - (k - 1) * ps)) by (nonlinear_arith);
    lemma_fundamental_div_mod_converse(n - 1, ps, k - 1, n - 1 - (k - 1) * ps);
}

/// Cut a blob in parts of `part_size` bytes; the last one may be shorter.
pub fn split_into_parts(data: &[u8], part_size: u64) -> (r: Vec<Vec<u8>>)
    requires
        part_size > 0,
    ensures
        r@.len() == part_count_spec(data@.len() as int, part_size as int),
        forall|k: int| 0 <= k < r@.len() ==> #[trigger] r@[k]@ == part_of(data@, k, part_size as int),
{
    let n = data.len() as u64;
    let ghost ps = part_size as int;
    let mut parts: Vec<Vec<u8>> = Vec::new();
    let mut start: u64 = 0;
    assert(0 * ps == 0);
    while start < n
        invariant
            n == data@.len(),
            ps == part_size as int,
            part_size > 0,
            start <= n,
            start as int <= parts@.len() * ps,
            start < n ==> start as int == parts@.len() * ps,
            parts@.len() > 0 ==> (parts@.len() - 1) * ps < n,
            forall|k: int| 0 <= k < parts@.len() ==> #[trigger] parts@[k]@ == part_of(data@, k, ps),
        decreases n - start,
    {
        let end: u64 = if n - start > part_size { start + part_size } else { n };
        let mut part: Vec<u8> = Vec::new();
        let mut i: u64 = start;
        while i < end
            invariant
                start <= i <= end <= n == data@.len(),
                part@ == data@.subrange(start as int, i as int),
            decreases end - i,
        {
            part.push(data[i as usize]);
            assert(data@.subrange(start as int, i as int + 1) =~= data@.subrange(start as int, i as int).push(data@[i as int]));
            i = i + 1;
        }
        let ghost k = parts@.len() as int;
        proof {
            assert((k + 1) * ps == k * ps + ps) by (nonlinear_arith);
            assert(part_of(data@, k, ps) == data@.subrange(start as int, end as int));
        }
        parts.push(part);
        start = end;
        proof {
            if end < n {
                assert(start as int == (k + 1) * ps);
            } else {
                assert(start as int <= (k + 1) * ps);
            }
        }
    }
    proof {
        let k = parts@.len() as int;
        if n == 0 {
            assert(k == 0) by (nonlinear_arith) requires k * ps == 0, ps > 0, k >= 0;
        } else {
            assert(k >= 1) by (nonlinear_arith) requires k * ps >= n, n > 0, ps > 0, k >= 0;
            lemma_ceil_div(n as int, ps, k);
        }
    }
    parts
}

/// Writing a blob in parts and reading its whole range back gives the blob:
/// the parts of a non-empty blob, assembled over `[0, len - 1]`, are the
/// blob itself.
pub proof fn lemma_round_trip(full: Seq<u8>, ps: int, parts: Seq<Seq<u8>>)
    requires
        ps > 0,
        full.len() > 0,
        parts.len() == part_count_spec(full.len() as int, ps),
        forall|k: int| 0 <= k < parts.len() ==> #[trigger] parts[k] == part_of(full, k, ps),
    ensures
        slices_fit(parts, 0, full.len() - 1, ps),
        assembled(parts, parts.len() as int, 0, full.len() - 1, ps) == full,
{
    let n = full.len() as int;
    let k = parts.len() as int;
    lemma_fundamental_div_mod(n - 1, ps);
    lemma_mod_bound(n - 1, ps);
    let q = (n - 1) / ps;
    assert(q >= 0) by (nonlinear_arith) requires q == (n - 1) / ps, n >= 1, ps > 0;
    assert(q * ps < n && n <= (q + 1) * ps) by (nonlinear_arith)
        requires n - 1 == ps * q + (n - 1) % ps, 0 <= (n - 1) % ps < ps;
    lemma_ceil_div(n, ps, q + 1);
    assert(0int / ps == 0) by (nonlinear_arith) requires ps > 0;
    assert forall|i: int| 0 <= i < parts.len() implies #[trigger] parts[i] == part_of(full, first_part(0, ps) + i, ps) by {
        assert(first_part(0, ps) == 0);
    }
    lemma_range_read_is_slice_of_body(full, ps, 0, n - 1, parts);
    assert(full.subrange(0, n) =~= full);
}

} // verus!
