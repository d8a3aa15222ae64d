//! Chunk scheduling: splits a file into parts based on transfer config.

use vstd::prelude::*;

use crate::config::TransferConfig;
use crate::transfer::part::Part;

verus! {

/// Maximum number of parts S3 allows per multipart upload.
pub const MAX_S3_PARTS: u64 = 10_000;

/// Minimum part size (8 MiB: above S3's 5 MiB hard minimum, rounded up
/// for better alignment with typical network and disk I/O granularity).
pub const MIN_PART_SIZE: u64 = 8_388_608;

/// Maximum part size (256 MiB: keeps individual retries cheap).
pub const MAX_PART_SIZE: u64 = 268_435_456;

/// `a / b` rounded up.
pub open spec fn ceil_div(a: nat, b: nat) -> nat
    recommends
        b > 0,
{
    if a % b == 0 {
        a / b
    } else {
        a / b + 1
    }
}

/// The `i`-th (0-based) part of a file of `file_size` bytes cut into
/// `part_size` pieces: numbered from 1, contiguous, the last one short.
pub open spec fn spec_part(i: int, file_size: nat, part_size: nat) -> Part {
    Part {
        number: (i + 1) as u32,
        offset: (i * part_size) as u64,
        size: (if file_size - i * part_size < part_size {
            file_size - i * part_size
        } else {
            part_size as int
        }) as u64,
    }
}

/// The parts `plan_parts` produces.
pub open spec fn planned_parts(file_size: nat, part_size: nat) -> Seq<Part> {
    Seq::new(ceil_div(file_size, part_size), |i: int| spec_part(i, file_size, part_size))
}

/// `ceil_div(x, d)` is the one `n` with `(n - 1) * d < x <= n * d` (and 0 for 0).
pub proof fn lemma_ceil_div_bounds(x: nat, d: nat)
    requires
        d > 0,
    ensures
        ceil_div(x, d) * d >= x,
        x > 0 ==> (ceil_div(x, d) - 1) * d < x,
        x == 0 ==> ceil_div(x, d) == 0,
{
    let q = x / d;
    let r = x % d;
    assert(x == d * q + r && 0 <= r < d) by {
        vstd::arithmetic::div_mod::lemma_fundamental_div_mod(x as int, d as int);
    }
    if r == 0 {
        assert(ceil_div(x, d) * d == x) by (nonlinear_arith)
            requires
                ceil_div(x, d) == q,
                x == d * q + r,
                r == 0,
        ;
        assert(x > 0 ==> (ceil_div(x, d) - 1) * d < x) by (nonlinear_arith)
            requires
                ceil_div(x, d) == q,
                x == d * q + r,
                r == 0,
                d > 0,
        ;
    } else {
        assert(ceil_div(x, d) * d >= x) by (nonlinear_arith)
            requires
                ceil_div(x, d) == q + 1,
                x == d * q + r,
                r < d,
        ;
        assert((ceil_div(x, d) - 1) * d < x) by (nonlinear_arith)
            requires
                ceil_div(x, d) == q + 1,
                x == d * q + r,
                r > 0,
        ;
    }
}

/// If `(n - 1) * d < x <= n * d` then `ceil_div(x, d) == n`.
pub proof fn lemma_ceil_div_unique(x: nat, d: nat, n: nat)
    requires
        d > 0,
        x > 0,
        (n - 1) * d < x,
        x <= n * d,
    ensures
        ceil_div(x, d) == n,
{
    lemma_ceil_div_bounds(x, d);
    let c = ceil_div(x, d);
    if c < n {
        assert(c * d <= (n - 1) * d) by (nonlinear_arith)
            requires
                c < n,
                d > 0,
        ;
    } else if c > n {
        assert(n * d <= (c - 1) * d) by (nonlinear_arith)
            requires
                c > n,
                d > 0,
        ;
    }
}

/// `div_ceil` for `u64`.
fn div_ceil_u64(a: u64, b: u64) -> (r: u64)
    requires
        b > 0,
    ensures
        r == ceil_div(a as nat, b as nat),
{
    if a % b == 0 {
        a / b
    } else {
        proof {
            assert(a / b < a) by (nonlinear_arith)
                requires
                    b > 0,
                    a % b != 0,
            ;
        }
        a / b + 1
    }
}

/// The number of parts `compute_part_size` aims for: twice the
/// concurrency (saturating), and at least one.
pub open spec fn target_parts(concurrency: nat) -> nat {
    let doubled = if concurrency * 2 > u64::MAX { u64::MAX as nat } else { concurrency * 2 };
    if doubled == 0 { 1 } else { doubled }
}

/// The part size for a file of `file_size` bytes uploaded `concurrency`
/// parts at a time.
pub open spec fn spec_compute_part_size(file_size: nat, concurrency: nat) -> nat {
    let size_floor = ceil_div(file_size, MAX_S3_PARTS as nat);
    let size_for_concurrency = file_size / target_parts(concurrency);
    let raw = if size_for_concurrency >= size_floor { size_for_concurrency } else { size_floor };
    if raw < MIN_PART_SIZE {
        MIN_PART_SIZE as nat
    } else if raw > MAX_PART_SIZE {
        MAX_PART_SIZE as nat
    } else {
        raw
    }
}

/// The part size aims at twice the concurrency in parts. For a concurrency
/// `c >= 1`, with `q = file_size / (2 * c)`:
/// - when `q` is a permitted part size (between the minimum and the
///   maximum) and `q`-byte parts keep to 10,000 parts, the part size is `q`;
/// - when `q` is at least the maximum, the part size is the maximum;
/// - when `q` is at most the minimum and minimum-sized parts keep to
///   10,000 parts, the part size is the minimum.
pub proof fn lemma_part_size_targets_twice_concurrency(file_size: nat, c: nat)
    requires
        1 <= c,
        2 * c <= u64::MAX,
    ensures
        ({
            let q = file_size / (2 * c);
            let r = spec_compute_part_size(file_size, c);
            &&& (MIN_PART_SIZE <= q <= MAX_PART_SIZE && q * MAX_S3_PARTS >= file_size) ==> r == q
            &&& q >= MAX_PART_SIZE ==> r == MAX_PART_SIZE
            &&& (q <= MIN_PART_SIZE && file_size <= MIN_PART_SIZE * MAX_S3_PARTS) ==> r
                == MIN_PART_SIZE
        }),
{
    let q = file_size / (2 * c);
    let d = MAX_S3_PARTS as nat;
    assert(target_parts(c) == 2 * c);
    lemma_ceil_div_bounds(file_size, d);
    let floor = ceil_div(file_size, d);
    if q * MAX_S3_PARTS >= file_size && file_size > 0 {
        if floor > q {
            assert((floor - 1) * d >= q * d) by (nonlinear_arith)
                requires
                    floor - 1 >= q,
            ;
        }
        assert(floor <= q);
    }
    if file_size <= MIN_PART_SIZE * MAX_S3_PARTS && file_size > 0 {
        if floor > MIN_PART_SIZE {
            assert((floor - 1) * d >= MIN_PART_SIZE * d) by (nonlinear_arith)
                requires
                    floor - 1 >= MIN_PART_SIZE,
            ;
        }
        assert(floor <= MIN_PART_SIZE);
    }
}

/// Compute an optimal part size for a given file size and concurrency.
///
/// Targets `concurrency * 2` parts so the upload pipeline doesn't drain
/// early when individual parts finish at different speeds. Clamps the
/// result between [`MIN_PART_SIZE`] and [`MAX_PART_SIZE`], and keeps to
/// S3's 10,000-part limit wherever the maximum part size allows it.
pub fn compute_part_size(file_size: u64, concurrency: usize) -> (r: u64)
    ensures
        r == spec_compute_part_size(file_size as nat, concurrency as nat),
        MIN_PART_SIZE <= r <= MAX_PART_SIZE,
{
    let size_floor = div_ceil_u64(file_size, MAX_S3_PARTS);
    let concurrency_u64 = concurrency as u64;
    let doubled = if concurrency_u64 > u64::MAX / 2 { u64::MAX } else { concurrency_u64 * 2 };
    let target_parts = if doubled == 0 { 1 } else { doubled };
    let size_for_concurrency = file_size / target_parts;
    let raw = if size_for_concurrency >= size_floor { size_for_concurrency } else { size_floor };
    if raw < MIN_PART_SIZE {
        MIN_PART_SIZE
    } else if raw > MAX_PART_SIZE {
        MAX_PART_SIZE
    } else {
        raw
    }
}

/// Plan the parts for a file of the given size.
///
/// The parts are numbered from 1, cover the file contiguously from offset
/// 0, and each holds `part_size` bytes but the last, which holds the rest.
/// The caller must pass a non-zero part size that cuts the file into at
/// most 10,000 parts (S3's limit).
pub fn plan_parts(file_size: u64, config: &TransferConfig) -> (parts: Vec<Part>)
    requires
        config.part_size > 0,
        ceil_div(file_size as nat, config.part_size as nat) <= MAX_S3_PARTS,
    ensures
        parts@ == planned_parts(file_size as nat, config.part_size as nat),
{
    let part_size = config.part_size;
    let ghost n = ceil_div(file_size as nat, part_size as nat);
    let mut parts: Vec<Part> = Vec::new();
    let mut remaining = file_size;
    let mut number: u32 = 1;
    let mut offset: u64 = 0;
    proof {
        lemma_ceil_div_bounds(file_size as nat, part_size as nat);
    }

    while remaining > 0
        invariant
            part_size == config.part_size,
            part_size > 0,
            n == ceil_div(file_size as nat, part_size as nat),
            n <= MAX_S3_PARTS,
            offset + remaining == file_size,
            number == parts.len() + 1,
            parts.len() <= n,
            remaining > 0 ==> offset == parts.len() * part_size && parts.len() < n,
            remaining == 0 ==> parts.len() == n,
            forall|j: int| 0 <= j < parts.len() ==> parts@[j] == spec_part(j, file_size as nat, part_size as nat),
        decreases remaining,
    {
        let size = if remaining < part_size { remaining } else { part_size };
        proof {
            assert(spec_part(parts.len() as int, file_size as nat, part_size as nat) == Part { number, offset, size });
        }
        parts.push(Part { number, offset, size });
        offset = offset + size;
        remaining = remaining - size;
        number = number + 1;
        proof {
            if remaining > 0 {
                assert(offset == parts.len() * part_size) by (nonlinear_arith)
                    requires
                        offset == (parts.len() - 1) * part_size + part_size,
                ;
                assert(parts.len() * part_size < file_size);
                if parts.len() >= n {
                    assert(n * part_size <= parts.len() * part_size) by (nonlinear_arith)
                        requires
                            n <= parts.len(),
                            part_size > 0,
                    ;
                    lemma_ceil_div_bounds(file_size as nat, part_size as nat);
                }
            } else {
                assert((parts.len() - 1) * part_size < file_size as nat);
                assert(file_size as nat <= parts.len() * part_size) by (nonlinear_arith)
                    requires
                        file_size == (parts.len() - 1) * part_size + size,
                        size <= part_size,
                ;
                lemma_ceil_div_unique(file_size as nat, part_size as nat, parts.len() as nat);
            }
        }
    }
    proof {
        assert(parts@ =~= planned_parts(file_size as nat, part_size as nat));
    }
    parts
}

/// Total number of bytes held by a list of parts.
pub open spec fn total_size(parts: Seq<Part>) -> nat
    decreases parts.len(),
{
    if parts.len() == 0 {
        0
    } else {
        total_size(parts.drop_last()) + parts.last().size as nat
    }
}

proof fn lemma_planned_prefix_total(file_size: nat, part_size: nat, k: nat)
    requires
        part_size > 0,
        file_size <= u64::MAX,
        k <= ceil_div(file_size, part_size),
    ensures
        total_size(planned_parts(file_size, part_size).take(k as int)) == (if k * part_size
            <= file_size {
            k * part_size
        } else {
            file_size
        }),
    decreases k,
{
    let parts = planned_parts(file_size, part_size);
    lemma_ceil_div_bounds(file_size, part_size);
    if k > 0 {
        lemma_planned_prefix_total(file_size, part_size, (k - 1) as nat);
        assert(parts.take(k as int).drop_last() =~= parts.take(k - 1));
        let i = k - 1;
        assert((k - 1) * part_size < file_size) by (nonlinear_arith)
            requires
                k <= ceil_div(file_size, part_size),
                (ceil_div(file_size, part_size) - 1) * part_size < file_size,
                part_size > 0,
                k > 0,
        ;
        assert(k * part_size == (k - 1) * part_size + part_size) by (nonlinear_arith);
        assert(parts.take(k as int).last() == parts[i as int]);
        assert(parts[i as int] == spec_part(i as int, file_size, part_size));
        let rest = file_size - i * part_size;
        assert(0 < rest <= u64::MAX);
        let t = parts.take(k as int);
        assert(total_size(t) == total_size(t.drop_last()) + t.last().size as nat);
        assert(total_size(t.drop_last()) == i * part_size);
        if rest < part_size {
            assert(parts[i as int].size as nat == rest);
            assert(total_size(t) == file_size);
            assert(k * part_size > file_size);
        } else {
            assert(part_size <= u64::MAX);
            assert(parts[i as int].size as nat == part_size);
            assert(total_size(t) == k * part_size);
            assert(k * part_size <= file_size);
        }
    } else {
        assert(parts.take(0) =~= Seq::<Part>::empty());
    }
}

/// The planned parts are numbered 1, 2, ... in order, each holds between
/// one byte and `part_size` bytes, each starts where the previous one ends,
/// the first starts at offset 0, and together they hold exactly the file.
pub proof fn lemma_planned_parts_cover_file(file_size: nat, part_size: nat)
    requires
        part_size > 0,
        file_size <= u64::MAX,
        ceil_div(file_size, part_size) <= MAX_S3_PARTS,
    ensures
        ({
            let parts = planned_parts(file_size, part_size);
            &&& parts.len() == ceil_div(file_size, part_size)
            &&& forall|i: int|
                0 <= i < parts.len() ==> {
                    &&& #[trigger] parts[i].number == i + 1
                    &&& 0 < parts[i].size <= part_size
                    &&& i + 1 < parts.len() ==> parts[i].offset + parts[i].size == parts[i
                        + 1].offset
                }
            &&& parts.len() > 0 ==> parts[0].offset == 0
            &&& parts.len() > 0 ==> parts.last().offset + parts.last().size == file_size
            &&& total_size(parts) == file_size
        }),
{
    let parts = planned_parts(file_size, part_size);
    let n = ceil_div(file_size, part_size);
    lemma_ceil_div_bounds(file_size, part_size);
    assert forall|i: int| 0 <= i < parts.len() implies {
        &&& #[trigger] parts[i].number == i + 1
        &&& 0 < parts[i].size <= part_size
        &&& i + 1 < parts.len() ==> parts[i].offset + parts[i].size == parts[i + 1].offset
    } by {
        assert(i * part_size < file_size) by (nonlinear_arith)
            requires
                i < n,
                0 <= i,
                (n - 1) * part_size < file_size,
                part_size > 0,
        ;
        assert((i + 1) * part_size == i * part_size + part_size) by (nonlinear_arith);
        assert(parts[i] == spec_part(i, file_size, part_size));
        assert(i * part_size <= u64::MAX);
        assert(file_size - i * part_size <= u64::MAX);
        if i + 1 < parts.len() {
            assert((i + 1) * part_size < file_size) by (nonlinear_arith)
                requires
                    i + 1 < n,
                    (n - 1) * part_size < file_size,
                    part_size > 0,
            ;
        }
        assert(i + 1 <= n);
        assert(n <= file_size) by (nonlinear_arith)
            requires
                (n - 1) * part_size < file_size,
                part_size > 0,
                i < n,
                0 <= i,
        ;
    }
    lemma_planned_prefix_total(file_size, part_size, n);
    assert(parts.take(n as int) =~= parts);
    if n > 0 {
        assert(n * part_size >= file_size);
        assert((n - 1) * part_size + part_size == n * part_size) by (nonlinear_arith);
        assert((n - 1) * part_size < file_size);
        let last = parts[n - 1];
        assert(parts.last() == last);
        assert(last == spec_part(n - 1, file_size, part_size));
        assert(last.offset as nat == (n - 1) * part_size);
        let rest = file_size - (n - 1) * part_size;
        assert(rest <= part_size);
        if rest < part_size {
            assert(last.size as nat == rest);
        } else {
            assert(last.size as nat == part_size);
        }
        assert(parts[0] == spec_part(0, file_size, part_size));
        assert(0 * part_size == 0);
    }
    assert(n * part_size >= file_size);
}

/// Whenever the file fits in 10,000 parts of the maximum size, the part size
/// `compute_part_size` picks cuts it into at most 10,000 parts, so the
/// result can be handed to `plan_parts`.
pub proof fn lemma_computed_part_size_within_limit(file_size: nat, concurrency: nat)
    requires
        file_size <= MAX_S3_PARTS * MAX_PART_SIZE,
    ensures
        spec_compute_part_size(file_size, concurrency) > 0,
        ceil_div(file_size, spec_compute_part_size(file_size, concurrency)) <= MAX_S3_PARTS,
{
    let r = spec_compute_part_size(file_size, concurrency);
    let floor = ceil_div(file_size, MAX_S3_PARTS as nat);
    lemma_ceil_div_bounds(file_size, MAX_S3_PARTS as nat);
    if floor > MAX_PART_SIZE {
        assert((floor - 1) * MAX_S3_PARTS >= MAX_PART_SIZE * MAX_S3_PARTS) by (nonlinear_arith)
            requires
                floor > MAX_PART_SIZE,
        ;
    }
    assert(r >= floor);
    assert(MAX_S3_PARTS * r >= file_size) by (nonlinear_arith)
        requires
            r >= floor,
            floor * MAX_S3_PARTS >= file_size,
    ;
    lemma_ceil_div_bounds(file_size, r);
    let c = ceil_div(file_size, r);
    if c > MAX_S3_PARTS {
        assert((c - 1) * r >= MAX_S3_PARTS * r) by (nonlinear_arith)
            requires
                c > MAX_S3_PARTS,
                r > 0,
        ;
    }
}

} // verus!
