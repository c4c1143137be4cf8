//! Aggregation of per-trial records into per-group summaries.
//!
//! Records are grouped by (generator, bit length). Each group's summary holds
//! the run count and exact integer moments (sums and sums of squares) of the
//! elapsed times and one counts, from which the reporting layer computes mean
//! and sample standard deviation as floating-point values; only that final
//! division and square root happen outside this module. Group order is stable
//! and deterministic: by generator rank (the lexicographic order of the
//! display names), then numerically by bit length.
use vstd::prelude::*;

verus! {

/// The closed set of generator variants.
#[derive(Clone, Copy, Debug, PartialEq, Eq, Structural)]
pub enum GeneratorKind {
    AesCtr,
    Blake3Xof,
    ChaCha20,
}

impl GeneratorKind {
    /// Grouping rank. The ranks follow the lexicographic order of the display
    /// names ("AES-256-CTR DRBG" < "BLAKE3 XOF DRBG" < "ChaCha20 DRBG"), so
    /// rank order and name order agree.
    pub open spec fn rank(self) -> int {
        match self {
            GeneratorKind::AesCtr => 0,
            GeneratorKind::Blake3Xof => 1,
            GeneratorKind::ChaCha20 => 2,
        }
    }

    pub fn rank_u8(&self) -> (r: u8)
        ensures
            r as int == self.rank(),
    {
        match self {
            GeneratorKind::AesCtr => 0,
            GeneratorKind::Blake3Xof => 1,
            GeneratorKind::ChaCha20 => 2,
        }
    }

    /// The variant's display name, the same string its generator's `name`
    /// returns.
    pub fn display_name(&self) -> (r: &'static str)
        ensures
            self is AesCtr ==> r@ == "AES-256-CTR DRBG"@,
            self is Blake3Xof ==> r@ == "BLAKE3 XOF DRBG"@,
            self is ChaCha20 ==> r@ == "ChaCha20 DRBG"@,
    {
        match self {
            GeneratorKind::AesCtr => "AES-256-CTR DRBG",
            GeneratorKind::Blake3Xof => "BLAKE3 XOF DRBG",
            GeneratorKind::ChaCha20 => "ChaCha20 DRBG",
        }
    }
}

/// Distinct variants have distinct ranks.
proof fn lemma_rank_injective(a: GeneratorKind, b: GeneratorKind)
    requires
        a.rank() == b.rank(),
    ensures
        a == b,
{
}

/// One measurement: which generator, how many bits, how long it took (in
/// microseconds of wall-clock time), how many bytes the output occupies, and
/// the exact bit tally. Immutable once created.
#[derive(Clone, Copy, Debug)]
pub struct Record {
    pub run: usize,
    pub generator: GeneratorKind,
    pub bits: usize,
    pub duration_us: u32,
    pub storage_bytes: usize,
    pub zeros: u64,
    pub ones: u64,
}

impl Record {
    /// The tally invariant: the zero and one counts account for every bit.
    pub open spec fn wf(self) -> bool {
        self.zeros + self.ones == self.bits
    }
}

/// One aggregate per (generator, bit length) group: the run count, exact
/// integer moments of elapsed time and of one counts, and the storage byte
/// count taken from one member (constant within a group by construction).
#[derive(Clone, Copy, Debug)]
pub struct Summary {
    pub generator: GeneratorKind,
    pub bits: usize,
    pub runs: usize,
    pub sum_time_us: u128,
    pub sum_sq_time_us: u128,
    pub sum_ones: u128,
    pub sum_sq_ones: u128,
    pub storage_bytes: usize,
}

/// Whether a record belongs to the (g, bits) group.
pub open spec fn key_matches(r: Record, g: GeneratorKind, bits: usize) -> bool {
    r.generator == g && r.bits == bits
}

/// Strict group ordering: by generator rank, then by bit length.
pub open spec fn key_lt(g1: GeneratorKind, b1: usize, g2: GeneratorKind, b2: usize) -> bool {
    g1.rank() < g2.rank() || (g1.rank() == g2.rank() && b1 < b2)
}

/// How many records fall in the (g, bits) group.
pub open spec fn count_matching(rs: Seq<Record>, g: GeneratorKind, bits: usize) -> nat
    decreases rs.len(),
{
    if rs.len() == 0 {
        0
    } else {
        count_matching(rs.drop_last(), g, bits) + if key_matches(rs.last(), g, bits) {
            1nat
        } else {
            0nat
        }
    }
}

/// The sum of the group's elapsed times.
pub open spec fn sum_time_matching(rs: Seq<Record>, g: GeneratorKind, bits: usize) -> nat
    decreases rs.len(),
{
    if rs.len() == 0 {
        0
    } else {
        sum_time_matching(rs.drop_last(), g, bits) + if key_matches(rs.last(), g, bits) {
            rs.last().duration_us as nat
        } else {
            0nat
        }
    }
}

/// The sum of the squares of the group's elapsed times.
pub open spec fn sum_sq_time_matching(rs: Seq<Record>, g: GeneratorKind, bits: usize) -> nat
    decreases rs.len(),
{
    if rs.len() == 0 {
        0
    } else {
        sum_sq_time_matching(rs.drop_last(), g, bits) + if key_matches(rs.last(), g, bits) {
            (rs.last().duration_us as nat) * (rs.last().duration_us as nat)
        } else {
            0nat
        }
    }
}

/// The sum of the group's one counts.
pub open spec fn sum_ones_matching(rs: Seq<Record>, g: GeneratorKind, bits: usize) -> nat
    decreases rs.len(),
{
    if rs.len() == 0 {
        0
    } else {
        sum_ones_matching(rs.drop_last(), g, bits) + if key_matches(rs.last(), g, bits) {
            rs.last().ones as nat
        } else {
            0nat
        }
    }
}

/// The sum of the squares of the group's one counts.
pub open spec fn sum_sq_ones_matching(rs: Seq<Record>, g: GeneratorKind, bits: usize) -> nat
    decreases rs.len(),
{
    if rs.len() == 0 {
        0
    } else {
        sum_sq_ones_matching(rs.drop_last(), g, bits) + if key_matches(rs.last(), g, bits) {
            (rs.last().ones as nat) * (rs.last().ones as nat)
        } else {
            0nat
        }
    }
}

/// A summary is exact for `rs` when its run count and moments are precisely
/// the group's, the group is non-empty, and its storage byte count comes from
/// a member of the group.
pub open spec fn summary_exact(rs: Seq<Record>, s: Summary) -> bool {
    &&& s.runs == count_matching(rs, s.generator, s.bits)
    &&& s.runs > 0
    &&& s.sum_time_us == sum_time_matching(rs, s.generator, s.bits)
    &&& s.sum_sq_time_us == sum_sq_time_matching(rs, s.generator, s.bits)
    &&& s.sum_ones == sum_ones_matching(rs, s.generator, s.bits)
    &&& s.sum_sq_ones == sum_sq_ones_matching(rs, s.generator, s.bits)
    &&& exists|u: int|
        0 <= u < rs.len() && key_matches(#[trigger] rs[u], s.generator, s.bits)
            && s.storage_bytes == rs[u].storage_bytes
}

/// Summaries stand in strictly increasing key order.
pub open spec fn summaries_sorted(s: Seq<Summary>) -> bool {
    forall|p: int, q: int|
        0 <= p < q < s.len() ==> key_lt(
            (#[trigger] s[p]).generator,
            s[p].bits,
            (#[trigger] s[q]).generator,
            s[q].bits,
        )
}

/// The (g, bits) group appears among the summaries.
pub open spec fn key_present(s: Seq<Summary>, g: GeneratorKind, bits: usize) -> bool {
    exists|j: int| 0 <= j < s.len() && (#[trigger] s[j]).generator == g && s[j].bits == bits
}

/// A group with a member has a positive count.
proof fn lemma_count_positive(rs: Seq<Record>, g: GeneratorKind, bits: usize, u: int)
    requires
        0 <= u < rs.len(),
        key_matches(rs[u], g, bits),
    ensures
        count_matching(rs, g, bits) > 0,
    decreases rs.len(),
{
    if u == rs.len() - 1 {
    } else {
        lemma_count_positive(rs.drop_last(), g, bits, u);
    }
}

/// Adding one more term below `c` to a sum of `i` terms each below `c` keeps
/// the sum below `(i + 1) * c`, and within 128 bits.
proof fn lemma_acc_bound(s: nat, t: nat, i: nat, c: nat)
    by (nonlinear_arith)
    requires
        s <= i * c,
        t <= c,
        i < 0x1_0000_0000_0000_0000,
        c <= 0xFFFF_FFFE_0000_0001,
    ensures
        s + t <= (i + 1) * c,
        s + t < 0x1_0000_0000_0000_0000_0000_0000_0000_0000,
{
}

/// Compute one group's exact run count, moments and storage byte count.
fn group_stats(records: &Vec<Record>, g: GeneratorKind, bits: usize) -> (s: Summary)
    requires
        forall|u: int| 0 <= u < records@.len() ==> (#[trigger] records@[u]).wf(),
        forall|u: int| 0 <= u < records@.len() ==> (#[trigger] records@[u]).bits <= 0xFFFF_FFFF,
    ensures
        s.generator == g,
        s.bits == bits,
        s.runs == count_matching(records@, g, bits),
        s.sum_time_us == sum_time_matching(records@, g, bits),
        s.sum_sq_time_us == sum_sq_time_matching(records@, g, bits),
        s.sum_ones == sum_ones_matching(records@, g, bits),
        s.sum_sq_ones == sum_sq_ones_matching(records@, g, bits),
        count_matching(records@, g, bits) > 0 ==> exists|u: int|
            0 <= u < records@.len() && key_matches(#[trigger] records@[u], g, bits)
                && s.storage_bytes == records@[u].storage_bytes,
{
    let n = records.len();
    let mut runs: usize = 0;
    let mut st: u128 = 0;
    let mut sst: u128 = 0;
    let mut so: u128 = 0;
    let mut sso: u128 = 0;
    let mut storage: usize = 0;
    let mut found: bool = false;
    let mut i: usize = 0;
    while i < n
        invariant
            n == records@.len(),
            i <= n,
            forall|u: int| 0 <= u < records@.len() ==> (#[trigger] records@[u]).wf(),
            forall|u: int| 0 <= u < records@.len() ==> (#[trigger] records@[u]).bits
                <= 0xFFFF_FFFF,
            runs == count_matching(records@.take(i as int), g, bits),
            runs <= i,
            st as nat == sum_time_matching(records@.take(i as int), g, bits),
            sst as nat == sum_sq_time_matching(records@.take(i as int), g, bits),
            so as nat == sum_ones_matching(records@.take(i as int), g, bits),
            sso as nat == sum_sq_ones_matching(records@.take(i as int), g, bits),
            st as nat <= runs * 0xFFFF_FFFF,
            sst as nat <= runs * 0xFFFF_FFFE_0000_0001,
            so as nat <= runs * 0xFFFF_FFFF,
            sso as nat <= runs * 0xFFFF_FFFE_0000_0001,
            found <==> count_matching(records@.take(i as int), g, bits) > 0,
            found ==> exists|u: int|
                0 <= u < i && key_matches(#[trigger] records@[u], g, bits) && storage
                    == records@[u].storage_bytes,
        decreases n - i,
    {
        let r = records[i];
        proof {
            assert(records@.take(i as int + 1).drop_last() =~= records@.take(i as int));
            assert(records@.take(i as int + 1).last() == records@[i as int]);
        }
        let is_match = r.generator.rank_u8() == g.rank_u8() && r.bits == bits;
        proof {
            if r.generator.rank() == g.rank() {
                lemma_rank_injective(r.generator, g);
            }
        }
        if is_match {
            let d = r.duration_us as u128;
            let o = r.ones as u128;
            proof {
                assert(r.wf() && r.bits <= 0xFFFF_FFFF);
                assert(o as nat <= 0xFFFF_FFFF);
                assert((d as nat) * (d as nat) <= 0xFFFF_FFFE_0000_0001) by (nonlinear_arith)
                    requires
                        d as nat <= 0xFFFF_FFFF,
                ;
                assert((o as nat) * (o as nat) <= 0xFFFF_FFFE_0000_0001) by (nonlinear_arith)
                    requires
                        o as nat <= 0xFFFF_FFFF,
                ;
                lemma_acc_bound(st as nat, d as nat, runs as nat, 0xFFFF_FFFF);
                lemma_acc_bound(sst as nat, (d as nat) * (d as nat), runs as nat,
                    0xFFFF_FFFE_0000_0001);
                lemma_acc_bound(so as nat, o as nat, runs as nat, 0xFFFF_FFFF);
                lemma_acc_bound(sso as nat, (o as nat) * (o as nat), runs as nat,
                    0xFFFF_FFFE_0000_0001);
            }
            st = st + d;
            sst = sst + d * d;
            so = so + o;
            sso = sso + o * o;
            runs = runs + 1;
            if !found {
                storage = r.storage_bytes;
                found = true;
            }
        }
        i = i + 1;
    }
    proof {
        assert(records@.take(n as int) =~= records@);
    }
    Summary {
        generator: g,
        bits,
        runs,
        sum_time_us: st,
        sum_sq_time_us: sst,
        sum_ones: so,
        sum_sq_ones: sso,
        storage_bytes: storage,
    }
}

/// Whether the (g, bits) key orders strictly before the summary's key.
fn key_lt_exec(s: &Summary, g: GeneratorKind, bits: usize) -> (r: bool)
    ensures
        r == key_lt(s.generator, s.bits, g, bits),
{
    let a = s.generator.rank_u8();
    let b = g.rank_u8();
    a < b || (a == b && s.bits < bits)
}

/// Group the records by (generator, bit length) and reduce every group to its
/// summary. The result lists each occurring group exactly once, in strictly
/// increasing key order, with exact run counts and moments.
pub fn summarize(records: &Vec<Record>) -> (out: Vec<Summary>)
    requires
        forall|u: int| 0 <= u < records@.len() ==> (#[trigger] records@[u]).wf(),
        forall|u: int| 0 <= u < records@.len() ==> (#[trigger] records@[u]).bits <= 0xFFFF_FFFF,
    ensures
        summaries_sorted(out@),
        forall|j: int| 0 <= j < out@.len() ==> summary_exact(records@, #[trigger] out@[j]),
        forall|u: int|
            0 <= u < records@.len() ==> key_present(
                out@,
                (#[trigger] records@[u]).generator,
                records@[u].bits,
            ),
{
    let n = records.len();
    let mut out: Vec<Summary> = Vec::new();
    let mut t: usize = 0;
    while t < n
        invariant
            n == records@.len(),
            t <= n,
            forall|u: int| 0 <= u < records@.len() ==> (#[trigger] records@[u]).wf(),
            forall|u: int| 0 <= u < records@.len() ==> (#[trigger] records@[u]).bits
                <= 0xFFFF_FFFF,
            summaries_sorted(out@),
            forall|j: int| 0 <= j < out@.len() ==> summary_exact(records@, #[trigger] out@[j]),
            forall|u: int|
                0 <= u < t ==> key_present(
                    out@,
                    (#[trigger] records@[u]).generator,
                    records@[u].bits,
                ),
        decreases n - t,
    {
        let g = records[t].generator;
        let bits = records[t].bits;
        let mut idx: usize = 0;
        while idx < out.len() && key_lt_exec(&out[idx], g, bits)
            invariant
                idx <= out@.len(),
                forall|p: int|
                    0 <= p < idx ==> key_lt((#[trigger] out@[p]).generator, out@[p].bits, g, bits),
            decreases out@.len() - idx,
        {
            idx = idx + 1;
        }
        let present = idx < out.len() && out[idx].generator == g && out[idx].bits == bits;
        if !present {
            proof {
                if idx < out@.len() && out@[idx as int].generator.rank() == g.rank() {
                    lemma_rank_injective(out@[idx as int].generator, g);
                }
                assert(idx < out@.len() ==> key_lt(
                    g,
                    bits,
                    out@[idx as int].generator,
                    out@[idx as int].bits,
                ));
            }
            let s = group_stats(records, g, bits);
            proof {
                lemma_count_positive(records@, g, bits, t as int);
            }
            let ghost prev = out@;
            out.insert(idx, s);
            proof {
                prev.insert_ensures(idx as int, s);
                assert forall|j: int| 0 <= j < out@.len() implies summary_exact(
                    records@,
                    #[trigger] out@[j],
                ) by {
                    if j < idx {
                        assert(out@[j] == prev[j]);
                    } else if j == idx {
                        assert(out@[j] == s);
                    } else {
                        assert(out@[j] == prev[j - 1]);
                    }
                }
                assert forall|p: int, q: int| 0 <= p < q < out@.len() implies key_lt(
                    (#[trigger] out@[p]).generator,
                    out@[p].bits,
                    (#[trigger] out@[q]).generator,
                    out@[q].bits,
                ) by {
                    if q < idx {
                    } else if p < idx && q == idx {
                        assert(out@[p] == prev[p]);
                    } else if p < idx && q > idx {
                        assert(out@[p] == prev[p] && out@[q] == prev[q - 1]);
                    } else if p == idx {
                        assert(out@[q] == prev[q - 1] && q - 1 >= idx);
                    } else {
                        assert(out@[p] == prev[p - 1] && out@[q] == prev[q - 1]);
                    }
                }
                assert forall|u: int| 0 <= u < t + 1 implies key_present(
                    out@,
                    (#[trigger] records@[u]).generator,
                    records@[u].bits,
                ) by {
                    if u < t {
                        let j = choose|j: int|
                            0 <= j < prev.len() && (#[trigger] prev[j]).generator == records@[u].generator
                                && prev[j].bits == records@[u].bits;
                        if j < idx {
                            assert(out@[j] == prev[j]);
                        } else {
                            assert(out@[j + 1] == prev[j]);
                        }
                    } else {
                        assert(out@[idx as int] == s);
                    }
                }
            }
        } else {
            proof {
                assert(key_present(out@, g, bits));
            }
        }
        t = t + 1;
    }
    out
}

} // verus!
