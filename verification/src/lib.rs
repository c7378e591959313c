//! A HyperLogLog-family sketch for approximate distinct counting.
//!
//! A `Log` holds `2^precision` one-byte registers. Each added datum is
//! hashed to 64 bits; the top `precision` bits pick a register, and the
//! register keeps the maximum over all data of `1 + leading zeros` of the
//! hash. The fraction of registers still at zero drives a linear-counting
//! cardinality estimate; combining two sketches takes the pointwise
//! register maximum, which represents the union of the underlying sets.
//!
//! Everything that works on registers is verified here. The cardinality
//! formula itself needs floating point, so callers compute it from
//! `count_zero_registers` and `register_count`.

use vstd::prelude::*;
use vstd::arithmetic::power2::pow2;
use vstd::bits::lemma_u64_pow2_no_overflow;
use vstd::bits::lemma_u64_shl_is_mul;
use vstd::bits::lemma_u32_pow2_no_overflow;
use vstd::bits::lemma_u32_shl_is_mul;
use vstd::std_specs::bits::u64_leading_zeros;
use vstd::std_specs::hash::DefaultHasherAdditionalSpecFns;
use std::collections::hash_map::DefaultHasher;
use std::hash::Hasher;

verus! {

/// The bytes of a datum as they are fed to the hasher, least significant
/// byte first.
pub open spec fn datum_bytes(datum: u32) -> Seq<u8> {
    seq![
        (datum & 0xff) as u8,
        ((datum >> 8) & 0xff) as u8,
        ((datum >> 16) & 0xff) as u8,
        ((datum >> 24) & 0xff) as u8,
    ]
}

/// The 64-bit hash of a datum: what `DefaultHasher` yields after one
/// write of the datum's bytes. Deterministic in the datum alone.
pub open spec fn hash_of(datum: u32) -> u64 {
    DefaultHasher::spec_finish(seq![datum_bytes(datum)])
}

/// The register index for a hash: its top `bits` bits.
pub open spec fn bucket_of(hash: u64, bits: u32) -> u64
    recommends
        1 <= bits <= 32,
{
    hash >> ((64 - bits) as u64)
}

/// The rank recorded for a hash: one more than its leading zero count,
/// so a register value of zero is reserved for "never hit".
pub open spec fn rank_of(hash: u64) -> u8 {
    (u64_leading_zeros(hash) + 1) as u8
}

/// The larger of two register values.
pub open spec fn max_u8(a: u8, b: u8) -> u8 {
    if a >= b {
        a
    } else {
        b
    }
}

/// The registers after one datum is added to a sketch of the given
/// precision: the datum's bucket saturates upward to its rank.
pub open spec fn added(regs: Seq<u8>, bits: u32, datum: u32) -> Seq<u8> {
    let h = hash_of(datum);
    let i = bucket_of(h, bits) as int;
    regs.update(i, max_u8(regs[i], rank_of(h)))
}

/// The pointwise maximum of two register arrays: the sketch of the union.
pub open spec fn merged(a: Seq<u8>, b: Seq<u8>) -> Seq<u8> {
    Seq::new(a.len(), |i: int| max_u8(a[i], b[i]))
}

/// How many registers are still at zero, i.e. have never been hit.
pub open spec fn zero_count(s: Seq<u8>) -> nat
    decreases s.len(),
{
    if s.len() == 0 {
        0
    } else {
        zero_count(s.drop_last()) + (if s.last() == 0 {
            1nat
        } else {
            0nat
        })
    }
}

/// Why a sketch operation was refused: see `try_init` and
/// `try_set_union`.
#[derive(Debug, Clone, Copy, PartialEq, Eq, Structural)]
pub enum SketchError {
    /// `init` wants a precision between 1 and 31.
    InvalidPrecision,
    /// Two sketches can only be combined at equal precision.
    PrecisionMismatch,
}

/// The sketch: `2^key_bit_count` registers, each the running maximum of
/// the ranks of the data hashed into its bucket.
#[derive(Debug)]
pub struct Log {
    key_bit_count: u32,
    key_array_size: u32,
    max_zeros: Vec<u8>,
}

impl Log {
    /// The precision: how many hash bits select a register.
    pub closed spec fn prec(&self) -> u32 {
        self.key_bit_count
    }

    /// The register count, `2^precision`.
    pub closed spec fn size(&self) -> u32 {
        self.key_array_size
    }

    /// The registers themselves.
    pub closed spec fn regs(&self) -> Seq<u8> {
        self.max_zeros@
    }

    /// A well-formed sketch: precision in range, and exactly
    /// `2^precision` registers.
    pub open spec fn wf(&self) -> bool {
        &&& 1 <= self.prec() <= 31
        &&& self.size() == pow2(self.prec() as nat)
        &&& self.regs().len() == self.size()
    }
}

/// Makes an empty sketch: `2^keybitcount` registers, all zero.
///
/// Precisions outside `1..=31` have no representable register count;
/// `try_init` reports them as `InvalidPrecision` instead.
pub fn init(keybitcount: u32) -> (r: Log)
    requires
        1 <= keybitcount <= 31,
    ensures
        r.wf(),
        r.prec() == keybitcount,
        r.regs().len() == pow2(keybitcount as nat),
        forall|i: int| 0 <= i < r.regs().len() ==> r.regs()[i] == 0,
{
    proof {
        lemma_u32_pow2_no_overflow(keybitcount as nat);
        lemma_u32_shl_is_mul(1u32, keybitcount);
    }
    let key_size: u32 = 1u32 << keybitcount;
    let mut v: Vec<u8> = Vec::with_capacity(key_size as usize);
    let mut i: u32 = 0;
    while i < key_size
        invariant
            i <= key_size,
            v@.len() == i,
            forall|j: int| 0 <= j < i ==> v@[j] == 0,
        decreases key_size - i,
    {
        v.push(0u8);
        i = i + 1;
    }
    Log { key_bit_count: keybitcount, key_array_size: key_size, max_zeros: v }
}

/// Like `init`, but refuses an out-of-range precision instead of
/// demanding one in range.
pub fn try_init(keybitcount: u32) -> (r: Result<Log, SketchError>)
    ensures
        1 <= keybitcount <= 31 <==> r is Ok,
        r matches Ok(l) ==> {
            &&& l.wf()
            &&& l.prec() == keybitcount
            &&& forall|i: int| 0 <= i < l.regs().len() ==> l.regs()[i] == 0
        },
        r matches Err(e) ==> e == SketchError::InvalidPrecision,
{
    if 1 <= keybitcount && keybitcount <= 31 {
        Ok(init(keybitcount))
    } else {
        Err(SketchError::InvalidPrecision)
    }
}

/// A hash's bucket lies below the register count of any sketch whose
/// precision took those bits.
proof fn lemma_bucket_in_range(hash: u64, bits: u32)
    requires
        1 <= bits <= 31,
    ensures
        bucket_of(hash, bits) < pow2(bits as nat),
{
    assert(hash >> ((64 - bits) as u64) < (1u64 << (bits as u64))) by (bit_vector)
        requires
            1 <= bits <= 31,
    ;
    lemma_u64_pow2_no_overflow(bits as nat);
    lemma_u64_shl_is_mul(1u64, bits as u64);
}

impl Log {
    /// From the hash take the top `n_bits` bits to make a bucket index.
    fn inthash_most_significant_bits(datum_hash: u64, n_bits: u32) -> (r: u32)
        requires
            1 <= n_bits <= 32,
        ensures
            r == bucket_of(datum_hash, n_bits),
    {
        proof {
            assert(datum_hash >> ((64 - n_bits) as u64) <= u32::MAX) by (bit_vector)
                requires
                    1 <= n_bits <= 32,
            ;
        }
        (datum_hash >> (64 - n_bits) as u64) as u32
    }

    /// Count the hash's leading zero bits.
    fn inthash_leading_zeros(datum_hash: u64) -> (r: u8)
        ensures
            r == u64_leading_zeros(datum_hash),
            r <= 64,
    {
        proof {
            vstd::std_specs::bits::axiom_u64_leading_zeros(datum_hash);
        }
        let count: u8 = datum_hash.leading_zeros() as u8;
        count
    }

    /// Hashes a datum with std's `DefaultHasher`, which starts from a
    /// fixed state, so equal data always hash alike.
    pub fn calculate_hash(t: &u32) -> (r: u64)
        ensures
            r == hash_of(*t),
    {
        let d: u32 = *t;
        let bytes: [u8; 4] = [
            (d & 0xff) as u8,
            ((d >> 8) & 0xff) as u8,
            ((d >> 16) & 0xff) as u8,
            ((d >> 24) & 0xff) as u8,
        ];
        let mut s = DefaultHasher::new();
        s.write(bytes.as_slice());
        proof {
            assert(bytes@ =~= datum_bytes(d));
            assert(s@ =~~= seq![datum_bytes(d)]);
        }
        s.finish()
    }

    /// Records one datum: its bucket's register saturates upward to the
    /// datum's rank. No register ever decreases.
    pub fn add_datum(&mut self, datum: u32)
        requires
            old(self).wf(),
        ensures
            final(self).wf(),
            final(self).prec() == old(self).prec(),
            final(self).regs() == added(old(self).regs(), old(self).prec(), datum),
            forall|i: int|
                0 <= i < old(self).regs().len() ==> old(self).regs()[i] <= final(self).regs()[i],
    {
        let hash = Log::calculate_hash(&datum);
        proof {
            lemma_bucket_in_range(hash, self.key_bit_count);
        }
        let index = Log::inthash_most_significant_bits(hash, self.key_bit_count) as usize;
        let rank = Log::inthash_leading_zeros(hash) + 1;
        let cur = self.max_zeros[index];
        let next = if cur >= rank {
            cur
        } else {
            rank
        };
        self.max_zeros[index] = next;
    }

    /// Deep-copies the sketch; the copy's registers are independent
    /// storage.
    pub fn copy(&self) -> (r: Log)
        requires
            self.wf(),
        ensures
            r.wf(),
            r.prec() == self.prec(),
            r.regs() == self.regs(),
    {
        let mut to = init(self.key_bit_count);
        let mut i: usize = 0;
        while i < self.max_zeros.len()
            invariant
                self.wf(),
                i <= self.regs().len(),
                to.wf(),
                to.prec() == self.prec(),
                to.regs().len() == self.regs().len(),
                forall|j: int| 0 <= j < i ==> to.regs()[j] == self.regs()[j],
            decreases self.regs().len() - i,
        {
            let v = self.max_zeros[i];
            to.max_zeros[i] = v;
            i = i + 1;
        }
        proof {
            assert(to.regs() =~= self.regs());
        }
        to
    }

    /// Folds another sketch of the same precision into this one: every
    /// register becomes the maximum of the pair, the sketch of the union
    /// of both data sets. No register of the receiver decreases.
    pub fn union(&mut self, bitmap_ptr: Log)
        requires
            old(self).wf(),
            bitmap_ptr.wf(),
            bitmap_ptr.prec() == old(self).prec(),
        ensures
            final(self).wf(),
            final(self).prec() == old(self).prec(),
            final(self).regs() == merged(old(self).regs(), bitmap_ptr.regs()),
            forall|i: int|
                0 <= i < old(self).regs().len() ==> old(self).regs()[i] <= final(self).regs()[i],
    {
        let ghost orig = self.regs();
        let mut i: usize = 0;
        while i < bitmap_ptr.max_zeros.len()
            invariant
                self.wf(),
                bitmap_ptr.wf(),
                self.prec() == bitmap_ptr.prec(),
                self.regs().len() == bitmap_ptr.regs().len(),
                orig.len() == self.regs().len(),
                i <= self.regs().len(),
                forall|j: int| 0 <= j < i ==> self.regs()[j] == max_u8(orig[j], bitmap_ptr.regs()[j]),
                forall|j: int| i <= j < orig.len() ==> self.regs()[j] == orig[j],
            decreases bitmap_ptr.regs().len() - i,
        {
            let a = self.max_zeros[i];
            let b = bitmap_ptr.max_zeros[i];
            let next = if a >= b {
                a
            } else {
                b
            };
            self.max_zeros[i] = next;
            i = i + 1;
        }
        proof {
            assert(self.regs() =~= merged(orig, bitmap_ptr.regs()));
        }
    }

    /// Combines two sketches of equal precision into a new one whose
    /// registers are the pointwise maximum; neither input is mutated.
    pub fn set_union(&self, datum: Log) -> (r: Log)
        requires
            self.wf(),
            datum.wf(),
            datum.prec() == self.prec(),
        ensures
            r.wf(),
            r.prec() == self.prec(),
            r.regs() == merged(self.regs(), datum.regs()),
    {
        let mut ret_val: Log = self.copy();
        ret_val.union(datum);
        proof {
            assert(merged(self.regs(), datum.regs()) =~= ret_val.regs());
        }
        ret_val
    }

    /// Like `set_union`, but refuses a precision mismatch instead of
    /// demanding equal precisions.
    pub fn try_set_union(&self, datum: &Log) -> (r: Result<Log, SketchError>)
        requires
            self.wf(),
            datum.wf(),
        ensures
            self.prec() == datum.prec() <==> r is Ok,
            r matches Ok(l) ==> {
                &&& l.wf()
                &&& l.prec() == self.prec()
                &&& l.regs() == merged(self.regs(), datum.regs())
            },
            r matches Err(e) ==> e == SketchError::PrecisionMismatch,
    {
        if self.key_bit_count == datum.key_bit_count {
            Ok(self.set_union(datum.copy()))
        } else {
            Err(SketchError::PrecisionMismatch)
        }
    }

    /// Counts the registers still at zero: the linear-counting
    /// estimator's input, alongside `register_count`.
    pub fn count_zero_registers(&self) -> (r: u32)
        requires
            self.wf(),
        ensures
            r == zero_count(self.regs()),
            r <= self.size(),
    {
        let mut total_zeros: u32 = 0;
        let mut i: usize = 0;
        while i < self.max_zeros.len()
            invariant
                self.wf(),
                i <= self.regs().len(),
                total_zeros == zero_count(self.regs().take(i as int)),
                total_zeros <= i,
            decreases self.regs().len() - i,
        {
            proof {
                lemma_zero_count_step(self.regs(), i as int);
            }
            let z: u8 = self.max_zeros[i];
            if z == 0 {
                total_zeros = total_zeros + 1;
            }
            i = i + 1;
        }
        proof {
            assert(self.regs().take(self.regs().len() as int) =~= self.regs());
        }
        total_zeros
    }

    /// The precision this sketch was built with.
    pub fn precision(&self) -> (r: u32)
        ensures
            r == self.prec(),
    {
        self.key_bit_count
    }

    /// How many registers the sketch holds, `2^precision`.
    pub fn register_count(&self) -> (r: u32)
        ensures
            r == self.size(),
    {
        self.key_array_size
    }

    /// Reads one register.
    pub fn register(&self, i: usize) -> (r: u8)
        requires
            self.wf(),
            i < self.regs().len(),
        ensures
            r == self.regs()[i as int],
    {
        self.max_zeros[i]
    }
}

/// Counting zeros over one more register adds one exactly when that
/// register is zero.
proof fn lemma_zero_count_step(s: Seq<u8>, i: int)
    requires
        0 <= i < s.len(),
    ensures
        zero_count(s.take(i + 1)) == zero_count(s.take(i)) + (if s[i] == 0 {
            1nat
        } else {
            0nat
        }),
{
    assert(s.take(i + 1).drop_last() =~= s.take(i));
}

/// Replaying a datum changes nothing: adding it a second time leaves
/// the registers exactly as one addition left them.
pub proof fn lemma_add_idempotent(regs: Seq<u8>, bits: u32, datum: u32)
    requires
        1 <= bits <= 31,
        regs.len() == pow2(bits as nat),
    ensures
        added(added(regs, bits, datum), bits, datum) == added(regs, bits, datum),
{
    lemma_bucket_in_range(hash_of(datum), bits);
    assert(added(added(regs, bits, datum), bits, datum) =~= added(regs, bits, datum));
}

/// Combining sketches is commutative: the pointwise register maximum
/// does not depend on the order of the operands.
pub proof fn lemma_merge_commutative(a: Seq<u8>, b: Seq<u8>)
    requires
        a.len() == b.len(),
    ensures
        merged(a, b) == merged(b, a),
{
    assert(merged(a, b) =~= merged(b, a));
}

/// Combining sketches is associative: folding three sketches together
/// gives the same registers whichever pair is combined first.
pub proof fn lemma_merge_associative(a: Seq<u8>, b: Seq<u8>, c: Seq<u8>)
    requires
        a.len() == b.len(),
        b.len() == c.len(),
    ensures
        merged(merged(a, b), c) == merged(a, merged(b, c)),
{
    assert(merged(merged(a, b), c) =~= merged(a, merged(b, c)));
}

/// A sketch combined with itself is unchanged, so the union estimate of
/// a sketch with itself equals its own estimate.
pub proof fn lemma_merge_self(s: Seq<u8>)
    ensures
        merged(s, s) == s,
{
    assert(merged(s, s) =~= s);
}

/// In an untouched sketch every register is zero, so the zero-register
/// count is the full register count and the linear-counting ratio is
/// one.
pub proof fn lemma_zero_count_all_zero(s: Seq<u8>)
    requires
        forall|i: int| 0 <= i < s.len() ==> s[i] == 0,
    ensures
        zero_count(s) == s.len(),
    decreases s.len(),
{
    if s.len() > 0 {
        lemma_zero_count_all_zero(s.drop_last());
    }
}

} // verus!
