//! The hash by which a client and the sync server compare their versions of a
//! task: the first four bytes of BLAKE2b of the task's serialised form, read
//! as a big-endian number.

use vstd::prelude::*;
use blake2::digest::{Input, VariableOutput};

verus! {

/// BLAKE2b of `data` with an output of `size` bytes.
pub uninterp spec fn blake2b_digest(data: Seq<u8>, size: nat) -> Seq<u8>;

/// The digest of `data` from blake2's `VarBlake2b` created with output size
/// `size` (which blake2 accepts from 1 to 64), fed `data` and read with
/// `vec_result`; its source hands back exactly `size` bytes. The bytes
/// themselves are BLAKE2b's, named and not described.
#[verifier::external_body]
fn blake2b(data: &[u8], size: usize) -> (r: Vec<u8>)
    requires
        1 <= size <= 64,
    ensures
        r@ == blake2b_digest(data@, size as nat),
        r@.len() == size,
{
    let mut hasher = blake2::VarBlake2b::new(size).unwrap();
    hasher.input(data);
    hasher.vec_result()
}

/// The bytes read as a big-endian number.
pub open spec fn big_endian(bytes: Seq<u8>) -> nat
    decreases bytes.len(),
{
    if bytes.len() == 0 {
        0
    } else {
        big_endian(bytes.drop_last()) * 256 + bytes.last() as nat
    }
}

/// 256 to the power `n`.
pub open spec fn pow256(n: nat) -> nat
    decreases n,
{
    if n == 0 {
        1
    } else {
        256 * pow256((n - 1) as nat)
    }
}

/// A number read from `n` bytes is below 256 to the power `n`.
pub proof fn lemma_big_endian_bound(bytes: Seq<u8>)
    ensures
        big_endian(bytes) < pow256(bytes.len()),
    decreases bytes.len(),
{
    if bytes.len() > 0 {
        let p = bytes.drop_last();
        lemma_big_endian_bound(p);
        let a = big_endian(p);
        let b = bytes.last() as nat;
        let q = pow256(p.len());
        assert(a * 256 + b < 256 * q) by (nonlinear_arith)
            requires
                a < q,
                b < 256,
        ;
    }
}

/// The hash of a task whose serialised form is `serialized`.
pub open spec fn task_hash(serialized: Seq<u8>) -> nat {
    big_endian(blake2b_digest(serialized, 4))
}

/// The hash of a task from its serialised form: the four bytes of BLAKE2b
/// with a four-byte output, read as a big-endian number.
pub fn calculate_hash(serialized: &[u8]) -> (r: u64)
    ensures
        r == task_hash(serialized@),
        r < 0x1_0000_0000,
{
    let digest = blake2b(serialized, 4);
    let mut acc: u64 = 0;
    let mut i: usize = 0;
    proof {
        lemma_big_endian_bound(digest@);
        reveal_with_fuel(pow256, 5);
    }
    while i < digest.len()
        invariant
            digest@.len() == 4,
            i <= 4,
            acc == big_endian(digest@.subrange(0, i as int)),
            acc < pow256(i as nat),
            pow256(4) == 0x1_0000_0000,
        decreases digest.len() - i,
    {
        let ghost prefix = digest@.subrange(0, i + 1);
        assert(prefix.drop_last() =~= digest@.subrange(0, i as int));
        proof {
            lemma_big_endian_bound(prefix);
            assert(pow256((i + 1) as nat) == 256 * pow256(i as nat));
            reveal_with_fuel(pow256, 5);
            assert(pow256(i as nat) <= 16777216);
            assert(acc * 256 + digest@[i as int] < 0x1_0000_0000) by (nonlinear_arith)
                requires
                    acc < pow256(i as nat),
                    pow256(i as nat) <= 16777216,
                    digest@[i as int] < 256,
            ;
        }
        acc = acc * 256 + digest[i] as u64;
        i = i + 1;
    }
    assert(digest@.subrange(0, 4) =~= digest@);
    acc
}

} // verus!
