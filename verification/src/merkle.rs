//! The fixed-depth Merkle accumulator over accounts: subtree roots,
//! authentication paths, index bits, and the recomputation of a root from a
//! path.

use vstd::prelude::*;

use vstd::arithmetic::div_mod::lemma_basic_div;
use vstd::arithmetic::div_mod::lemma_div_denominator;
use vstd::arithmetic::div_mod::lemma_hoist_over_denominator;
use vstd::arithmetic::div_mod::lemma_mod_multiples_vanish;
use vstd::arithmetic::power2::lemma2_to64;
use vstd::arithmetic::power2::lemma_pow2_adds;
use vstd::arithmetic::power2::lemma_pow2_pos;
use vstd::arithmetic::power2::lemma_pow2_strictly_increases;
use vstd::arithmetic::power2::lemma_pow2_unfold;
use vstd::arithmetic::power2::pow2;

use pairing_ce::bn256::Fr;
use sapling_crypto_ce::poseidon::bn256::Bn256PoseidonParams;

use crate::account::leaf_hash;
use crate::account::leaf_hash_spec;
use crate::account::Account;
use crate::primitives::poseidon_digest;
use crate::primitives::poseidon_of;
use crate::primitives::poseidon_wf;

verus! {

/// The digest of an internal node over its two children.
pub open spec fn node_hash_spec(params: Bn256PoseidonParams, l: Fr, r: Fr) -> Fr {
    poseidon_of(params, seq![l, r])[0]
}

/// Hashes two child digests into their parent node.
pub fn node_hash(params: &Bn256PoseidonParams, l: &Fr, r: &Fr) -> (h: Fr)
    requires
        poseidon_wf(*params),
    ensures
        h == node_hash_spec(*params, *l, *r),
{
    let mut input: Vec<Fr> = Vec::new();
    input.push(*l);
    input.push(*r);
    proof {
        assert(input@ =~= seq![*l, *r]);
    }
    poseidon_digest(params, &input)
}

/// Computes a power of two that fits the machine word.
pub fn pow2_exec(e: usize) -> (r: usize)
    requires
        pow2(e as nat) <= usize::MAX,
    ensures
        r == pow2(e as nat),
{
    proof {
        vstd::arithmetic::power2::lemma2_to64();
    }
    let mut r: usize = 1;
    let mut k: usize = 0;
    while k < e
        invariant
            k <= e,
            r == pow2(k as nat),
            pow2(e as nat) <= usize::MAX,
        decreases e - k,
    {
        proof {
            lemma_pow2_unfold((k + 1) as nat);
            if ((k + 1) as nat) < (e as nat) {
                lemma_pow2_strictly_increases((k + 1) as nat, e as nat);
            }
        }
        r = r * 2;
        k = k + 1;
    }
    r
}

/// Bit `k` of an index, little-endian.
pub open spec fn index_bit(i: nat, k: nat) -> bool {
    (i / pow2(k)) % 2 == 1
}

/// The little-endian index-bit decomposition of a leaf position: bit 0 picks
/// the side at the bottom level, the last bit the side under the root.
pub open spec fn bits_of(i: nat, depth: nat) -> Seq<bool> {
    Seq::new(depth, |k: int| index_bit(i, k as nat))
}

/// Decomposes a leaf position into its index bits.
pub fn leaf_index_bits(i: u64, depth: usize) -> (r: Vec<bool>)
    ensures
        r@ == bits_of(i as nat, depth as nat),
{
    proof {
        vstd::arithmetic::power2::lemma2_to64();
    }
    let mut r: Vec<bool> = Vec::new();
    let mut cur: u64 = i;
    let mut k: usize = 0;
    while k < depth
        invariant
            k <= depth,
            cur == i as nat / pow2(k as nat),
            r@.len() == k,
            forall|j: int| 0 <= j < k ==> r@[j] == index_bit(i as nat, j as nat),
        decreases depth - k,
    {
        r.push(cur % 2 == 1);
        proof {
            lemma_pow2_pos(k as nat);
            lemma_pow2_unfold((k + 1) as nat);
            lemma_div_denominator(i as int, pow2(k as nat) as int, 2);
        }
        cur = cur / 2;
        k = k + 1;
    }
    proof {
        assert(r@ =~= bits_of(i as nat, depth as nat));
    }
    r
}

/// The root recomputed from a leaf digest, its authentication path and its
/// index bits, bottom level first: a set bit places the running digest on
/// the right of its sibling.
pub open spec fn root_from_path(
    params: Bn256PoseidonParams,
    leaf: Fr,
    path: Seq<Fr>,
    bits: Seq<bool>,
) -> Fr
    decreases path.len(),
{
    if path.len() == 0 {
        leaf
    } else {
        let step = if bits[0] {
            node_hash_spec(params, path[0], leaf)
        } else {
            node_hash_spec(params, leaf, path[0])
        };
        root_from_path(params, step, path.skip(1), bits.skip(1))
    }
}

/// Recomputes the root from one leaf digest and its authentication data.
pub fn compute_root_from_path(
    params: &Bn256PoseidonParams,
    leaf: &Fr,
    path: &Vec<Fr>,
    bits: &Vec<bool>,
) -> (r: Fr)
    requires
        poseidon_wf(*params),
        path@.len() == bits@.len(),
    ensures
        r == root_from_path(*params, *leaf, path@, bits@),
{
    proof {
        assert(path@.skip(0) =~= path@);
        assert(bits@.skip(0) =~= bits@);
    }
    let mut cur: Fr = *leaf;
    let mut k: usize = 0;
    while k < path.len()
        invariant
            poseidon_wf(*params),
            k <= path@.len(),
            path@.len() == bits@.len(),
            root_from_path(*params, cur, path@.skip(k as int), bits@.skip(k as int))
                == root_from_path(*params, *leaf, path@, bits@),
        decreases path@.len() - k,
    {
        let step = if bits[k] {
            node_hash(params, &path[k], &cur)
        } else {
            node_hash(params, &cur, &path[k])
        };
        proof {
            assert(path@.skip(k as int).skip(1) =~= path@.skip(k as int + 1));
            assert(bits@.skip(k as int).skip(1) =~= bits@.skip(k as int + 1));
            assert(path@.skip(k as int)[0] == path@[k as int]);
            assert(bits@.skip(k as int)[0] == bits@[k as int]);
        }
        cur = step;
        k = k + 1;
    }
    proof {
        assert(path@.skip(path@.len() as int) =~= Seq::<Fr>::empty());
    }
    cur
}

/// The root of the subtree over a power-of-two block of leaves.
pub open spec fn subtree_root_spec(params: Bn256PoseidonParams, leaves: Seq<Account>) -> Fr
    decreases leaves.len(),
{
    if leaves.len() <= 1 {
        leaf_hash_spec(params, leaves[0])
    } else {
        let half = leaves.len() as int / 2;
        node_hash_spec(
            params,
            subtree_root_spec(params, leaves.take(half)),
            subtree_root_spec(params, leaves.skip(half)),
        )
    }
}

/// The authentication path of one leaf inside a power-of-two block, bottom
/// level first: at each level the digest of the sibling subtree.
pub open spec fn path_spec(params: Bn256PoseidonParams, leaves: Seq<Account>, pos: nat) -> Seq<Fr>
    decreases leaves.len(),
{
    if leaves.len() <= 1 {
        Seq::empty()
    } else {
        let half = leaves.len() as int / 2;
        if pos < half {
            path_spec(params, leaves.take(half), pos).push(
                subtree_root_spec(params, leaves.skip(half)),
            )
        } else {
            path_spec(params, leaves.skip(half), (pos - half) as nat).push(
                subtree_root_spec(params, leaves.take(half)),
            )
        }
    }
}

/// Hashes the subtree over `pow2(depth)` accounts starting at `start`.
pub fn subtree_hash(
    params: &Bn256PoseidonParams,
    accounts: &Vec<Account>,
    start: usize,
    depth: usize,
) -> (r: Fr)
    requires
        poseidon_wf(*params),
        pow2(depth as nat) <= usize::MAX,
        start + pow2(depth as nat) <= accounts@.len(),
    ensures
        r == subtree_root_spec(
            *params,
            accounts@.subrange(start as int, start as int + pow2(depth as nat)),
        ),
    decreases depth,
{
    let _len: usize = accounts.len();
    proof {
        vstd::arithmetic::power2::lemma2_to64();
    }
    if depth == 0 {
        let r = leaf_hash(params, &accounts[start]);
        proof {
            let s = accounts@.subrange(start as int, start as int + 1);
            assert(s.len() == 1);
            assert(s[0] == accounts@[start as int]);
        }
        r
    } else {
        proof {
            lemma_pow2_unfold(depth as nat);
            lemma_pow2_pos((depth - 1) as nat);
        }
        let half = pow2_exec(depth - 1);
        let l = subtree_hash(params, accounts, start, depth - 1);
        let r = subtree_hash(params, accounts, start + half, depth - 1);
        let h = node_hash(params, &l, &r);
        proof {
            let s = accounts@.subrange(start as int, start as int + pow2(depth as nat));
            let m = pow2((depth - 1) as nat) as int;
            assert(s.len() as int / 2 == m);
            assert(s.take(m) =~= accounts@.subrange(start as int, start as int + m));
            assert(s.skip(m) =~= accounts@.subrange(
                start as int + m,
                start as int + pow2(depth as nat),
            ));
        }
        h
    }
}

/// Appending the top sibling to a path hashes it in as the last step of the
/// recomputation.
proof fn lemma_root_from_path_push(
    params: Bn256PoseidonParams,
    leaf: Fr,
    p: Seq<Fr>,
    b: Seq<bool>,
    s: Fr,
    top: bool,
)
    requires
        p.len() == b.len(),
    ensures
        root_from_path(params, leaf, p.push(s), b.push(top)) == (if top {
            node_hash_spec(params, s, root_from_path(params, leaf, p, b))
        } else {
            node_hash_spec(params, root_from_path(params, leaf, p, b), s)
        }),
    decreases p.len(),
{
    if p.len() == 0 {
        let step0 = if top {
            node_hash_spec(params, s, leaf)
        } else {
            node_hash_spec(params, leaf, s)
        };
        assert(p.push(s)[0] == s);
        assert(b.push(top)[0] == top);
        assert(p.push(s).skip(1) =~= Seq::<Fr>::empty());
        assert(b.push(top).skip(1) =~= Seq::<bool>::empty());
        assert(root_from_path(params, step0, Seq::<Fr>::empty(), Seq::<bool>::empty()) == step0);
        assert(root_from_path(params, leaf, p.push(s), b.push(top)) == step0);
        assert(root_from_path(params, leaf, p, b) == leaf);
    } else {
        let step = if b[0] {
            node_hash_spec(params, p[0], leaf)
        } else {
            node_hash_spec(params, leaf, p[0])
        };
        assert(p.push(s)[0] == p[0]);
        assert(b.push(top)[0] == b[0]);
        assert(p.push(s).skip(1) =~= p.skip(1).push(s));
        assert(b.push(top).skip(1) =~= b.skip(1).push(top));
        assert(root_from_path(params, leaf, p.push(s), b.push(top)) == root_from_path(
            params,
            step,
            p.skip(1).push(s),
            b.skip(1).push(top),
        ));
        assert(root_from_path(params, leaf, p, b) == root_from_path(
            params,
            step,
            p.skip(1),
            b.skip(1),
        ));
        lemma_root_from_path_push(params, step, p.skip(1), b.skip(1), s, top);
    }
}

/// A position in the lower half of a block keeps its bits below the top one,
/// and the top bit is clear.
proof fn lemma_bits_split_low(pos: nat, depth: nat)
    requires
        depth >= 1,
        pos < pow2((depth - 1) as nat),
    ensures
        bits_of(pos, depth) == bits_of(pos, (depth - 1) as nat).push(false),
{
    lemma_pow2_pos((depth - 1) as nat);
    assert forall|k: int| 0 <= k < depth implies bits_of(pos, depth)[k] == bits_of(
        pos,
        (depth - 1) as nat,
    ).push(false)[k] by {
        if k == depth - 1 {
            lemma_basic_div(pos as int, pow2((depth - 1) as nat) as int);
        }
    };
    assert(bits_of(pos, depth) =~= bits_of(pos, (depth - 1) as nat).push(false));
}

/// A position in the upper half of a block carries the lower half's bits of
/// its offset, and the top bit is set.
proof fn lemma_bits_split_high(pos: nat, depth: nat)
    requires
        depth >= 1,
        pow2((depth - 1) as nat) <= pos < pow2(depth),
    ensures
        bits_of(pos, depth) == bits_of(
            (pos - pow2((depth - 1) as nat)) as nat,
            (depth - 1) as nat,
        ).push(true),
{
    let half = pow2((depth - 1) as nat) as int;
    let rest = pos - half;
    lemma_pow2_pos((depth - 1) as nat);
    lemma_pow2_unfold(depth);
    assert forall|k: int| 0 <= k < depth implies bits_of(pos, depth)[k] == bits_of(
        rest as nat,
        (depth - 1) as nat,
    ).push(true)[k] by {
        if k < depth - 1 {
            let pk = pow2(k as nat) as int;
            let m = pow2((depth - 1 - k) as nat) as int;
            lemma_pow2_pos(k as nat);
            lemma_pow2_pos((depth - 1 - k) as nat);
            lemma_pow2_adds(k as nat, (depth - 1 - k) as nat);
            assert(half == pk * m);
            lemma_hoist_over_denominator(rest, m, pow2(k as nat));
            assert(pos as int / pk == rest / pk + m);
            lemma_pow2_unfold((depth - 1 - k) as nat);
            let mhalf = pow2((depth - 2 - k) as nat) as int;
            assert(m == 2 * mhalf);
            lemma_mod_multiples_vanish(mhalf, rest / pk, 2);
            assert((rest / pk + m) % 2 == (rest / pk) % 2);
        } else {
            lemma_basic_div(rest, half);
            lemma_hoist_over_denominator(rest, 1, pow2((depth - 1) as nat));
            assert(pos as int / half == 1);
        }
    };
    assert(bits_of(pos, depth) =~= bits_of(rest as nat, (depth - 1) as nat).push(true));
}

/// The authentication path of a leaf in a full block has one sibling per
/// level.
pub proof fn lemma_path_spec_len(
    params: Bn256PoseidonParams,
    leaves: Seq<Account>,
    pos: nat,
    depth: nat,
)
    requires
        leaves.len() == pow2(depth),
    ensures
        path_spec(params, leaves, pos).len() == depth,
    decreases depth,
{
    lemma2_to64();
    if depth > 0 {
        lemma_pow2_unfold(depth);
        lemma_pow2_pos((depth - 1) as nat);
        let half = leaves.len() as int / 2;
        if pos < half {
            lemma_path_spec_len(params, leaves.take(half), pos, (depth - 1) as nat);
        } else {
            lemma_path_spec_len(params, leaves.skip(half), (pos - half) as nat, (depth - 1) as nat);
        }
    }
}

/// Law: a leaf's authentication path and index bits recompute exactly the
/// root of the block the leaf lies in — what the in-circuit old-root check
/// and the off-chain tree agree on.
pub proof fn lemma_path_authenticates(
    params: Bn256PoseidonParams,
    leaves: Seq<Account>,
    pos: nat,
    depth: nat,
)
    requires
        leaves.len() == pow2(depth),
        pos < pow2(depth),
    ensures
        root_from_path(
            params,
            leaf_hash_spec(params, leaves[pos as int]),
            path_spec(params, leaves, pos),
            bits_of(pos, depth),
        ) == subtree_root_spec(params, leaves),
    decreases depth,
{
    lemma2_to64();
    if depth == 0 {
        assert(bits_of(pos, 0) =~= Seq::<bool>::empty());
    } else {
        lemma_pow2_unfold(depth);
        lemma_pow2_pos((depth - 1) as nat);
        let half = pow2((depth - 1) as nat) as int;
        let l = leaves.take(half);
        let r = leaves.skip(half);
        assert(leaves.len() as int / 2 == half);
        if pos < half {
            lemma_bits_split_low(pos, depth);
            lemma_path_authenticates(params, l, pos, (depth - 1) as nat);
            lemma_path_spec_len(params, l, pos, (depth - 1) as nat);
            assert(l[pos as int] == leaves[pos as int]);
            lemma_root_from_path_push(
                params,
                leaf_hash_spec(params, leaves[pos as int]),
                path_spec(params, l, pos),
                bits_of(pos, (depth - 1) as nat),
                subtree_root_spec(params, r),
                false,
            );
        } else {
            let rest = (pos - half) as nat;
            lemma_bits_split_high(pos, depth);
            lemma_path_authenticates(params, r, rest, (depth - 1) as nat);
            lemma_path_spec_len(params, r, rest, (depth - 1) as nat);
            assert(r[rest as int] == leaves[pos as int]);
            lemma_root_from_path_push(
                params,
                leaf_hash_spec(params, leaves[pos as int]),
                path_spec(params, r, rest),
                bits_of(rest, (depth - 1) as nat),
                subtree_root_spec(params, l),
                true,
            );
        }
    }
}

/// Law: replacing the leaf at a position leaves that position's own
/// authentication path unchanged — the path holds only siblings.
pub proof fn lemma_path_stable_under_update(
    params: Bn256PoseidonParams,
    leaves: Seq<Account>,
    pos: nat,
    depth: nat,
    a: Account,
)
    requires
        leaves.len() == pow2(depth),
        pos < pow2(depth),
    ensures
        path_spec(params, leaves.update(pos as int, a), pos) == path_spec(params, leaves, pos),
    decreases depth,
{
    lemma2_to64();
    if depth > 0 {
        lemma_pow2_unfold(depth);
        lemma_pow2_pos((depth - 1) as nat);
        let half = pow2((depth - 1) as nat) as int;
        let updated = leaves.update(pos as int, a);
        assert(updated.len() == leaves.len());
        assert(updated.len() as int / 2 == half);
        if pos < half {
            assert(updated.take(half) =~= leaves.take(half).update(pos as int, a));
            assert(updated.skip(half) =~= leaves.skip(half));
            lemma_path_stable_under_update(params, leaves.take(half), pos, (depth - 1) as nat, a);
        } else {
            let rest = (pos - half) as nat;
            assert(updated.skip(half) =~= leaves.skip(half).update(rest as int, a));
            assert(updated.take(half) =~= leaves.take(half));
            lemma_path_stable_under_update(params, leaves.skip(half), rest, (depth - 1) as nat, a);
        }
    }
}

/// Collects the authentication path of the leaf at `start + pos` inside the
/// subtree over `pow2(depth)` accounts starting at `start`.
pub fn subtree_leaf_path(
    params: &Bn256PoseidonParams,
    accounts: &Vec<Account>,
    start: usize,
    depth: usize,
    pos: usize,
) -> (r: Vec<Fr>)
    requires
        poseidon_wf(*params),
        pow2(depth as nat) <= usize::MAX,
        start + pow2(depth as nat) <= accounts@.len(),
        pos < pow2(depth as nat),
    ensures
        r@ == path_spec(
            *params,
            accounts@.subrange(start as int, start as int + pow2(depth as nat)),
            pos as nat,
        ),
    decreases depth,
{
    let _len: usize = accounts.len();
    proof {
        vstd::arithmetic::power2::lemma2_to64();
    }
    if depth == 0 {
        let r: Vec<Fr> = Vec::new();
        proof {
            assert(accounts@.subrange(start as int, start as int + 1).len() == 1);
        }
        r
    } else {
        proof {
            lemma_pow2_unfold(depth as nat);
        }
        let half = pow2_exec(depth - 1);
        let ghost s = accounts@.subrange(start as int, start as int + pow2(depth as nat));
        let ghost m = pow2((depth - 1) as nat) as int;
        proof {
            assert(s.len() as int / 2 == m);
            assert(s.take(m) =~= accounts@.subrange(start as int, start as int + m));
            assert(s.skip(m) =~= accounts@.subrange(
                start as int + m,
                start as int + pow2(depth as nat),
            ));
        }
        if pos < half {
            let mut r = subtree_leaf_path(params, accounts, start, depth - 1, pos);
            let sib = subtree_hash(params, accounts, start + half, depth - 1);
            r.push(sib);
            r
        } else {
            let mut r = subtree_leaf_path(params, accounts, start + half, depth - 1, pos - half);
            let sib = subtree_hash(params, accounts, start, depth - 1);
            r.push(sib);
            r
        }
    }
}

} // verus!
