//! Normalized, case-tolerant string similarity used to decide whether two
//! recognition results are noisy readings of the same line of text.
//!
//! Two texts count as similar when their edit distance, taken over their
//! UTF-8 bytes after ASCII case folding, is at most a fifth of the longer
//! byte length; that is, when the normalized similarity
//! `1 - distance / max_len` is at least `0.8`.

use vstd::prelude::*;

verus! {

use vstd::string::StringSliceAdditionalSpecFns;

/// ASCII uppercase letters fold to lowercase before texts are compared, so
/// recognition jitter in letter case does not count as a difference.
pub open spec fn fold_byte(b: u8) -> u8 {
    if 65 <= b <= 90 {
        (b + 32) as u8
    } else {
        b
    }
}

pub open spec fn fold_bytes(s: Seq<u8>) -> Seq<u8> {
    s.map_values(|b: u8| fold_byte(b))
}

/// Edit distance between two byte strings: the least number of single-byte
/// insertions, deletions and substitutions turning one into the other,
/// given here by the textbook recurrence on the last byte of each.
pub open spec fn edit_distance(a: Seq<u8>, b: Seq<u8>) -> nat
    decreases a.len(), b.len(),
{
    if a.len() == 0 {
        b.len()
    } else if b.len() == 0 {
        a.len()
    } else {
        let tail_cost: nat = if a.last() == b.last() {
            0
        } else {
            1
        };
        min3(
            edit_distance(a.drop_last(), b) + 1,
            edit_distance(a, b.drop_last()) + 1,
            edit_distance(a.drop_last(), b.drop_last()) + tail_cost,
        )
    }
}

pub open spec fn min3(x: nat, y: nat, z: nat) -> nat {
    if x <= y && x <= z {
        x
    } else if y <= z {
        y
    } else {
        z
    }
}

/// The similarity decision over mathematical text values: the folded edit
/// distance is at most 20% of the longer UTF-8 byte length.  Two empty
/// texts are similar (distance 0 within length 0).
pub open spec fn similar(a: Seq<char>, b: Seq<char>) -> bool {
    let ab = vstd::utf8::encode_utf8(a);
    let bb = vstd::utf8::encode_utf8(b);
    5 * edit_distance(fold_bytes(ab), fold_bytes(bb)) <= vstd::math::max(
        ab.len() as int,
        bb.len() as int,
    )
}

/// The edit distance never exceeds the longer input's length: the shorter
/// input can be substituted byte for byte and the overhang deleted.
pub proof fn lemma_edit_distance_le_max(a: Seq<u8>, b: Seq<u8>)
    ensures
        edit_distance(a, b) <= vstd::math::max(a.len() as int, b.len() as int),
    decreases a.len(), b.len(),
{
    if a.len() == 0 || b.len() == 0 {
    } else {
        lemma_edit_distance_le_max(a.drop_last(), b.drop_last());
    }
}

fn fold_byte_exec(b: u8) -> (r: u8)
    ensures
        r == fold_byte(b),
{
    if 65 <= b && b <= 90 {
        b + 32
    } else {
        b
    }
}

/// The UTF-8 bytes of `s` with ASCII letters folded to lowercase.
fn folded_bytes(s: &str) -> (r: Vec<u8>)
    ensures
        r@ == fold_bytes(s.spec_bytes()),
{
    let bytes = s.as_bytes();
    let mut out: Vec<u8> = Vec::new();
    for i in 0..bytes.len()
        invariant
            out@.len() == i,
            forall|k: int| 0 <= k < i ==> out@[k] == fold_byte(bytes@[k]),
            bytes@ == s.spec_bytes(),
    {
        out.push(fold_byte_exec(bytes[i]));
    }
    proof {
        assert(out@ =~= fold_bytes(s.spec_bytes()));
    }
    out
}

/// `min(x + 1, cap)`, computed without overflowing `x + 1`.
fn min_inc(x: usize, cap: usize) -> (r: usize)
    ensures
        r == vstd::math::min(x + 1, cap as int),
{
    if x >= cap {
        cap
    } else {
        x + 1
    }
}

/// Edit distance by dynamic programming over rows of prefix distances.
fn levenshtein(a: &Vec<u8>, b: &Vec<u8>) -> (d: usize)
    ensures
        d == edit_distance(a@, b@),
{
    let m = a.len();
    let n = b.len();
    let mut prev: Vec<usize> = Vec::new();
    prev.push(0);
    proof {
        assert(a@.take(0).len() == 0);
        assert(b@.take(0).len() == 0);
    }
    for j in 0..n
        invariant
            prev@.len() == j + 1,
            forall|k: int| 0 <= k <= j ==> prev@[k] == edit_distance(a@.take(0), b@.take(k)),
            n == b@.len(),
    {
        proof {
            assert(a@.take(0).len() == 0);
            assert(b@.take(j + 1).len() == j + 1);
        }
        prev.push(j + 1);
    }
    for i in 0..m
        invariant
            prev@.len() == n + 1,
            forall|k: int| 0 <= k <= n ==> prev@[k] == edit_distance(a@.take(i as int), b@.take(k)),
            m == a@.len(),
            n == b@.len(),
    {
        let row = i + 1;
        let mut cur: Vec<usize> = Vec::new();
        proof {
            assert(a@.take(row as int).len() == row);
            assert(b@.take(0).len() == 0);
        }
        cur.push(row);
        for j in 0..n
            invariant
                row == i + 1,
                i < m,
                cur@.len() == j + 1,
                forall|k: int| 0 <= k <= j ==> cur@[k] == edit_distance(
                    a@.take(row as int),
                    b@.take(k),
                ),
                prev@.len() == n + 1,
                forall|k: int| 0 <= k <= n ==> prev@[k] == edit_distance(
                    a@.take(i as int),
                    b@.take(k),
                ),
                m == a@.len(),
                n == b@.len(),
        {
            let col = j + 1;
            let tail_cost: usize = if a[i] == b[j] {
                0
            } else {
                1
            };
            proof {
                lemma_edit_distance_le_max(a@.take(i as int), b@.take(j as int));
                assert(b@.take(j as int).len() == j);
                assert(a@.take(i as int).len() == i);
            }
            let diag = prev[j] + tail_cost;
            let d_ij = min_inc(prev[col], min_inc(cur[j], diag));
            proof {
                let ap = a@.take(row as int);
                let bp = b@.take(col as int);
                assert(ap.last() == a@[i as int]);
                assert(bp.last() == b@[j as int]);
                assert(ap.drop_last() =~= a@.take(i as int));
                assert(bp.drop_last() =~= b@.take(j as int));
                assert(edit_distance(ap, bp) == min3(
                    edit_distance(a@.take(i as int), b@.take(col as int)) + 1,
                    edit_distance(a@.take(row as int), b@.take(j as int)) + 1,
                    edit_distance(a@.take(i as int), b@.take(j as int)) + (
                    if a@[i as int] == b@[j as int] {
                        0nat
                    } else {
                        1nat
                    }),
                ));
            }
            cur.push(d_ij);
        }
        prev = cur;
    }
    proof {
        assert(a@.take(m as int) =~= a@);
        assert(b@.take(n as int) =~= b@);
    }
    prev[n]
}

/// Whether two texts are noisy readings of the same line: their folded edit
/// distance is at most 20% of the longer UTF-8 byte length.
pub fn is_similar(a: &str, b: &str) -> (r: bool)
    ensures
        r == similar(a@, b@),
{
    let fa = folded_bytes(a);
    let fb = folded_bytes(b);
    let d = levenshtein(&fa, &fb);
    let longer = if fa.len() >= fb.len() {
        fa.len()
    } else {
        fb.len()
    };
    proof {
        assert(fa@.len() == a.spec_bytes().len());
        assert(fb@.len() == b.spec_bytes().len());
    }
    5u128 * (d as u128) <= longer as u128
}

} // verus!
