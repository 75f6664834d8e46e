use vstd::multiset::Multiset;
use vstd::prelude::*;

verus! {

broadcast use vstd::seq_lib::group_to_multiset_ensures, vstd::multiset::group_multiset_axioms,
    vstd::multiset::group_multiset_properties;

/// The number of characters that `a` and `b` have in common, each counted as often
/// as it occurs in both.
pub open spec fn shared_count(a: Seq<char>, b: Seq<char>) -> nat {
    a.to_multiset().intersection_with(b.to_multiset()).len()
}

/// Whether the character cosine similarity of `a` and `b` is above `pct` percent.
/// The similarity is the shared count over the square root of the product of the
/// lengths: 1 for two empty strings, 0 when only one is empty.
pub open spec fn cosine_exceeds(a: Seq<char>, b: Seq<char>, pct: int) -> bool {
    if a.len() == 0 && b.len() == 0 {
        100 > pct
    } else if a.len() == 0 || b.len() == 0 {
        0 > pct
    } else {
        10000 * shared_count(a, b) * shared_count(a, b) > pct * pct * a.len() * b.len()
    }
}

proof fn lemma_shared_step(m: Multiset<char>, bm: Multiset<char>, c: char)
    ensures
        bm.count(c) > m.count(c) ==> m.insert(c).intersection_with(bm) =~= m.intersection_with(
            bm,
        ).insert(c),
        bm.count(c) <= m.count(c) ==> m.insert(c).intersection_with(bm) =~= m.intersection_with(
            bm,
        ),
{
}

/// The number of characters that `a` and `b` have in common.
pub fn shared_count_exec(a: &Vec<char>, b: &Vec<char>) -> (r: usize)
    ensures
        r == shared_count(a@, b@),
        r <= a.len(),
        r <= b.len(),
{
    let ghost bm = b@.to_multiset();
    let mut pool: Vec<char> = b.clone();
    let mut count: usize = 0;
    let mut i: usize = 0;
    assert(a@.take(0) =~= seq![]);
    assert(a@.take(0).to_multiset() =~= Multiset::empty());
    assert(a@.take(0).to_multiset().intersection_with(bm) =~= Multiset::empty());
    while i < a.len()
        invariant
            i <= a.len(),
            bm == b@.to_multiset(),
            count == a@.take(i as int).to_multiset().intersection_with(bm).len(),
            count <= i,
            count + pool.len() == b.len(),
            forall|x: char|
                #![trigger pool@.to_multiset().count(x)]
                pool@.to_multiset().count(x) == bm.count(x) - a@.take(i as int).to_multiset().intersection_with(bm).count(x),
        decreases a.len() - i,
    {
        let c = a[i];
        let ghost m = a@.take(i as int).to_multiset();
        assert(a@.take(i + 1) =~= a@.take(i as int).push(c));
        proof {
            vstd::seq_lib::to_multiset_build(a@.take(i as int), c);
            lemma_shared_step(m, bm, c);
        }
        let mut j: usize = 0;
        while j < pool.len() && pool[j] != c
            invariant
                j <= pool.len(),
                forall|k: int| 0 <= k < j ==> pool@[k] != c,
            decreases pool.len() - j,
        {
            j += 1;
        }
        if j < pool.len() {
            proof {
                assert(pool@.to_multiset().count(c) > 0) by {
                    assert(pool@.contains(c));
                }
            }
            let ghost before = pool@;
            pool.remove(j);
            proof {
                vstd::seq_lib::to_multiset_remove(before, j as int);
            }
            count += 1;
        } else {
            proof {
                assert(!pool@.contains(c));
                assert(pool@.to_multiset().count(c) == 0);
            }
        }
        i += 1;
    }
    assert(a@.take(i as int) =~= a@);
    proof {
        vstd::seq_lib::to_multiset_len(b@);
    }
    count
}

/// Whether `x * l > y * r`, computed without overflow.
fn scaled_gt(l: u128, x: u128, r: u128, y: u128) -> (g: bool)
    requires
        0 < x <= 10000,
        y <= 10000,
    ensures
        g == (x * l > y * r),
{
    if y == 0 {
        assert(x * l > 0 <==> l > 0) by (nonlinear_arith)
            requires
                x > 0,
        ;
        return l > 0;
    }
    proof {
        vstd::arithmetic::div_mod::lemma_fundamental_div_mod(l as int, y as int);
        vstd::arithmetic::div_mod::lemma_fundamental_div_mod(r as int, x as int);
    }
    let ql = l / y;
    let rl = l % y;
    let qr = r / x;
    let rr = r % x;
    assert(x * l == x * y * ql + x * rl) by (nonlinear_arith)
        requires
            l == y * ql + rl,
    ;
    assert(y * r == x * y * qr + y * rr) by (nonlinear_arith)
        requires
            r == x * qr + rr,
    ;
    assert(x * rl < x * y && y * rr < x * y) by (nonlinear_arith)
        requires
            rl < y,
            rr < x,
            0 < x,
            0 < y,
    ;
    if ql != qr {
        assert(ql > qr ==> x * y * ql >= x * y * qr + x * y) by (nonlinear_arith)
            requires
                0 < x,
                0 < y,
        ;
        assert(ql < qr ==> x * y * qr >= x * y * ql + x * y) by (nonlinear_arith)
            requires
                0 < x,
                0 < y,
        ;
        ql > qr
    } else {
        assert(x * rl <= 10000 * 10000 && y * rr <= 10000 * 10000) by (nonlinear_arith)
            requires
                rl < y,
                rr < x,
                x <= 10000,
                y <= 10000,
        ;
        x * rl > y * rr
    }
}

/// Whether the character cosine similarity of `a` and `b` is above `pct` percent.
pub fn cosine_exceeds_exec(a: &Vec<char>, b: &Vec<char>, pct: u32) -> (r: bool)
    requires
        pct <= 100,
    ensures
        r == cosine_exceeds(a@, b@, pct as int),
{
    if a.len() == 0 && b.len() == 0 {
        return 100 > pct;
    }
    if a.len() == 0 || b.len() == 0 {
        return false;
    }
    let n = shared_count_exec(a, b);
    let n1 = a.len() as u128;
    let n2 = b.len() as u128;
    let s = n as u128;
    assert(s * s <= n1 * n2) by (nonlinear_arith)
        requires
            s <= n1,
            s <= n2,
    ;
    assert(n1 * n2 <= u64::MAX * u64::MAX) by (nonlinear_arith)
        requires
            n1 <= u64::MAX,
            n2 <= u64::MAX,
    ;
    assert(pct * pct <= 10000) by (nonlinear_arith)
        requires
            pct <= 100,
    ;
    let q = (pct * pct) as u128;
    let g = scaled_gt(s * s, 10000, n1 * n2, q);
    assert(10000 * (s * s) == 10000 * n * n) by (nonlinear_arith)
        requires
            s == n,
    ;
    assert(q * (n1 * n2) == pct * pct * a.len() * b.len()) by (nonlinear_arith)
        requires
            q == pct * pct,
            n1 == a.len(),
            n2 == b.len(),
    ;
    g
}

} // verus!
