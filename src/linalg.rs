use vstd::prelude::*;

verus! {

/// Row `i` of the upper-inclusive triangle of an `n x n` index grid:
/// the pairs `(i, j)` for `j` from `i` up to `n - 1`, in increasing `j`.
pub open spec fn tril_row(i: nat, n: nat) -> Seq<(usize, usize)> {
    Seq::new((n - i) as nat, |d: int| (i as usize, (i + d) as usize))
}

/// The first `m` rows of the triangle, row after row.
pub open spec fn tril_rows(m: nat, n: nat) -> Seq<(usize, usize)>
    decreases m,
{
    if m == 0 {
        Seq::empty()
    } else {
        tril_rows((m - 1) as nat, n) + tril_row((m - 1) as nat, n)
    }
}

/// All index pairs `(i, j)` with `i <= j < n`, ordered by `i` and then by `j`.
pub fn tril_indices_from(n: usize) -> (r: Vec<(usize, usize)>)
    ensures
        r@ == tril_rows(n as nat, n as nat),
{
    let mut r: Vec<(usize, usize)> = Vec::new();
    let mut i: usize = 0;
    while i < n
        invariant
            i <= n,
            r@ == tril_rows(i as nat, n as nat),
        decreases n - i,
    {
        let ghost start = r@;
        let mut j: usize = i;
        while j < n
            invariant
                i <= j <= n,
                i < n,
                start == tril_rows(i as nat, n as nat),
                r@ == start + tril_row(i as nat, n as nat).take(j - i),
            decreases n - j,
        {
            r.push((i, j));
            proof {
                assert(tril_row(i as nat, n as nat).take(j + 1 - i) =~= tril_row(
                    i as nat,
                    n as nat,
                ).take(j - i).push((i, j)));
            }
            j = j + 1;
        }
        proof {
            assert(tril_row(i as nat, n as nat).take(n - i) =~= tril_row(i as nat, n as nat));
            assert(tril_rows((i + 1) as nat, n as nat) == tril_rows(i as nat, n as nat) + tril_row(
                i as nat,
                n as nat,
            ));
        }
        i = i + 1;
    }
    r
}

proof fn lemma_tril_rows_members(m: nat, n: nat, i: usize, j: usize)
    requires
        m <= n,
        n <= usize::MAX + 1,
    ensures
        tril_rows(m, n).contains((i, j)) <==> (i < m && i <= j && j < n),
    decreases m,
{
    if m > 0 {
        let prev = tril_rows((m - 1) as nat, n);
        let row = tril_row((m - 1) as nat, n);
        lemma_tril_rows_members((m - 1) as nat, n, i, j);
        let all = prev + row;
        if all.contains((i, j)) {
            let k = choose|k: int| 0 <= k < all.len() && all[k] == (i, j);
            if k >= prev.len() {
                assert(row[k - prev.len()] == (i, j));
            } else {
                assert(prev[k] == (i, j));
            }
        }
        if i < m && i <= j && j < n {
            if i < m - 1 {
                let k = choose|k: int| 0 <= k < prev.len() && prev[k] == (i, j);
                assert(all[k] == (i, j));
            } else {
                let d = j - i;
                assert(row[d] == (i, j));
                assert(all[prev.len() + d] == (i, j));
            }
        }
    }
}

/// A pair occurs among the triangle's indices exactly when `i <= j < n`.
pub proof fn lemma_tril_indices_members(n: usize, i: usize, j: usize)
    ensures
        tril_rows(n as nat, n as nat).contains((i, j)) <==> (i <= j && j < n),
{
    lemma_tril_rows_members(n as nat, n as nat, i, j);
}

} // verus!
