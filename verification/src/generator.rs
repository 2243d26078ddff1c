//! The combination generator: the full cartesian product of the wordlists,
//! in odometer order.
//!
//! The order is part of the contract: the last wordlist's values vary
//! fastest and the first wordlist's values vary slowest, so the product is
//! enumerated like the digit wheels of an odometer. [`combos_from`] states
//! that order exactly: the combinations that extend `current` are grouped by
//! the value chosen from wordlist `from` — values in their input order —
//! and within one group the remaining wordlists enumerate recursively.

use crate::wordlist::Wordlist;
use vstd::prelude::*;

verus! {

/// One wordlist as the specification sees it: a name and its values.
pub type SpecWordlist = (Seq<char>, Seq<Seq<char>>);

/// One chosen `(name, value)` pair.
pub type SpecPair = (Seq<char>, Seq<char>);

/// All combinations that extend `current` with one value from each of the
/// wordlists `ps[from..]`, in odometer order.
pub open spec fn combos_from(ps: Seq<SpecWordlist>, from: int, current: Seq<SpecPair>) -> Seq<
    Seq<SpecPair>,
>
    decreases ps.len() - from, ps[from].1.len() + 1,
{
    if from < 0 || from >= ps.len() {
        seq![current]
    } else {
        combos_vals(ps, from, 0, current)
    }
}

/// The combinations of [`combos_from`] whose value for wordlist `from` is
/// drawn from `ps[from].1[vi..]`: one block per remaining value, in value
/// order.
pub open spec fn combos_vals(ps: Seq<SpecWordlist>, from: int, vi: int, current: Seq<SpecPair>) -> Seq<
    Seq<SpecPair>,
>
    decreases ps.len() - from, ps[from].1.len() - vi,
{
    if from < 0 || from >= ps.len() || vi < 0 || vi >= ps[from].1.len() {
        seq![]
    } else {
        combos_from(ps, from + 1, current.push((ps[from].0, ps[from].1[vi]))) + combos_vals(
            ps,
            from,
            vi + 1,
            current,
        )
    }
}

/// The product of the sizes of the wordlists `ps[from..]`.
pub open spec fn product_of_sizes(ps: Seq<SpecWordlist>, from: int) -> nat
    decreases ps.len() - from,
{
    if from < 0 || from >= ps.len() {
        1
    } else {
        ps[from].1.len() * product_of_sizes(ps, from + 1)
    }
}

/// Copies a parameter set; the copy holds the same pairs.
fn clone_pairs(v: &Vec<(String, String)>) -> (r: Vec<(String, String)>)
    ensures
        r@ == v@,
{
    let mut r: Vec<(String, String)> = Vec::new();
    let n = v.len();
    let mut i: usize = 0;
    while i < n
        invariant
            n == v@.len(),
            i <= n,
            r@ =~= v@.take(i as int),
        decreases n - i,
    {
        r.push((v[i].0.clone(), v[i].1.clone()));
        i = i + 1;
    }
    proof {
        assert(r@ =~= v@);
    }
    r
}

/// The full cartesian product of the wordlists `params[index..]`, each
/// combination extending `current`, in odometer order.
pub fn param_combination(
    params: Vec<(String, Vec<String>)>,
    index: usize,
    current: Vec<(String, String)>,
) -> (r: Vec<Vec<(String, String)>>)
    requires
        index <= params@.len(),
    ensures
        r.deep_view() == combos_from(params.deep_view(), index as int, current.deep_view()),
{
    product_from(&params, index, current)
}

fn product_from(
    params: &Vec<(String, Vec<String>)>,
    index: usize,
    current: Vec<(String, String)>,
) -> (r: Vec<Vec<(String, String)>>)
    requires
        index <= params@.len(),
    ensures
        r.deep_view() == combos_from(params.deep_view(), index as int, current.deep_view()),
    decreases params@.len() - index,
{
    let ghost ps = params.deep_view();
    let plen = params.len();
    if index == plen {
        let ghost cur = current.deep_view();
        let mut out: Vec<Vec<(String, String)>> = Vec::new();
        out.push(current);
        proof {
            assert(out.deep_view() =~= seq![cur]);
        }
        return out;
    }
    let ghost cur = current.deep_view();
    let mut out: Vec<Vec<(String, String)>> = Vec::new();
    let m = params[index].1.len();
    let mut vi: usize = 0;
    proof {
        assert(out.deep_view() + combos_vals(ps, index as int, 0, cur) =~= combos_from(
            ps,
            index as int,
            cur,
        ));
    }
    while vi < m
        invariant
            plen == params@.len(),
            index < plen,
            ps == params.deep_view(),
            cur == current.deep_view(),
            m == params@[index as int].1@.len(),
            vi <= m,
            out.deep_view() + combos_vals(ps, index as int, vi as int, cur) == combos_from(
                ps,
                index as int,
                cur,
            ),
        decreases m - vi,
    {
        let ghost out_before = out.deep_view();
        let mut next = clone_pairs(&current);
        next.push((params[index].0.clone(), params[index].1[vi].clone()));
        proof {
            assert(next.deep_view() =~= cur.push((ps[index as int].0, ps[index as int].1[vi as int])));
        }
        let mut sub = product_from(params, index + 1, next);
        proof {
            assert(combos_vals(ps, index as int, vi as int, cur) == sub.deep_view() + combos_vals(
                ps,
                index as int,
                vi as int + 1,
                cur,
            ));
        }
        let ghost sub_view = sub.deep_view();
        out.append(&mut sub);
        proof {
            assert(out.deep_view() =~= out_before + sub_view);
            assert((out_before + sub_view) + combos_vals(ps, index as int, vi as int + 1, cur)
                =~= out_before + (sub_view + combos_vals(ps, index as int, vi as int + 1, cur)));
        }
        vi = vi + 1;
    }
    proof {
        assert(combos_vals(ps, index as int, m as int, cur) =~= Seq::<Seq<SpecPair>>::empty());
        assert(out.deep_view() + Seq::<Seq<SpecPair>>::empty() =~= out.deep_view());
    }
    out
}

/// Chooses what drives generation: literal parameters, when given, take
/// precedence and form the single parameter set; otherwise the wordlists'
/// full cartesian product; with neither, one empty parameter set, which
/// stands for the single bare request.
pub fn plan_param_sets(literal: Option<Vec<(String, String)>>, lists: Option<Wordlist>) -> (r: Vec<
    Vec<(String, String)>,
>)
    ensures
        literal matches Some(p) ==> r.deep_view() == seq![p.deep_view()],
        literal is None ==> (match lists {
            Some(w) => r.deep_view() == combos_from(
                w.data.deep_view(),
                0,
                Seq::<SpecPair>::empty(),
            ),
            None => r.deep_view() == seq![Seq::<SpecPair>::empty()],
        }),
{
    if literal.is_some() {
        let p = literal.unwrap();
        let ghost pv = p.deep_view();
        let mut r: Vec<Vec<(String, String)>> = Vec::new();
        r.push(p);
        proof {
            assert(r.deep_view() =~~= seq![pv]);
        }
        r
    } else if lists.is_some() {
        let w = lists.unwrap();
        let empty: Vec<(String, String)> = Vec::new();
        proof {
            assert(empty.deep_view() =~= Seq::<SpecPair>::empty());
        }
        param_combination(w.data, 0, empty)
    } else {
        let mut r: Vec<Vec<(String, String)>> = Vec::new();
        r.push(Vec::new());
        proof {
            assert(r.deep_view() =~~= seq![Seq::<SpecPair>::empty()]);
        }
        r
    }
}

/// The number of combinations the generator owes: exactly the product of
/// the wordlist sizes (so one combination when no wordlists remain, and
/// none as soon as one wordlist is empty).
pub proof fn lemma_combination_count(ps: Seq<SpecWordlist>, from: int, current: Seq<SpecPair>)
    requires
        0 <= from <= ps.len(),
    ensures
        combos_from(ps, from, current).len() == product_of_sizes(ps, from),
    decreases ps.len() - from, ps[from].1.len() + 1,
{
    if from < ps.len() {
        lemma_vals_count(ps, from, 0, current);
    }
}

proof fn lemma_vals_count(ps: Seq<SpecWordlist>, from: int, vi: int, current: Seq<SpecPair>)
    requires
        0 <= from < ps.len(),
        0 <= vi <= ps[from].1.len(),
    ensures
        combos_vals(ps, from, vi, current).len() == (ps[from].1.len() - vi) * product_of_sizes(
            ps,
            from + 1,
        ),
    decreases ps.len() - from, ps[from].1.len() - vi,
{
    let k = ps[from].1.len() - vi;
    let p = product_of_sizes(ps, from + 1) as int;
    if vi < ps[from].1.len() {
        lemma_combination_count(ps, from + 1, current.push((ps[from].0, ps[from].1[vi])));
        lemma_vals_count(ps, from, vi + 1, current);
        assert(k * p == p + (k - 1) * p) by (nonlinear_arith);
        assert(combos_vals(ps, from, vi, current).len() == p + (k - 1) * p);
    } else {
        assert(k == 0);
        assert(k * p == 0) by (nonlinear_arith)
            requires
                k == 0,
        ;
    }
}

/// The product of the sizes is zero exactly when one of the wordlists
/// `ps[from..]` has no values at all.
pub proof fn lemma_product_zero(ps: Seq<SpecWordlist>, from: int)
    requires
        0 <= from <= ps.len(),
    ensures
        (product_of_sizes(ps, from) == 0) <==> (exists|i: int|
            from <= i < ps.len() && (#[trigger] ps[i].1.len()) == 0),
    decreases ps.len() - from,
{
    if from < ps.len() {
        lemma_product_zero(ps, from + 1);
        let k = ps[from].1.len() as int;
        let p = product_of_sizes(ps, from + 1) as int;
        if k == 0 {
            assert(ps[from].1.len() == 0);
        } else if p == 0 {
            assert(k * p == 0) by (nonlinear_arith)
                requires
                    p == 0,
            ;
        } else {
            assert(k * p != 0) by (nonlinear_arith)
                requires
                    k > 0 && p > 0,
            ;
        }
    }
}

/// With no wordlists at all the generator produces exactly one parameter
/// set: the empty one, which stands for the single bare request.
pub proof fn lemma_no_wordlists(ps: Seq<SpecWordlist>, current: Seq<SpecPair>)
    requires
        ps.len() == 0,
    ensures
        combos_from(ps, 0, current) == seq![current],
        combos_from(ps, 0, current).len() == 1,
{
}

/// The combination at position `i` of the odometer enumeration of
/// `ps[from..]`: wordlist `from` contributes its value number
/// `i / product_of_sizes(ps, from + 1)` — so it advances only when every
/// later wordlist has wrapped around — and the later wordlists share the
/// remainder.
pub open spec fn combo_at(ps: Seq<SpecWordlist>, from: int, i: int) -> Seq<SpecPair>
    decreases ps.len() - from,
{
    if from < 0 || from >= ps.len() {
        seq![]
    } else {
        let block = product_of_sizes(ps, from + 1) as int;
        seq![(ps[from].0, ps[from].1[i / block])] + combo_at(ps, from + 1, i % block)
    }
}

/// Odometer order, stated for every position: the `i`-th generated
/// combination extends `current` with exactly [`combo_at`]`(ps, from, i)`,
/// so the last wordlist's values vary fastest and the first wordlist's
/// values vary slowest.
pub proof fn lemma_odometer_order(
    ps: Seq<SpecWordlist>,
    from: int,
    current: Seq<SpecPair>,
    i: int,
)
    requires
        0 <= from <= ps.len(),
        0 <= i < product_of_sizes(ps, from),
    ensures
        combos_from(ps, from, current)[i] == current + combo_at(ps, from, i),
    decreases ps.len() - from, ps[from].1.len() + 1,
{
    if from == ps.len() {
        assert(current + combo_at(ps, from, i) =~= current);
    } else {
        lemma_odometer_vals(ps, from, 0, current, i);
        let p = product_of_sizes(ps, from + 1) as int;
        assert(current + seq![(ps[from].0, ps[from].1[i / p])] + combo_at(ps, from + 1, i % p)
            =~= current + combo_at(ps, from, i));
    }
}

proof fn lemma_odometer_vals(
    ps: Seq<SpecWordlist>,
    from: int,
    vi: int,
    current: Seq<SpecPair>,
    i: int,
)
    requires
        0 <= from < ps.len(),
        0 <= vi <= ps[from].1.len(),
        0 <= i < (ps[from].1.len() - vi) * product_of_sizes(ps, from + 1),
    ensures
        combos_vals(ps, from, vi, current)[i] == current + seq![
            (ps[from].0, ps[from].1[vi + i / (product_of_sizes(ps, from + 1) as int)]),
        ] + combo_at(ps, from + 1, i % (product_of_sizes(ps, from + 1) as int)),
    decreases ps.len() - from, ps[from].1.len() - vi,
{
    let n = ps[from].1.len() as int;
    let p = product_of_sizes(ps, from + 1) as int;
    assert(p > 0) by {
        if p == 0 {
            assert((n - vi) * p == 0) by (nonlinear_arith)
                requires
                    p == 0,
            ;
        }
    }
    assert(vi < n) by {
        if vi == n {
            assert((n - vi) * p == 0) by (nonlinear_arith)
                requires
                    vi == n,
            ;
        }
    }
    let pair = (ps[from].0, ps[from].1[vi]);
    let head = combos_from(ps, from + 1, current.push(pair));
    lemma_combination_count(ps, from + 1, current.push(pair));
    if i < p {
        assert(i / p == 0 && i % p == i) by (nonlinear_arith)
            requires
                0 <= i < p,
        ;
        lemma_odometer_order(ps, from + 1, current.push(pair), i);
        assert(combos_vals(ps, from, vi, current)[i] == head[i]);
        assert(current.push(pair) =~= current + seq![pair]);
        assert((current + seq![pair]) + combo_at(ps, from + 1, i) =~= current + seq![pair]
            + combo_at(ps, from + 1, i));
    } else {
        assert(0 <= i - p < (n - vi - 1) * p) by (nonlinear_arith)
            requires
                p <= i < (n - vi) * p,
        ;
        lemma_odometer_vals(ps, from, vi + 1, current, i - p);
        lemma_vals_count(ps, from, vi + 1, current);
        assert(combos_vals(ps, from, vi, current) == head + combos_vals(ps, from, vi + 1, current));
        assert(head.len() == p);
        assert(combos_vals(ps, from, vi, current)[i] == combos_vals(ps, from, vi + 1, current)[i
            - p]);
        assert((i - p) / p == i / p - 1 && (i - p) % p == i % p) by (nonlinear_arith)
            requires
                p > 0 && i >= p,
        ;
        assert(vi + 1 + (i - p) / p == vi + i / p);
    }
}

proof fn lemma_combo_at_shape(ps: Seq<SpecWordlist>, from: int, i: int)
    requires
        0 <= from <= ps.len(),
    ensures
        combo_at(ps, from, i).len() == ps.len() - from,
        forall|j: int|
            0 <= j < ps.len() - from ==> (#[trigger] combo_at(ps, from, i)[j]).0 == ps[from + j].0,
    decreases ps.len() - from,
{
    if from < ps.len() {
        let block = product_of_sizes(ps, from + 1) as int;
        lemma_combo_at_shape(ps, from + 1, i % block);
    }
}

/// Every generated parameter set has exactly one entry per wordlist, and
/// the names stand in the order the wordlists were supplied.
pub proof fn lemma_parameter_set_shape(ps: Seq<SpecWordlist>, i: int)
    requires
        0 <= i < product_of_sizes(ps, 0),
    ensures
        combos_from(ps, 0, Seq::<SpecPair>::empty())[i].len() == ps.len(),
        forall|j: int|
            0 <= j < ps.len() ==> (#[trigger] combos_from(ps, 0, Seq::<SpecPair>::empty())[i][j]).0
                == ps[j].0,
{
    lemma_odometer_order(ps, 0, Seq::<SpecPair>::empty(), i);
    lemma_combo_at_shape(ps, 0, i);
    assert(Seq::<SpecPair>::empty() + combo_at(ps, 0, i) =~= combo_at(ps, 0, i));
}

/// Generation is a function of the wordlists alone: two runs over identical
/// input enumerate the identical combination sequence, in the same order
/// and with the same count.
pub proof fn lemma_generation_deterministic(
    ps: Seq<SpecWordlist>,
    r1: Seq<Seq<SpecPair>>,
    r2: Seq<Seq<SpecPair>>,
)
    requires
        r1 == combos_from(ps, 0, Seq::<SpecPair>::empty()),
        r2 == combos_from(ps, 0, Seq::<SpecPair>::empty()),
    ensures
        r1 == r2,
        r1.len() == r2.len(),
{
}

} // verus!
