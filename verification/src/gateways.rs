//! Ranking the gateways the peers report: the union of all reported
//! gateways, each exactly once, ordered so that the most widely known come
//! first.

use vstd::prelude::*;

verus! {

/// Whether one reported list holds the URL.
pub open spec fn spec_list_has(l: Seq<Seq<char>>, u: Seq<char>) -> bool {
    exists|i: int| 0 <= i < l.len() && l[i] == u
}

/// Whether any of the first `i` reported lists holds the URL.
pub open spec fn spec_reported_upto(rs: Seq<Seq<Seq<char>>>, u: Seq<char>, i: int) -> bool {
    exists|j: int| 0 <= j < i && spec_list_has(#[trigger] rs[j], u)
}

/// Whether any reported list holds the URL.
pub open spec fn spec_reported(rs: Seq<Seq<Seq<char>>>, u: Seq<char>) -> bool {
    spec_reported_upto(rs, u, rs.len() as int)
}

/// Whether one of the first `k` entries of a list is the URL.
pub open spec fn spec_in_prefix(l: Seq<Seq<char>>, u: Seq<char>, k: int) -> bool {
    exists|m: int| 0 <= m < k && #[trigger] l[m] == u
}

/// How many peers did not report the URL.
pub open spec fn spec_missing_count(rs: Seq<Seq<Seq<char>>>, u: Seq<char>) -> int
    decreases rs.len(),
{
    if rs.len() == 0 {
        0
    } else {
        spec_missing_count(rs.drop_last(), u) + (if spec_list_has(rs.last(), u) {
            0int
        } else {
            1int
        })
    }
}

proof fn lemma_missing_count_bound(rs: Seq<Seq<Seq<char>>>, u: Seq<char>)
    ensures
        0 <= spec_missing_count(rs, u) <= rs.len(),
    decreases rs.len(),
{
    if rs.len() > 0 {
        lemma_missing_count_bound(rs.drop_last(), u);
    }
}

fn list_has(l: &Vec<String>, u: &String) -> (r: bool)
    ensures
        r == spec_list_has(l.deep_view(), u@),
{
    let mut i: usize = 0;
    while i < l.len()
        invariant
            0 <= i <= l@.len(),
            forall|j: int| 0 <= j < i ==> #[trigger] l.deep_view()[j] != u@,
        decreases l@.len() - i,
    {
        if l[i].eq(u) {
            proof {
                assert(l.deep_view()[i as int] == u@);
            }
            return true;
        }
        i += 1;
    }
    false
}

fn missing_count(rs: &Vec<Vec<String>>, u: &String) -> (r: usize)
    ensures
        r as int == spec_missing_count(rs.deep_view(), u@),
        r <= rs@.len(),
{
    let mut count: usize = 0;
    let mut i: usize = 0;
    while i < rs.len()
        invariant
            0 <= i <= rs@.len(),
            count as int == spec_missing_count(rs.deep_view().subrange(0, i as int), u@),
            count <= i,
        decreases rs@.len() - i,
    {
        if !list_has(&rs[i], u) {
            count = count + 1;
            proof {
                let d = rs.deep_view();
                assert(d.subrange(0, i + 1).drop_last() =~= d.subrange(0, i as int));
                assert(d.subrange(0, i + 1).last() == d[i as int]);
                assert(d[i as int] =~= rs@[i as int].deep_view());
            }
        } else {
            proof {
                let d = rs.deep_view();
                assert(d.subrange(0, i + 1).drop_last() =~= d.subrange(0, i as int));
                assert(d.subrange(0, i + 1).last() == d[i as int]);
                assert(d[i as int] =~= rs@[i as int].deep_view());
            }
        }
        i += 1;
    }
    proof {
        assert(rs.deep_view().subrange(0, rs.deep_view().len() as int) =~= rs.deep_view());
    }
    count
}

/// Rank the gateways the peers reported: every reported URL appears exactly
/// once, ordered so that URLs missing from fewer peers' reports come first.
#[verifier::rlimit(100)]
pub fn rank_gateways(responses: &Vec<Vec<String>>) -> (r: Vec<String>)
    requires
        responses@.len() < usize::MAX,
    ensures
        // exactly the reported URLs, without duplicates
        forall|u: Seq<char>| #[trigger] spec_list_has(r.deep_view(), u) <==> spec_reported(
            responses.deep_view(),
            u,
        ),
        forall|a: int, b: int|
            0 <= a < b < r.deep_view().len() ==> #[trigger] r.deep_view()[a]
                != #[trigger] r.deep_view()[b],
        // availability order: fewer missing peers first
        forall|a: int, b: int|
            0 <= a < b < r.deep_view().len() ==> spec_missing_count(
                responses.deep_view(),
                #[trigger] r.deep_view()[a],
            ) <= spec_missing_count(responses.deep_view(), #[trigger] r.deep_view()[b]),
{
    // the union, each URL once
    let mut union: Vec<String> = Vec::new();
    let mut i: usize = 0;
    while i < responses.len()
        invariant
            0 <= i <= responses@.len(),
            forall|a: int, b: int|
                0 <= a < b < union.deep_view().len() ==> #[trigger] union.deep_view()[a]
                    != #[trigger] union.deep_view()[b],
            forall|u: Seq<char>| #[trigger] spec_list_has(union.deep_view(), u)
                <==> spec_reported_upto(responses.deep_view(), u, i as int),
        decreases responses@.len() - i,
    {
        let row = &responses[i];
        let mut k: usize = 0;
        while k < row.len()
            invariant
                0 <= k <= row@.len(),
                row.deep_view() == responses.deep_view()[i as int],
                0 <= i < responses@.len(),
                forall|a: int, b: int|
                    0 <= a < b < union.deep_view().len() ==> #[trigger] union.deep_view()[a]
                        != #[trigger] union.deep_view()[b],
                forall|u: Seq<char>| #[trigger] spec_list_has(union.deep_view(), u)
                    <==> (spec_reported_upto(responses.deep_view(), u, i as int) || spec_in_prefix(
                    row.deep_view(),
                    u,
                    k as int,
                )),
            decreases row@.len() - k,
        {
            let u = &row[k];
            proof {
                assert(row.deep_view()[k as int] == u@);
            }
            let ghost old_union = union.deep_view();
            let was_there = list_has(&union, u);
            if !was_there {
                union.push(u.clone());
                proof {
                    assert(union.deep_view()[old_union.len() as int] == u@);
                    assert(forall|x: int|
                        0 <= x < old_union.len() ==> #[trigger] union.deep_view()[x]
                            == old_union[x]);
                }
            }
            proof {
                assert forall|u2: Seq<char>| #[trigger] spec_list_has(union.deep_view(), u2)
                    <==> (spec_reported_upto(responses.deep_view(), u2, i as int)
                    || spec_in_prefix(row.deep_view(), u2, k + 1)) by {
                    let nv = union.deep_view();
                    if spec_list_has(nv, u2) {
                        let x = choose|x: int| 0 <= x < nv.len() && #[trigger] nv[x] == u2;
                        if x < old_union.len() {
                            assert(spec_list_has(old_union, u2));
                        } else {
                            assert(u2 == u@);
                            assert(spec_in_prefix(row.deep_view(), u2, k + 1));
                        }
                    }
                    if spec_reported_upto(responses.deep_view(), u2, i as int) {
                        assert(spec_list_has(old_union, u2));
                        let x = choose|x: int|
                            0 <= x < old_union.len() && #[trigger] old_union[x] == u2;
                        assert(nv[x] == u2);
                        assert(spec_list_has(nv, u2));
                    }
                    if spec_in_prefix(row.deep_view(), u2, k + 1) {
                        let m = choose|m: int|
                            0 <= m < k + 1 && #[trigger] row.deep_view()[m] == u2;
                        if m < k {
                            assert(spec_in_prefix(row.deep_view(), u2, k as int));
                            assert(spec_list_has(old_union, u2));
                            let x = choose|x: int|
                                0 <= x < old_union.len() && #[trigger] old_union[x] == u2;
                            assert(nv[x] == u2);
                        } else {
                            assert(u2 == u@);
                            if was_there {
                                assert(spec_list_has(old_union, u2));
                                let x = choose|x: int|
                                    0 <= x < old_union.len() && #[trigger] old_union[x] == u2;
                                assert(nv[x] == u2);
                            } else {
                                assert(nv[old_union.len() as int] == u2);
                            }
                        }
                        assert(spec_list_has(nv, u2));
                    }
                }
            }
            k += 1;
        }
        proof {
            assert forall|u: Seq<char>| #[trigger] spec_list_has(union.deep_view(), u)
                <==> spec_reported_upto(responses.deep_view(), u, i + 1) by {
                if spec_reported_upto(responses.deep_view(), u, i + 1) {
                    let j = choose|j: int|
                        0 <= j < i + 1 && spec_list_has(#[trigger] responses.deep_view()[j], u);
                    if j == i {
                        let m = choose|m: int|
                            0 <= m < responses.deep_view()[j].len()
                                && responses.deep_view()[j][m] == u;
                        assert(spec_in_prefix(row.deep_view(), u, row.deep_view().len() as int));
                    } else {
                        assert(spec_reported_upto(responses.deep_view(), u, i as int));
                    }
                }
                if spec_list_has(union.deep_view(), u) {
                    if spec_in_prefix(row.deep_view(), u, row.deep_view().len() as int) {
                        let m = choose|m: int|
                            0 <= m < row.deep_view().len() && #[trigger] row.deep_view()[m] == u;
                        assert(spec_list_has(responses.deep_view()[i as int], u));
                        assert(spec_reported_upto(responses.deep_view(), u, i + 1));
                    } else {
                        assert(spec_reported_upto(responses.deep_view(), u, i as int));
                        let j = choose|j: int|
                            0 <= j < i && spec_list_has(#[trigger] responses.deep_view()[j], u);
                        assert(spec_reported_upto(responses.deep_view(), u, i + 1));
                    }
                }
            }
        }
        i += 1;
    }
    let ghost uv = union.deep_view();
    let ghost rv = responses.deep_view();

    proof {
        assert forall|m: int|
            0 <= m < uv.len() implies spec_missing_count(rv, #[trigger] uv[m]) >= 0 by {
            lemma_missing_count_bound(rv, uv[m]);
        }
    }

    // stable bucket pass: emit the URLs missing from no peer, then from one,
    // and so on
    let n = responses.len();
    let mut out: Vec<String> = Vec::new();
    let mut c: usize = 0;
    while c <= n
        invariant
            n == rv.len(),
            uv == union.deep_view(),
            rv == responses.deep_view(),
            forall|a: int, b: int|
                0 <= a < b < uv.len() ==> #[trigger] uv[a] != #[trigger] uv[b],
            forall|m: int| 0 <= m < uv.len() ==> spec_missing_count(rv, #[trigger] uv[m]) >= 0,
            n < usize::MAX,
            0 <= c <= n + 1,
            // what is out so far: exactly the union entries of lower count
            forall|x: int|
                0 <= x < out.deep_view().len() ==> spec_list_has(
                    uv,
                    #[trigger] out.deep_view()[x],
                ),
            forall|m: int|
                0 <= m < uv.len() ==> (spec_missing_count(rv, #[trigger] uv[m]) < c
                    <==> spec_list_has(out.deep_view(), uv[m])),
            forall|x: int|
                0 <= x < out.deep_view().len() ==> spec_missing_count(
                    rv,
                    #[trigger] out.deep_view()[x],
                ) < c,
            forall|a: int, b: int|
                0 <= a < b < out.deep_view().len() ==> spec_missing_count(
                    rv,
                    #[trigger] out.deep_view()[a],
                ) <= spec_missing_count(rv, #[trigger] out.deep_view()[b]),
            forall|a: int, b: int|
                0 <= a < b < out.deep_view().len() ==> #[trigger] out.deep_view()[a]
                    != #[trigger] out.deep_view()[b],
        decreases n + 1 - c,
    {
        let mut k: usize = 0;
        while k < union.len()
            invariant
                n == rv.len(),
                uv == union.deep_view(),
                rv == responses.deep_view(),
                forall|a: int, b: int|
                    0 <= a < b < uv.len() ==> #[trigger] uv[a] != #[trigger] uv[b],
                forall|m: int|
                    0 <= m < uv.len() ==> spec_missing_count(rv, #[trigger] uv[m]) >= 0,
                0 <= c <= n,
                0 <= k <= uv.len(),
                forall|x: int|
                    0 <= x < out.deep_view().len() ==> spec_list_has(
                        uv,
                        #[trigger] out.deep_view()[x],
                    ),
                forall|m: int|
                    0 <= m < uv.len() ==> ((spec_missing_count(rv, #[trigger] uv[m]) < c || (m < k
                        && spec_missing_count(rv, uv[m]) == c)) <==> spec_list_has(
                        out.deep_view(),
                        uv[m],
                    )),
                forall|x: int|
                    0 <= x < out.deep_view().len() ==> spec_missing_count(
                        rv,
                        #[trigger] out.deep_view()[x],
                    ) <= c,
                forall|a: int, b: int|
                    0 <= a < b < out.deep_view().len() ==> spec_missing_count(
                        rv,
                        #[trigger] out.deep_view()[a],
                    ) <= spec_missing_count(rv, #[trigger] out.deep_view()[b]),
                forall|a: int, b: int|
                    0 <= a < b < out.deep_view().len() ==> #[trigger] out.deep_view()[a]
                        != #[trigger] out.deep_view()[b],
            decreases uv.len() - k,
        {
            let mc = missing_count(responses, &union[k]);
            let ghost old_out = out.deep_view();
            proof {
                assert(union.deep_view()[k as int] == union@[k as int]@);
            }
            if mc == c {
                out.push(union[k].clone());
                proof {
                    assert(out.deep_view()[old_out.len() as int] == uv[k as int]);
                    assert(forall|x: int|
                        0 <= x < old_out.len() ==> #[trigger] out.deep_view()[x] == old_out[x]);
                    // the pushed entry was not yet present: membership would
                    // put its count below this round, against what was
                    // measured
                    assert forall|x: int|
                        0 <= x < old_out.len() implies #[trigger] old_out[x] != uv[k as int] by {
                        if old_out[x] == uv[k as int] {
                            assert(spec_list_has(old_out, uv[k as int]));
                            assert(spec_missing_count(rv, uv[k as int]) < c || (k < k
                                && spec_missing_count(rv, uv[k as int]) == c));
                            assert(false);
                        }
                    }
                }
            }
            proof {
                let ov = out.deep_view();
                if mc == c {
                    assert(ov[old_out.len() as int] == uv[k as int]);
                }
                assert forall|m: int|
                    0 <= m < uv.len() implies ((spec_missing_count(rv, #[trigger] uv[m]) < c || (
                m < k + 1 && spec_missing_count(rv, uv[m]) == c)) <==> spec_list_has(
                    ov,
                    uv[m],
                )) by {
                    if spec_missing_count(rv, uv[m]) < c || (m < k + 1 && spec_missing_count(
                        rv,
                        uv[m],
                    ) == c) {
                        if spec_missing_count(rv, uv[m]) < c || (m < k && spec_missing_count(
                            rv,
                            uv[m],
                        ) == c) {
                            assert(spec_list_has(old_out, uv[m]));
                            let x = choose|x: int|
                                0 <= x < old_out.len() && old_out[x] == uv[m];
                            assert(ov[x] == uv[m]);
                            assert(spec_list_has(ov, uv[m]));
                        } else {
                            assert(m == k && spec_missing_count(rv, uv[m]) == c);
                            assert(mc == c);
                            assert(ov[old_out.len() as int] == uv[m]);
                            assert(spec_list_has(ov, uv[m]));
                        }
                    }
                    if spec_list_has(ov, uv[m]) {
                        let x = choose|x: int| 0 <= x < ov.len() && ov[x] == uv[m];
                        if x < old_out.len() {
                            assert(old_out[x] == uv[m]);
                            assert(spec_list_has(old_out, uv[m]));
                        } else {
                            assert(mc == c);
                            assert(ov[x] == uv[k as int]);
                            if m != k {
                                assert(uv[m] != uv[k as int]);
                                assert(false);
                            }
                        }
                    }
                }
            }
            k += 1;
        }
        proof {
            let ov = out.deep_view();
            assert forall|m: int|
                0 <= m < uv.len() implies (spec_missing_count(rv, #[trigger] uv[m]) < c + 1
                <==> spec_list_has(ov, uv[m])) by {
                assert(spec_missing_count(rv, uv[m]) < c + 1 <==> (spec_missing_count(rv, uv[m])
                    < c || spec_missing_count(rv, uv[m]) == c));
            }
        }
        c += 1;
    }
    proof {
        assert forall|u: Seq<char>| #[trigger] spec_list_has(out.deep_view(), u)
            <==> spec_reported(rv, u) by {
            if spec_list_has(out.deep_view(), u) {
                let x = choose|x: int|
                    0 <= x < out.deep_view().len() && out.deep_view()[x] == u;
                assert(spec_list_has(uv, out.deep_view()[x]));
                assert(spec_list_has(uv, u));
                assert(spec_reported_upto(rv, u, rv.len() as int));
            }
            if spec_reported(rv, u) {
                assert(spec_list_has(uv, u));
                let m = choose|m: int| 0 <= m < uv.len() && uv[m] == u;
                lemma_missing_count_bound(rv, uv[m]);
                assert(spec_missing_count(rv, uv[m]) < c);
                assert(spec_list_has(out.deep_view(), uv[m]));
                assert(spec_list_has(out.deep_view(), u));
            }
        }
    }
    out
}

} // verus!
