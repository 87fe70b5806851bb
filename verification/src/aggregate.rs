use vstd::prelude::*;

use crate::date::Date;
use crate::date::date_le;
use crate::date::spec_date_le;
use crate::quarter::Quarter;
use crate::record::Review;
use crate::record::ReviewModel;
use crate::record::reviews_model;
use crate::record::str_eq;

verus! {

/// One author's group: the author and the records kept for them,
/// ordered by ascending date.
#[derive(Debug, PartialEq)]
pub struct AuthorReviews {
    pub coworker: String,
    pub reviews: Vec<Review>,
}

/// The mathematical value of one author's group.
pub ghost struct GroupModel {
    pub coworker: Seq<char>,
    pub reviews: Seq<ReviewModel>,
}

impl AuthorReviews {
    /// The group's mathematical value.
    pub open spec fn model(self) -> GroupModel {
        GroupModel { coworker: self.coworker@, reviews: reviews_model(self.reviews@) }
    }
}

/// The values of a vector of groups.
pub open spec fn groups_model(gs: Seq<AuthorReviews>) -> Seq<GroupModel> {
    gs.map_values(|g: AuthorReviews| g.model())
}

/// A sequence of records ordered by ascending date.
pub open spec fn sorted_by_date(rs: Seq<ReviewModel>) -> bool {
    forall|i: int, j: int|
        0 <= i < j < rs.len() ==> spec_date_le(#[trigger] rs[i].date, #[trigger] rs[j].date)
}

/// `r` inserted after every record whose date is not later than its own,
/// so that records with equal dates keep their earlier place.
pub open spec fn stable_insert(s: Seq<ReviewModel>, r: ReviewModel) -> Seq<ReviewModel>
    decreases s.len(),
{
    if s.len() == 0 {
        seq![r]
    } else if spec_date_le(s.last().date, r.date) {
        s.push(r)
    } else {
        stable_insert(s.drop_last(), r).push(s.last())
    }
}

/// The index of the group for author `a`, or -1 when no group holds it.
pub open spec fn find_author(gs: Seq<GroupModel>, a: Seq<char>) -> int
    decreases gs.len(),
{
    if gs.len() == 0 {
        -1
    } else if gs[0].coworker == a {
        0
    } else {
        let r = find_author(gs.drop_first(), a);
        if r < 0 {
            -1
        } else {
            r + 1
        }
    }
}

/// `find_author` returns the first index whose group holds `a`, and -1
/// exactly when none does.
pub proof fn lemma_find_author(gs: Seq<GroupModel>, a: Seq<char>)
    ensures
        find_author(gs, a) == -1 ==> forall|k: int|
            0 <= k < gs.len() ==> (#[trigger] gs[k]).coworker != a,
        find_author(gs, a) != -1 ==> {
            let i = find_author(gs, a);
            &&& 0 <= i < gs.len()
            &&& gs[i].coworker == a
            &&& forall|k: int| 0 <= k < i ==> (#[trigger] gs[k]).coworker != a
        },
    decreases gs.len(),
{
    if gs.len() > 0 && gs[0].coworker != a {
        let tail = gs.drop_first();
        lemma_find_author(tail, a);
        if find_author(gs, a) == -1 {
            assert forall|k: int| 0 <= k < gs.len() implies (#[trigger] gs[k]).coworker != a by {
                if k > 0 {
                    assert(tail[k - 1] == gs[k]);
                }
            }
        } else {
            let i = find_author(gs, a);
            assert(i == find_author(tail, a) + 1);
            assert(tail[i - 1] == gs[i]);
            assert forall|k: int| 0 <= k < i implies (#[trigger] gs[k]).coworker != a by {
                if k > 0 {
                    assert(tail[k - 1] == gs[k]);
                }
            }
        }
    }
}

/// One record added to the groups: into its author's group at its
/// date-ordered place, or as a new group at the end.
pub open spec fn upsert(gs: Seq<GroupModel>, r: ReviewModel) -> Seq<GroupModel> {
    let i = find_author(gs, r.coworker);
    if i < 0 {
        gs.push(GroupModel { coworker: r.coworker, reviews: seq![r] })
    } else {
        gs.update(
            i,
            GroupModel { coworker: gs[i].coworker, reviews: stable_insert(gs[i].reviews, r) },
        )
    }
}

/// The grouping that a record sequence produces for a quarter: records
/// outside the quarter are dropped; the rest are taken in order and each
/// is placed in its author's group at its date-ordered place.
pub open spec fn spec_aggregate(rs: Seq<ReviewModel>, q: Quarter) -> Seq<GroupModel>
    decreases rs.len(),
{
    if rs.len() == 0 {
        Seq::empty()
    } else {
        let prev = spec_aggregate(rs.drop_last(), q);
        if q.spec_contains(rs.last().date) {
            upsert(prev, rs.last())
        } else {
            prev
        }
    }
}

/// Finds the group that already holds `author`, as `find_author` does.
fn find_group(groups: &Vec<AuthorReviews>, author: &str) -> (r: Option<usize>)
    ensures
        match r {
            Some(j) => j < groups@.len() && find_author(groups_model(groups@), author@) == j as int,
            None => find_author(groups_model(groups@), author@) == -1,
        },
{
    let mut j: usize = 0;
    let glen = groups.len();
    while j < glen
        invariant
            j <= glen,
            glen == groups@.len(),
            forall|k: int| 0 <= k < j ==> (#[trigger] groups_model(groups@)[k]).coworker != author@,
        decreases glen - j,
    {
        if str_eq(groups[j].coworker.as_str(), author) {
            proof {
                let gs = groups_model(groups@);
                assert(gs[j as int].coworker == author@);
                lemma_find_author(gs, author@);
                let i = find_author(gs, author@);
                if i == -1 {
                    assert(gs[j as int].coworker != author@);
                } else if i < j as int {
                    assert(gs[i].coworker != author@);
                } else if i > j as int {
                    assert(gs[j as int].coworker != author@);
                }
            }
            return Some(j);
        }
        j = j + 1;
    }
    proof {
        lemma_find_author(groups_model(groups@), author@);
    }
    None
}

/// The place where a record dated `d` goes in a date-ordered vector:
/// after every record dated no later, before the rest.
fn insert_pos(reviews: &Vec<Review>, d: Date) -> (p: usize)
    ensures
        p <= reviews@.len(),
        forall|k: int| p <= k < reviews@.len() ==> !spec_date_le((#[trigger] reviews@[k]).date, d),
        p > 0 ==> spec_date_le(reviews@[p - 1].date, d),
{
    let mut p = reviews.len();
    while p > 0
        invariant
            p <= reviews@.len(),
            forall|k: int|
                p <= k < reviews@.len() ==> !spec_date_le((#[trigger] reviews@[k]).date, d),
        decreases p,
    {
        if date_le(reviews[p - 1].date, d) {
            return p;
        }
        p = p - 1;
    }
    p
}

/// A stable insertion lands at the position that `insert_pos` finds.
proof fn lemma_stable_insert_at(s: Seq<ReviewModel>, r: ReviewModel, p: int)
    requires
        0 <= p <= s.len(),
        forall|k: int| p <= k < s.len() ==> !spec_date_le((#[trigger] s[k]).date, r.date),
        p > 0 ==> spec_date_le(s[p - 1].date, r.date),
    ensures
        stable_insert(s, r) == s.take(p) + seq![r] + s.skip(p),
    decreases s.len(),
{
    if s.len() == 0 {
        assert(stable_insert(s, r) =~= s.take(p) + seq![r] + s.skip(p));
    } else if spec_date_le(s.last().date, r.date) {
        assert(p == s.len());
        assert(s.take(p) + seq![r] + s.skip(p) =~= s.push(r));
    } else {
        assert(p < s.len());
        lemma_stable_insert_at(s.drop_last(), r, p);
        assert((s.drop_last().take(p) + seq![r] + s.drop_last().skip(p)).push(s.last()) =~= s.take(
            p,
        ) + seq![r] + s.skip(p));
    }
}

/// Filters the records to those inside `quarter`, groups them by author,
/// and orders each group by ascending date, records with equal dates
/// keeping their input order. The result is exactly `spec_aggregate` of
/// the input.
pub fn aggregate_reviews(reviews: Vec<Review>, quarter: &Quarter) -> (groups: Vec<AuthorReviews>)
    requires
        forall|i: int| 0 <= i < reviews@.len() ==> (#[trigger] reviews@[i]).wf(),
    ensures
        groups_model(groups@) == spec_aggregate(reviews_model(reviews@), *quarter),
{
    let ghost rs = reviews_model(reviews@);
    let mut rest = reviews;
    let mut groups: Vec<AuthorReviews> = Vec::new();
    proof {
        assert(reviews_model(rest@) =~= rs.skip(0));
        assert(groups_model(groups@) =~= spec_aggregate(rs.take(0), *quarter));
    }
    while rest.len() > 0
        invariant
            rest@.len() <= rs.len(),
            reviews_model(rest@) == rs.skip(rs.len() - rest@.len()),
            forall|i: int| 0 <= i < rest@.len() ==> (#[trigger] rest@[i]).wf(),
            groups_model(groups@) == spec_aggregate(rs.take(rs.len() - rest@.len()), *quarter),
        decreases rest@.len(),
    {
        let ghost k = rs.len() - rest@.len();
        let ghost old_rest = rest@;
        let r = rest.remove(0);
        proof {
            assert(reviews_model(rest@) =~= reviews_model(old_rest).drop_first());
            assert(reviews_model(old_rest)[0] == r.model());
            assert(reviews_model(old_rest) == rs.skip(k));
            assert(rs.skip(k)[0] == rs[k]);
            assert(r.model() == rs[k]);
            assert(reviews_model(rest@) =~= rs.skip(k + 1));
            assert(rs.take(k + 1).drop_last() =~= rs.take(k));
            assert(rs.take(k + 1).last() == rs[k]);
            assert(forall|i: int| 0 <= i < rest@.len() ==> rest@[i] == old_rest[i + 1]);
        }
        if quarter.contains_date(r.date) {
            let ghost prev = groups_model(groups@);
            match find_group(&groups, r.coworker.as_str()) {
                Some(j) => {
                    let mut g = groups.remove(j);
                    let ghost old_reviews = reviews_model(g.reviews@);
                    let p = insert_pos(&g.reviews, r.date);
                    let ghost old_vec = g.reviews@;
                    g.reviews.insert(p, r);
                    proof {
                        assert(forall|t: int|
                            0 <= t < old_vec.len() ==> (#[trigger] old_vec[t]).model()
                                == old_reviews[t]);
                        lemma_stable_insert_at(old_reviews, r.model(), p as int);
                        assert(reviews_model(g.reviews@) =~= old_reviews.take(p as int) + seq![
                            r.model(),
                        ] + old_reviews.skip(p as int));
                        assert(g.model() == (GroupModel {
                            coworker: prev[j as int].coworker,
                            reviews: stable_insert(prev[j as int].reviews, r.model()),
                        }));
                    }
                    groups.insert(j, g);
                    proof {
                        assert(groups_model(groups@) =~= upsert(prev, r.model()));
                    }
                },
                None => {
                    let author = r.coworker.clone();
                    let mut one: Vec<Review> = Vec::new();
                    one.push(r);
                    let g = AuthorReviews { coworker: author, reviews: one };
                    proof {
                        assert(reviews_model(g.reviews@) =~= seq![rs[k]]);
                    }
                    groups.push(g);
                    proof {
                        assert(groups_model(groups@) =~= upsert(prev, rs[k]));
                    }
                },
            }
        }
        proof {
            assert(groups_model(groups@) == spec_aggregate(rs.take(k + 1), *quarter));
        }
    }
    proof {
        assert(rs.take(rs.len() as int) =~= rs);
    }
    groups
}

/// What a stable insertion does: one record longer, the records are the
/// old ones plus `r`, and a date-ordered sequence stays date-ordered.
pub proof fn lemma_stable_insert_props(s: Seq<ReviewModel>, r: ReviewModel)
    ensures
        stable_insert(s, r).len() == s.len() + 1,
        stable_insert(s, r).to_multiset() == s.to_multiset().insert(r),
        forall|t: int|
            0 <= t < stable_insert(s, r).len() ==> ((#[trigger] stable_insert(s, r)[t]) == r
                || s.contains(stable_insert(s, r)[t])),
        sorted_by_date(s) ==> sorted_by_date(stable_insert(s, r)),
    decreases s.len(),
{
    broadcast use vstd::seq_lib::group_to_multiset_ensures;

    if s.len() == 0 {
        assert(s =~= Seq::<ReviewModel>::empty());
        assert(stable_insert(s, r) =~= s.push(r));
    } else if spec_date_le(s.last().date, r.date) {
        let out = s.push(r);
        assert forall|t: int| 0 <= t < out.len() implies ((#[trigger] out[t]) == r || s.contains(
            out[t],
        )) by {
            if t < s.len() {
                assert(s[t] == out[t]);
            }
        }
        if sorted_by_date(s) {
            assert forall|i: int, j: int| 0 <= i < j < out.len() implies spec_date_le(
                out[i].date,
                out[j].date,
            ) by {
                if j < s.len() {
                } else {
                    if i < s.len() - 1 {
                        assert(spec_date_le(s[i].date, s[s.len() - 1].date));
                    }
                }
            }
        }
    } else {
        let dl = s.drop_last();
        let last = s.last();
        lemma_stable_insert_props(dl, r);
        let rest = stable_insert(dl, r);
        let out = rest.push(last);
        assert(stable_insert(s, r) == out);
        assert(s =~= dl.push(last));
        assert(dl.push(last).to_multiset() == dl.to_multiset().insert(last));
        assert(rest.push(last).to_multiset() == rest.to_multiset().insert(last));
        assert(dl.to_multiset().insert(r).insert(last) =~= dl.to_multiset().insert(last).insert(
            r,
        ));
        assert forall|t: int| 0 <= t < out.len() implies ((#[trigger] out[t]) == r || s.contains(
            out[t],
        )) by {
            if t < rest.len() {
                assert(rest[t] == out[t]);
                if rest[t] != r {
                    let idx = choose|idx: int| 0 <= idx < dl.len() && dl[idx] == rest[t];
                    assert(s[idx] == rest[t]);
                }
            } else {
                assert(out[t] == last);
                assert(s[s.len() - 1] == last);
            }
        }
        if sorted_by_date(s) {
            assert forall|i: int, j: int| 0 <= i < j < dl.len() implies spec_date_le(
                (#[trigger] dl[i]).date,
                (#[trigger] dl[j]).date,
            ) by {
                assert(dl[i] == s[i] && dl[j] == s[j]);
            }
            assert(sorted_by_date(dl));
            assert(sorted_by_date(rest));
            assert forall|t: int| 0 <= t < rest.len() implies spec_date_le(
                (#[trigger] rest[t]).date,
                last.date,
            ) by {
                if rest[t] == r {
                    assert(!spec_date_le(last.date, r.date));
                    assert(spec_date_le(r.date, last.date));
                } else {
                    let idx = choose|idx: int| 0 <= idx < dl.len() && dl[idx] == rest[t];
                    assert(s[idx] == rest[t]);
                    assert(spec_date_le(s[idx].date, s[s.len() - 1].date));
                }
            }
            assert forall|i: int, j: int| 0 <= i < j < out.len() implies spec_date_le(
                out[i].date,
                out[j].date,
            ) by {
                if j < rest.len() {
                    assert(out[i] == rest[i] && out[j] == rest[j]);
                } else {
                    assert(out[j] == last);
                    assert(out[i] == rest[i]);
                }
            }
        }
    }
}

/// Well-formed groupings for a quarter: every group is ordered by date
/// and holds at least one record, authors are pairwise distinct, and
/// each record lies in its group's author and inside the quarter.
pub open spec fn groups_wf(gs: Seq<GroupModel>, q: Quarter) -> bool {
    &&& forall|k: int|
        0 <= k < gs.len() ==> sorted_by_date((#[trigger] gs[k]).reviews) && gs[k].reviews.len()
            >= 1
    &&& forall|k1: int, k2: int|
        0 <= k1 < k2 < gs.len() ==> (#[trigger] gs[k1]).coworker != (#[trigger] gs[k2]).coworker
    &&& forall|k: int, t: int|
        0 <= k < gs.len() && 0 <= t < gs[k].reviews.len() ==> (#[trigger] gs[k].reviews[t]).coworker
            == gs[k].coworker && q.spec_contains(gs[k].reviews[t].date)
}

/// Adding one record of the quarter keeps a grouping well formed.
proof fn lemma_upsert_wf(gs: Seq<GroupModel>, r: ReviewModel, q: Quarter)
    requires
        groups_wf(gs, q),
        q.spec_contains(r.date),
    ensures
        groups_wf(upsert(gs, r), q),
{
    lemma_find_author(gs, r.coworker);
    let i = find_author(gs, r.coworker);
    let out = upsert(gs, r);
    if i < 0 {
        let g = GroupModel { coworker: r.coworker, reviews: seq![r] };
        assert(out == gs.push(g));
        assert forall|k1: int, k2: int| 0 <= k1 < k2 < out.len() implies (#[trigger] out[k1]).coworker
            != (#[trigger] out[k2]).coworker by {
            if k2 == gs.len() {
                assert(gs[k1].coworker != r.coworker);
            }
        }
        assert forall|k: int, t: int|
            0 <= k < out.len() && 0 <= t < out[k].reviews.len() implies (#[trigger] out[k].reviews[t]).coworker
            == out[k].coworker && q.spec_contains(out[k].reviews[t].date) by {
            if k < gs.len() {
                assert(gs[k].reviews[t] == out[k].reviews[t]);
            } else {
                assert(out[k].reviews[t] == r);
            }
        }
    } else {
        lemma_stable_insert_props(gs[i].reviews, r);
        let g2 = GroupModel { coworker: gs[i].coworker, reviews: stable_insert(gs[i].reviews, r) };
        assert(out == gs.update(i, g2));
        assert forall|k: int| 0 <= k < out.len() implies sorted_by_date((#[trigger] out[k]).reviews)
            && out[k].reviews.len() >= 1 by {
            if k != i {
                assert(out[k] == gs[k]);
            }
        }
        assert forall|k1: int, k2: int| 0 <= k1 < k2 < out.len() implies (#[trigger] out[k1]).coworker
            != (#[trigger] out[k2]).coworker by {
            assert(out[k1].coworker == gs[k1].coworker);
            assert(out[k2].coworker == gs[k2].coworker);
        }
        assert forall|k: int, t: int|
            0 <= k < out.len() && 0 <= t < out[k].reviews.len() implies (#[trigger] out[k].reviews[t]).coworker
            == out[k].coworker && q.spec_contains(out[k].reviews[t].date) by {
            if k != i {
                assert(out[k] == gs[k]);
                assert(gs[k].reviews[t] == out[k].reviews[t]);
            } else {
                let x = out[i].reviews[t];
                if x == r {
                } else {
                    assert(gs[i].reviews.contains(x));
                    let idx = choose|idx: int|
                        0 <= idx < gs[i].reviews.len() && gs[i].reviews[idx] == x;
                    assert(gs[i].reviews[idx].coworker == gs[i].coworker);
                }
            }
        }
    }
}

/// The grouping that `spec_aggregate` yields is well formed: each group
/// date-ordered and nonempty, authors distinct, and every kept record of
/// an author's group carries that author and a date inside the quarter.
pub proof fn lemma_aggregate_wf(rs: Seq<ReviewModel>, q: Quarter)
    ensures
        groups_wf(spec_aggregate(rs, q), q),
    decreases rs.len(),
{
    if rs.len() > 0 {
        lemma_aggregate_wf(rs.drop_last(), q);
        if q.spec_contains(rs.last().date) {
            lemma_upsert_wf(spec_aggregate(rs.drop_last(), q), rs.last(), q);
        }
    }
}

/// The input records that the quarter admits for one author, in input
/// order.
pub open spec fn author_filter(rs: Seq<ReviewModel>, q: Quarter, a: Seq<char>) -> Seq<ReviewModel>
    decreases rs.len(),
{
    if rs.len() == 0 {
        Seq::empty()
    } else {
        let prev = author_filter(rs.drop_last(), q, a);
        if q.spec_contains(rs.last().date) && rs.last().coworker == a {
            prev.push(rs.last())
        } else {
            prev
        }
    }
}

/// Groups with the same authors at the same places are searched alike.
proof fn lemma_find_author_same_keys(gs1: Seq<GroupModel>, gs2: Seq<GroupModel>, a: Seq<char>)
    requires
        gs1.len() == gs2.len(),
        forall|k: int|
            0 <= k < gs1.len() ==> (#[trigger] gs1[k]).coworker == (#[trigger] gs2[k]).coworker,
    ensures
        find_author(gs1, a) == find_author(gs2, a),
{
    lemma_find_author(gs1, a);
    lemma_find_author(gs2, a);
    let i1 = find_author(gs1, a);
    let i2 = find_author(gs2, a);
    if i1 == -1 && i2 != -1 {
        assert(gs1[i2].coworker != a);
        assert(gs2[i2].coworker == a);
    } else if i1 != -1 && i2 == -1 {
        assert(gs2[i1].coworker != a);
        assert(gs1[i1].coworker == a);
    } else if i1 != -1 && i2 != -1 {
        if i1 < i2 {
            assert(gs2[i1].coworker != a);
            assert(gs1[i1].coworker == a);
        } else if i2 < i1 {
            assert(gs1[i2].coworker != a);
            assert(gs2[i2].coworker == a);
        }
    }
}

/// Completeness of the grouping: an author's group holds exactly the
/// input records of that author that the quarter admits, each exactly
/// once; an author with no admitted record has no group.
pub proof fn lemma_aggregate_content(rs: Seq<ReviewModel>, q: Quarter, a: Seq<char>)
    ensures
        ({
            let gs = spec_aggregate(rs, q);
            let i = find_author(gs, a);
            &&& (i == -1 ==> author_filter(rs, q, a).len() == 0)
            &&& (i != -1 ==> gs[i].reviews.to_multiset() == author_filter(rs, q, a).to_multiset())
        }),
    decreases rs.len(),
{
    broadcast use vstd::seq_lib::group_to_multiset_ensures;

    let gs = spec_aggregate(rs, q);
    if rs.len() > 0 {
        let dl = rs.drop_last();
        let last = rs.last();
        lemma_aggregate_content(dl, q, a);
        let prev = spec_aggregate(dl, q);
        let pi = find_author(prev, a);
        if !q.spec_contains(last.date) {
            assert(gs == prev);
            assert(author_filter(rs, q, a) == author_filter(dl, q, a));
        } else {
            let b = last.coworker;
            lemma_find_author(prev, b);
            lemma_find_author(prev, a);
            lemma_find_author(gs, a);
            let pb = find_author(prev, b);
            let i = find_author(gs, a);
            if pb == -1 {
                let g = GroupModel { coworker: b, reviews: seq![last] };
                assert(gs == prev.push(g));
                if a == b {
                    assert(gs[prev.len() as int].coworker == a);
                    assert(i != -1);
                    if i < prev.len() {
                        assert(gs[i] == prev[i]);
                        assert(prev[i].coworker != a);
                    }
                    assert(i == prev.len());
                    assert(author_filter(dl, q, a).len() == 0);
                    assert(author_filter(dl, q, a) =~= Seq::<ReviewModel>::empty());
                    assert(author_filter(rs, q, a) == author_filter(dl, q, a).push(last));
                    assert(author_filter(rs, q, a) =~= seq![last]);
                    assert(gs[i].reviews =~= seq![last]);
                } else {
                    assert(author_filter(rs, q, a) == author_filter(dl, q, a));
                    if pi == -1 {
                        if i != -1 {
                            assert(gs[i].coworker == a);
                            if i < prev.len() {
                                assert(prev[i] == gs[i]);
                                assert(prev[i].coworker != a);
                            } else {
                                assert(gs[i] == g);
                            }
                        }
                        assert(i == -1);
                    } else {
                        assert(gs[pi] == prev[pi]);
                        assert(gs[pi].coworker == a);
                        assert(i != -1);
                        if i < pi {
                            assert(prev[i].coworker != a);
                            assert(gs[i] == prev[i]);
                            assert(gs[i].coworker == a);
                        } else if pi < i {
                            assert(gs[pi].coworker != a);
                        }
                        assert(i == pi);
                    }
                }
            } else {
                let g2 = GroupModel {
                    coworker: prev[pb].coworker,
                    reviews: stable_insert(prev[pb].reviews, last),
                };
                assert(gs == prev.update(pb, g2));
                assert forall|k: int| 0 <= k < prev.len() implies (#[trigger] prev[k]).coworker
                    == (#[trigger] gs[k]).coworker by {}
                lemma_find_author_same_keys(prev, gs, a);
                assert(i == pi);
                if a == b {
                    assert(pi == pb);
                    lemma_stable_insert_props(prev[pb].reviews, last);
                    assert(author_filter(rs, q, a) == author_filter(dl, q, a).push(last));
                    assert(author_filter(dl, q, a).push(last).to_multiset() == author_filter(
                        dl,
                        q,
                        a,
                    ).to_multiset().insert(last));
                    assert(gs[i].reviews.to_multiset() == prev[pb].reviews.to_multiset().insert(
                        last,
                    ));
                } else {
                    assert(author_filter(rs, q, a) == author_filter(dl, q, a));
                    if pi != -1 {
                        assert(prev[pi].coworker == a);
                        assert(prev[pb].coworker == b);
                        assert(pi != pb);
                        assert(gs[pi] == prev[pi]);
                    }
                }
            }
        }
    }
}

/// Aggregation is a function of its inputs: two groupings of the same
/// records for the same quarter are identical, group for group and
/// record for record.
pub proof fn lemma_aggregate_idempotent(
    rs: Seq<ReviewModel>,
    q: Quarter,
    g1: Seq<GroupModel>,
    g2: Seq<GroupModel>,
)
    requires
        g1 == spec_aggregate(rs, q),
        g2 == spec_aggregate(rs, q),
    ensures
        g1 == g2,
{
}

} // verus!
