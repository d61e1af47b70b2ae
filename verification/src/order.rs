use vstd::prelude::*;

use crate::imputation::{Credential, Imputation};
use crate::text::chars_of;

verus! {

/// The order of `String`: lexicographic over the characters (the order of
/// their UTF-8 bytes), a prefix first.
pub open spec fn text_le(a: Seq<char>, b: Seq<char>) -> bool
    decreases a.len(),
{
    if a.len() == 0 {
        true
    } else if b.len() == 0 {
        false
    } else if a[0] != b[0] {
        a[0] < b[0]
    } else {
        text_le(a.drop_first(), b.drop_first())
    }
}

/// Every text comes no later than itself.
pub proof fn lemma_text_le_reflexive(a: Seq<char>)
    ensures
        text_le(a, a),
    decreases a.len(),
{
    if a.len() > 0 {
        lemma_text_le_reflexive(a.drop_first());
    }
}

/// Of two texts, one comes no later than the other.
pub proof fn lemma_text_le_total(a: Seq<char>, b: Seq<char>)
    ensures
        text_le(a, b) || text_le(b, a),
    decreases a.len(),
{
    if a.len() > 0 && b.len() > 0 && a[0] == b[0] {
        lemma_text_le_total(a.drop_first(), b.drop_first());
    }
}

/// The order of texts is transitive.
pub proof fn lemma_text_le_transitive(a: Seq<char>, b: Seq<char>, c: Seq<char>)
    requires
        text_le(a, b),
        text_le(b, c),
    ensures
        text_le(a, c),
    decreases a.len(),
{
    if a.len() > 0 && b.len() > 0 && c.len() > 0 && a[0] == b[0] && b[0] == c[0] {
        lemma_text_le_transitive(a.drop_first(), b.drop_first(), c.drop_first());
    }
}

/// Two texts that each come no later than the other are equal.
pub proof fn lemma_text_le_antisymmetric(a: Seq<char>, b: Seq<char>)
    requires
        text_le(a, b),
        text_le(b, a),
    ensures
        a == b,
    decreases a.len(),
{
    if a.len() > 0 && b.len() > 0 {
        lemma_text_le_antisymmetric(a.drop_first(), b.drop_first());
        assert(a == seq![a[0]] + a.drop_first());
        assert(b == seq![b[0]] + b.drop_first());
    } else {
        assert(a.len() == 0 && b.len() == 0);
        assert(a =~= b);
    }
}

/// Whether the text of `a` comes no later than that of `b`.
pub fn text_le_chars(a: &Vec<char>, b: &Vec<char>) -> (r: bool)
    ensures
        r == text_le(a@, b@),
{
    let mut i: usize = 0;
    assert(a@.skip(0) == a@ && b@.skip(0) == b@);
    while i < a.len() && i < b.len() && a[i] == b[i]
        invariant
            i <= a@.len(),
            i <= b@.len(),
            text_le(a@, b@) == text_le(a@.skip(i as int), b@.skip(i as int)),
        decreases a.len() - i,
    {
        assert(a@.skip(i as int).drop_first() == a@.skip(i + 1));
        assert(b@.skip(i as int).drop_first() == b@.skip(i + 1));
        i += 1;
    }
    if i == a.len() {
        true
    } else if i == b.len() {
        false
    } else {
        a[i] < b[i]
    }
}

/// The imputations in order of their users.
pub open spec fn sorted_by_user(s: Seq<Imputation>) -> bool {
    forall|i: int, j: int| 0 <= i < j < s.len() ==> text_le(#[trigger] s[i].user@, #[trigger] s[j].user@)
}

/// The imputations of the user `u`, in the order in which they stand.
pub open spec fn rows_of(s: Seq<Imputation>, u: Seq<char>) -> Seq<Imputation> {
    s.filter(of_user(u))
}

/// Whether an imputation is one of the user `u`.
pub open spec fn of_user(u: Seq<char>) -> spec_fn(Imputation) -> bool {
    |x: Imputation| x.user@ == u
}

proof fn lemma_rows_of_none(s: Seq<Imputation>, u: Seq<char>)
    requires
        forall|j: int| 0 <= j < s.len() ==> (#[trigger] s[j]).user@ != u,
    ensures
        rows_of(s, u) == Seq::<Imputation>::empty(),
    decreases s.len(),
{
    if s.len() > 0 {
        let f = of_user(u);
        assert(s.drop_last().push(s.last()) == s);
        s.drop_last().lemma_filter_push(s.last(), f);
        lemma_rows_of_none(s.drop_last(), u);
    } else {
        reveal(Seq::filter);
        assert(s.filter(of_user(u)) =~= Seq::<Imputation>::empty());
    }
}

/// The imputations ordered by user, as `sort_by` on the users does it: a
/// stable sort, so that the imputations of each user keep their order.
pub fn sort_by_user(imputations: Vec<Imputation>) -> (r: Vec<Imputation>)
    ensures
        sorted_by_user(r@),
        forall|u: Seq<char>| #[trigger] rows_of(r@, u) == rows_of(imputations@, u),
        r@.to_multiset() == imputations@.to_multiset(),
{
    broadcast use vstd::seq_lib::group_seq_properties;

    let ghost orig = imputations@;
    let mut input = imputations;
    let mut out: Vec<Imputation> = Vec::new();
    let ghost mut k: int = 0;
    proof {
        assert(orig.skip(0) == orig);
        assert forall|u: Seq<char>| #[trigger] rows_of(out@, u) == rows_of(orig.take(0), u) by {
            assert(orig.take(0) == out@);
        }
    }
    while input.len() > 0
        invariant
            0 <= k <= orig.len(),
            input@ == orig.skip(k),
            sorted_by_user(out@),
            forall|u: Seq<char>| #[trigger] rows_of(out@, u) == rows_of(orig.take(k), u),
            out@.to_multiset() == orig.take(k).to_multiset(),
        decreases input.len(),
    {
        let x = input.remove(0);
        proof {
            assert(input@ == orig.skip(k + 1));
            assert(x == orig[k]);
        }
        let xu = chars_of(x.user.as_str());
        let mut p: usize = 0;
        while p < out.len() && text_le_chars(&chars_of(out[p].user.as_str()), &xu)
            invariant
                p <= out@.len(),
                xu@ == x.user@,
                forall|j: int| 0 <= j < p ==> text_le(#[trigger] out@[j].user@, x.user@),
            decreases out.len() - p,
        {
            p += 1;
        }
        let ghost old_out = out@;
        proof {
            assert forall|u: Seq<char>| #[trigger] rows_of(old_out, u) == rows_of(orig.take(k), u) by {
                assert(rows_of(out@, u) == rows_of(orig.take(k), u));
            }
            if p < old_out.len() {
                lemma_text_le_total(old_out[p as int].user@, x.user@);
                lemma_text_le_reflexive(x.user@);
            }
        }
        out.insert(p, x);
        proof {
            let n = out@;
            assert forall|i: int, j: int| 0 <= i < j < n.len() implies text_le(
                #[trigger] n[i].user@,
                #[trigger] n[j].user@,
            ) by {
                if i < p && j == p {
                } else if i == p && j > p {
                    assert(n[j] == old_out[j - 1]);
                    if j - 1 > p {
                        assert(text_le(old_out[p as int].user@, old_out[j - 1].user@));
                        lemma_text_le_transitive(x.user@, old_out[p as int].user@, n[j].user@);
                    }
                } else if i < p && j > p {
                    assert(n[j] == old_out[j - 1]);
                    assert(text_le(old_out[i].user@, old_out[j - 1].user@));
                } else if i > p {
                    assert(n[i] == old_out[i - 1]);
                    assert(n[j] == old_out[j - 1]);
                    assert(text_le(old_out[i - 1].user@, old_out[j - 1].user@));
                } else {
                    assert(n[i] == old_out[i]);
                    assert(n[j] == old_out[j]);
                }
            }
            let pre = old_out.take(p as int);
            let post = old_out.skip(p as int);
            assert(n == pre + seq![x] + post);
            assert(old_out == pre + post);
            assert(orig.take(k + 1) == orig.take(k).push(x));
            vstd::seq_lib::to_multiset_insert(old_out, p as int, x);
            vstd::seq_lib::to_multiset_build(orig.take(k), x);
            assert forall|u: Seq<char>| #[trigger] rows_of(n, u) == rows_of(orig.take(k + 1), u) by {
                let f = of_user(u);
                Seq::filter_distributes_over_add(pre + seq![x], post, f);
                Seq::filter_distributes_over_add(pre, seq![x], f);
                Seq::filter_distributes_over_add(pre, post, f);
                orig.take(k).lemma_filter_push(x, f);
                pre.lemma_filter_push(x, f);
                assert(pre + seq![x] == pre.push(x));
                assert(rows_of(old_out, u) == rows_of(orig.take(k), u));
                if x.user@ == u {
                    assert forall|j: int| 0 <= j < post.len() implies (#[trigger] post[j]).user@
                        != u by {
                        assert(post[j] == old_out[p + j]);
                        if j > 0 {
                            assert(text_le(old_out[p as int].user@, old_out[p + j].user@));
                        }
                    }
                    lemma_rows_of_none(post, u);
                    assert(pre.filter(f) + Seq::<Imputation>::empty() == pre.filter(f));
                    assert(pre.filter(f).push(x) + Seq::<Imputation>::empty() == pre.filter(f).push(x));
                } else {
                    assert(!f(x));
                }
            }
            k = k + 1;
        }
    }
    proof {
        assert(orig.take(k) == orig);
    }
    out
}

/// Once the imputations are ordered by user, those of one user stand
/// together: whatever stands between two of them is of that user too, so a
/// run through them changes user (and session) once per user.
pub proof fn lemma_sorted_keeps_users_together(s: Seq<Imputation>, i: int, j: int, k: int)
    requires
        sorted_by_user(s),
        0 <= i < j < k < s.len(),
        s[i].user@ == s[k].user@,
    ensures
        s[j].user@ == s[i].user@,
{
    assert(text_le(s[i].user@, s[j].user@));
    assert(text_le(s[j].user@, s[k].user@));
    lemma_text_le_antisymmetric(s[i].user@, s[j].user@);
}

/// The first credential of `user`, if there is one.
pub fn find_credential(credentials: &Vec<Credential>, user: &String) -> (r: Option<usize>)
    ensures
        match r {
            Some(i) => i < credentials@.len() && credentials@[i as int].user@ == user@
                && forall|j: int| 0 <= j < i ==> (#[trigger] credentials@[j]).user@ != user@,
            None => forall|j: int|
                0 <= j < credentials@.len() ==> (#[trigger] credentials@[j]).user@ != user@,
        },
{
    let mut i: usize = 0;
    while i < credentials.len()
        invariant
            i <= credentials@.len(),
            forall|j: int| 0 <= j < i ==> (#[trigger] credentials@[j]).user@ != user@,
        decreases credentials.len() - i,
    {
        if credentials[i].user == *user {
            return Some(i);
        }
        i += 1;
    }
    None
}

} // verus!
