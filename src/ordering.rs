//! The date order of a folder's cached envelopes: most recent first, and
//! those without a readable date last.
use crate::model::Envelope;
use vstd::multiset::Multiset;
use vstd::prelude::*;

verus! {

/// The instant, in seconds since the Unix epoch, that chrono reads from a
/// date written as `YYYY-MM-DD HH:MM` with a numeric UTC offset (`+01:00`);
/// `None` where the text does not have that form. It depends on the text alone.
pub uninterp spec fn date_instant(s: Seq<char>) -> Option<i64>;

/// Relies on chrono's `DateTime::parse_from_str` with the pattern
/// `%Y-%m-%d %H:%M%:z`, and on `DateTime::timestamp` for the instant it names.
#[verifier::external_body]
fn parse_date(s: &str) -> (r: Option<i64>)
    ensures
        r == date_instant(s@),
{
    match chrono::DateTime::parse_from_str(s, "%Y-%m-%d %H:%M%:z") {
        Ok(d) => Some(d.timestamp()),
        Err(_) => None,
    }
}

/// The key an envelope is ordered by: the instant of its date, or `None`
/// where the date is absent or unreadable.
pub open spec fn date_rank(e: Envelope) -> Option<i64> {
    match e.date {
        Some(d) => date_instant(d@),
        None => None,
    }
}

/// `a` comes no later than `b` in the listing: `None` ranks lowest.
pub open spec fn rank_ge(a: Option<i64>, b: Option<i64>) -> bool {
    match (a, b) {
        (_, None) => true,
        (None, Some(_)) => false,
        (Some(x), Some(y)) => x >= y,
    }
}

pub open spec fn sorted_by_date(s: Seq<Envelope>) -> bool {
    forall|i: int, j: int| 0 <= i < j < s.len() ==> rank_ge(date_rank(s[i]), date_rank(s[j]))
}

/// The ordering key of one envelope.
pub fn envelope_date_rank(e: &Envelope) -> (r: Option<i64>)
    ensures
        r == date_rank(*e),
{
    match &e.date {
        Some(d) => parse_date(d.as_str()),
        None => None,
    }
}

fn ranks_below(a: Option<i64>, b: Option<i64>) -> (r: bool)
    ensures
        r == !rank_ge(a, b),
{
    match (a, b) {
        (_, None) => false,
        (None, Some(_)) => true,
        (Some(x), Some(y)) => x < y,
    }
}

/// Each envelope beside its rank.
pub open spec fn ranked(envelopes: Seq<Envelope>, ranks: Seq<Option<i64>>) -> Seq<(Option<i64>, Envelope)> {
    Seq::new(envelopes.len(), |i: int| (ranks[i], envelopes[i]))
}

pub open spec fn ranks_descending(ranks: Seq<Option<i64>>) -> bool {
    forall|i: int, j: int| 0 <= i < j < ranks.len() ==> rank_ge(ranks[i], ranks[j])
}

/// The envelopes reordered by the rank given for each (`ranks[i]` is the rank
/// of `envelopes[i]`), highest first, `None` last; with the ranks in the same
/// new order.
pub fn order_by_rank(envelopes: Vec<Envelope>, ranks: Vec<Option<i64>>) -> (r: (Vec<Envelope>, Vec<Option<i64>>))
    requires
        ranks@.len() == envelopes@.len(),
    ensures
        r.0@.len() == r.1@.len() == envelopes@.len(),
        ranked(r.0@, r.1@).to_multiset() == ranked(envelopes@, ranks@).to_multiset(),
        ranks_descending(r.1@),
{
    broadcast use vstd::seq_lib::group_to_multiset_ensures;
    let ghost orig = ranked(envelopes@, ranks@);
    let mut rest = envelopes;
    let mut rest_ranks = ranks;
    let mut out: Vec<Envelope> = Vec::new();
    let mut keys: Vec<Option<i64>> = Vec::new();
    assert(ranked(rest@, rest_ranks@) =~= orig);
    assert(ranked(out@, keys@) =~= Seq::<(Option<i64>, Envelope)>::empty());
    while rest.len() > 0
        invariant
            keys@.len() == out@.len(),
            rest_ranks@.len() == rest@.len(),
            ranks_descending(keys@),
            ranked(out@, keys@).to_multiset().add(ranked(rest@, rest_ranks@).to_multiset()) == orig.to_multiset(),
            out@.len() + rest@.len() == orig.len(),
        decreases rest@.len(),
    {
        let ghost rest_before = ranked(rest@, rest_ranks@);
        let ghost out_before = ranked(out@, keys@);
        let e = rest.remove(0);
        let k = rest_ranks.remove(0);
        assert(rest_before =~= ranked(rest@, rest_ranks@).insert(0, (k, e)));
        proof {
            vstd::seq_lib::to_multiset_insert(ranked(rest@, rest_ranks@), 0, (k, e));
        }
        let mut p: usize = 0;
        while p < keys.len() && !ranks_below(keys[p], k)
            invariant
                p <= keys@.len(),
                forall|q: int| 0 <= q < p ==> rank_ge(keys@[q], k),
            decreases keys@.len() - p,
        {
            p = p + 1;
        }
        let ghost keys_before = keys@;
        assert(p < keys@.len() ==> !rank_ge(keys@[p as int], k));
        out.insert(p, e);
        keys.insert(p, k);
        assert(keys@ =~= keys_before.insert(p as int, k));
        assert(ranked(out@, keys@) =~= out_before.insert(p as int, (k, e)));
        proof {
            vstd::seq_lib::to_multiset_insert(out_before, p as int, (k, e));
        }
        assert forall|i: int, j: int| 0 <= i < j < keys@.len() implies rank_ge(keys@[i], keys@[j]) by {
            let pi = p as int;
            if j < pi {
                assert(keys@[i] == keys_before[i] && keys@[j] == keys_before[j]);
            } else if j == pi {
                assert(keys@[i] == keys_before[i] && keys@[j] == k);
            } else {
                assert(keys@[j] == keys_before[j - 1]);
                assert(rank_ge(keys_before[pi], keys_before[j - 1]) || pi == j - 1);
                if i < pi {
                    assert(keys@[i] == keys_before[i]);
                    assert(rank_ge(keys_before[i], keys_before[j - 1]));
                } else if i == pi {
                    assert(keys@[i] == k);
                } else {
                    assert(keys@[i] == keys_before[i - 1]);
                }
            }
        }
        assert(ranked(out@, keys@).to_multiset().add(ranked(rest@, rest_ranks@).to_multiset()) =~= orig.to_multiset());
    }
    assert(ranked(rest@, rest_ranks@).to_multiset() =~= Multiset::empty());
    assert(ranked(out@, keys@).to_multiset() =~= orig.to_multiset());
    (out, keys)
}

pub open spec fn with_date_rank(e: Envelope) -> (Option<i64>, Envelope) {
    (date_rank(e), e)
}

proof fn lemma_rank_pairs_count(s: Seq<Envelope>, e: Envelope)
    ensures
        s.map_values(|x: Envelope| with_date_rank(x)).to_multiset().count(with_date_rank(e)) == s.to_multiset().count(e),
    decreases s.len(),
{
    broadcast use vstd::seq_lib::group_to_multiset_ensures;
    let f = |x: Envelope| with_date_rank(x);
    if s.len() > 0 {
        let t = s.drop_last();
        lemma_rank_pairs_count(t, e);
        assert(s =~= t.push(s.last()));
        assert(s.map_values(f) =~= t.map_values(f).push(f(s.last())));
        vstd::seq_lib::to_multiset_build(t, s.last());
        vstd::seq_lib::to_multiset_build(t.map_values(f), f(s.last()));
    }
}

/// The envelopes ordered by date, most recent first; those without a
/// readable date come last.
pub fn order_by_date(envelopes: Vec<Envelope>) -> (r: Vec<Envelope>)
    ensures
        r@.to_multiset() == envelopes@.to_multiset(),
        r@.len() == envelopes@.len(),
        sorted_by_date(r@),
{
    broadcast use vstd::seq_lib::group_to_multiset_ensures;
    let mut ranks: Vec<Option<i64>> = Vec::new();
    let mut i: usize = 0;
    while i < envelopes.len()
        invariant
            i <= envelopes@.len(),
            ranks@.len() == i,
            forall|j: int| 0 <= j < i ==> ranks@[j] == date_rank(envelopes@[j]),
        decreases envelopes@.len() - i,
    {
        ranks.push(envelope_date_rank(&envelopes[i]));
        i = i + 1;
    }
    let ghost input = envelopes@;
    let ghost f = |x: Envelope| with_date_rank(x);
    assert(ranked(input, ranks@) =~= input.map_values(f));
    let (out, keys) = order_by_rank(envelopes, ranks);
    let ghost pairs = ranked(out@, keys@);
    assert forall|i: int| 0 <= i < out@.len() implies keys@[i] == date_rank(out@[i]) by {
        assert(pairs[i] == (keys@[i], out@[i]));
        assert(pairs.to_multiset().count(pairs[i]) > 0) by {
            assert(pairs.contains(pairs[i]));
        }
        assert(input.map_values(f).contains(pairs[i]));
    }
    assert(pairs =~= out@.map_values(f));
    assert(out@.to_multiset() =~= input.to_multiset()) by {
        assert forall|e: Envelope| out@.to_multiset().count(e) == input.to_multiset().count(e) by {
            lemma_rank_pairs_count(out@, e);
            lemma_rank_pairs_count(input, e);
        }
    }
    assert forall|i: int, j: int| 0 <= i < j < out@.len() implies rank_ge(date_rank(out@[i]), date_rank(out@[j])) by {
        assert(rank_ge(keys@[i], keys@[j]));
    }
    out
}

} // verus!
