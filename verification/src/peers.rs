use vstd::prelude::*;

use crate::tailscale::PeerStatus;
use crate::order::{
    class_of, is_strict_weak_order, law_stable_sort_is_unique, law_stable_sort_keeps_the_items,
    sorted_by, stable_sort, tied,
};
use crate::text::{lex_lt, lemma_lex_lt_strict_total, lemma_lex_lt_transitive, str_lt};

verus! {

/// `a` is listed before `b`: online nodes come first, and nodes of the same
/// online status come by host name.
pub open spec fn listed_before(a: PeerStatus, b: PeerStatus) -> bool {
    ||| a.online && !b.online
    ||| a.online == b.online && lex_lt(a.host_name@, b.host_name@)
}

/// Nodes of the same online status and host name: exactly the nodes of
/// which neither is listed before the other (`lemma_tied_is_same_rank`).
pub open spec fn same_rank(a: PeerStatus, b: PeerStatus) -> bool {
    a.online == b.online && a.host_name@ == b.host_name@
}

/// The listing order as a relation.
pub open spec fn peer_order() -> spec_fn(PeerStatus, PeerStatus) -> bool {
    |a: PeerStatus, b: PeerStatus| listed_before(a, b)
}

/// No node of `s` is listed before one that precedes it.
pub open spec fn listed_in_order(s: Seq<PeerStatus>) -> bool {
    sorted_by(peer_order(), s)
}

/// The nodes of `s` of the same rank as `x` (neither listed before the
/// other), in the order in which `s` has them.
pub open spec fn rank_class(s: Seq<PeerStatus>, x: PeerStatus) -> Seq<PeerStatus> {
    class_of(peer_order(), s, x)
}

/// The listing order is a strict weak order whose ties are the nodes of the same rank.
pub proof fn lemma_listing_order(a: PeerStatus, b: PeerStatus, c: PeerStatus)
    ensures
        !listed_before(a, a),
        listed_before(a, b) ==> !listed_before(b, a),
        (!listed_before(a, b) && !listed_before(b, a)) <==> same_rank(a, b),
        listed_before(a, b) && !listed_before(c, b) ==> listed_before(a, c),
        !listed_before(b, a) && listed_before(b, c) ==> listed_before(a, c),
        !listed_before(b, a) && !listed_before(c, b) ==> !listed_before(c, a),
{
    lemma_lex_lt_strict_total(a.host_name@, b.host_name@);
    lemma_lex_lt_strict_total(b.host_name@, c.host_name@);
    lemma_lex_lt_strict_total(a.host_name@, c.host_name@);
    if lex_lt(a.host_name@, b.host_name@) && lex_lt(b.host_name@, c.host_name@) {
        lemma_lex_lt_transitive(a.host_name@, b.host_name@, c.host_name@);
    }
    if lex_lt(c.host_name@, b.host_name@) && lex_lt(b.host_name@, a.host_name@) {
        lemma_lex_lt_transitive(c.host_name@, b.host_name@, a.host_name@);
    }
}

/// The listing order is a strict weak order.
pub proof fn lemma_peer_order_is_strict_weak()
    ensures
        is_strict_weak_order(peer_order()),
{
    let before = peer_order();
    assert forall|a: PeerStatus| !#[trigger] before(a, a) by {
        lemma_listing_order(a, a, a);
    }
    assert forall|a: PeerStatus, b: PeerStatus| #[trigger] before(a, b) implies !before(b, a) by {
        lemma_listing_order(a, b, a);
    }
    assert forall|a: PeerStatus, b: PeerStatus, c: PeerStatus|
        #![trigger before(a, b), before(c, b), before(a, c)]
        before(a, b) && !before(c, b) implies before(a, c) by {
        lemma_listing_order(a, b, c);
    }
    assert forall|a: PeerStatus, b: PeerStatus, c: PeerStatus|
        #![trigger before(b, a), before(b, c), before(a, c)]
        !before(b, a) && before(b, c) implies before(a, c) by {
        lemma_listing_order(a, b, c);
    }
    assert forall|a: PeerStatus, b: PeerStatus, c: PeerStatus|
        #![trigger before(b, a), before(c, b), before(c, a)]
        !before(b, a) && !before(c, b) implies !before(c, a) by {
        lemma_listing_order(a, b, c);
    }
}

/// Two nodes are tied in the listing order exactly when they have the same rank.
pub proof fn lemma_tied_is_same_rank(a: PeerStatus, b: PeerStatus)
    ensures
        tied(peer_order(), a, b) <==> same_rank(a, b),
{
    lemma_listing_order(a, b, a);
}

/// Whether `a` is listed before `b`.
pub fn is_listed_before(a: &PeerStatus, b: &PeerStatus) -> (r: bool)
    ensures
        r == listed_before(*a, *b),
{
    if a.online != b.online {
        a.online
    } else {
        str_lt(a.host_name.as_str(), b.host_name.as_str())
    }
}

/// The nodes in listing order: online ones first, then by host name. Nodes of
/// the same rank keep the order they had.
pub fn sort_peers(peers: Vec<PeerStatus>) -> (sorted: Vec<PeerStatus>)
    ensures
        sorted@.len() == peers@.len(),
        listed_in_order(sorted@),
        forall|x: PeerStatus| #[trigger] rank_class(sorted@, x) == rank_class(peers@, x),
{
    proof {
        lemma_peer_order_is_strict_weak();
    }
    let lt = |a: &PeerStatus, b: &PeerStatus| -> (r: bool)
        ensures
            r == listed_before(*a, *b),
        { is_listed_before(a, b) };
    stable_sort(peers, Ghost(peer_order()), lt)
}

/// Two orderings of the same nodes, each in listing order and each keeping
/// the order of nodes of the same rank, are the same: the listing is unique.
pub proof fn law_listing_is_unique(s1: Seq<PeerStatus>, s2: Seq<PeerStatus>)
    requires
        listed_in_order(s1),
        listed_in_order(s2),
        forall|x: PeerStatus| #[trigger] rank_class(s1, x) == rank_class(s2, x),
    ensures
        s1 == s2,
{
    lemma_peer_order_is_strict_weak();
    assert forall|x: PeerStatus| #[trigger] class_of(peer_order(), s1, x) == class_of(
        peer_order(),
        s2,
        x,
    ) by {
        assert(rank_class(s1, x) == rank_class(s2, x));
    }
    law_stable_sort_is_unique(peer_order(), s1, s2);
}

/// Sorting loses no node and invents none.
pub proof fn law_listing_keeps_the_nodes(sorted: Seq<PeerStatus>, given: Seq<PeerStatus>, x: PeerStatus)
    requires
        forall|y: PeerStatus| #[trigger] rank_class(sorted, y) == rank_class(given, y),
    ensures
        sorted.contains(x) <==> given.contains(x),
{
    lemma_peer_order_is_strict_weak();
    assert forall|y: PeerStatus| #[trigger] class_of(peer_order(), sorted, y) == class_of(
        peer_order(),
        given,
        y,
    ) by {
        assert(rank_class(sorted, y) == rank_class(given, y));
    }
    law_stable_sort_keeps_the_items(peer_order(), sorted, given, x);
}

} // verus!
