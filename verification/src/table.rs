//! The precomputed Gauss-Legendre quadrature table: for each supported
//! order, the nodes and weights of the rule on the canonical domain
//! [-1, 1], in fixed point. Weights of every rule sum to exactly
//! `2 * SCALE`, and nodes and weights alike are palindromic: the node
//! list is its own negated reverse.

use vstd::prelude::*;

use crate::QuadError;
use crate::SCALE;

verus! {

/// Smallest order with a precomputed rule.
pub const MIN_ORDER: usize = 2;

/// Largest order with a precomputed rule.
pub const MAX_ORDER: usize = 12;

/// An ordered list of (node, weight) pairs on [-1, 1], kept as two
/// parallel vectors.
#[derive(Debug)]
pub struct QuadratureRule {
    pub nodes: Vec<i64>,
    pub weights: Vec<i64>,
}

/// Sum of the first `k` entries of a weight list.
pub open spec fn weight_sum(w: Seq<i64>, k: int) -> int
    decreases k,
{
    if k <= 0 {
        0
    } else {
        weight_sum(w, k - 1) + w[k - 1]
    }
}

/// The invariant of every precomputed rule: nodes lie in the canonical
/// domain and are palindromic under negation, weights are positive,
/// palindromic, and sum to exactly 2 (that is, `2 * SCALE`).
pub open spec fn rule_invariant(nodes: Seq<i64>, weights: Seq<i64>) -> bool {
    let n = nodes.len() as int;
    &&& weights.len() == n
    &&& 2 <= n <= 12
    &&& weight_sum(weights, n) == 2 * SCALE
    &&& (forall|i: int| 0 <= i < n ==> 0 < #[trigger] weights[i] <= 2 * SCALE)
    &&& (forall|i: int| 0 <= i < n ==> -SCALE <= #[trigger] nodes[i] <= SCALE)
    &&& (forall|i: int| 0 <= i < n ==> #[trigger] nodes[i] == -nodes[n - 1 - i])
    &&& (forall|i: int| 0 <= i < n ==> #[trigger] weights[i] == weights[n - 1 - i])
}

impl QuadratureRule {
    /// See `rule_invariant`.
    pub open spec fn wf(&self) -> bool {
        rule_invariant(self.nodes@, self.weights@)
    }

    /// The order of the rule: how many points it evaluates.
    pub open spec fn spec_order(&self) -> int {
        self.nodes@.len() as int
    }

    /// The order of the rule: how many points it evaluates.
    pub fn order(&self) -> (n: usize)
        ensures
            n == self.spec_order(),
    {
        self.nodes.len()
    }
}

/// The nodes of the precomputed rule of order `n` (empty outside
/// the supported range).
pub open spec fn node_seq(n: int) -> Seq<i64> {
    if n == 2 {
        seq![-605396i64, 605396i64]
    } else if n == 3 {
        seq![-812223i64, 0i64, 812223i64]
    } else if n == 4 {
        seq![-902967i64, -356496i64, 356496i64, 902967i64]
    } else if n == 5 {
        seq![-950198i64, -564626i64, 0i64, 564626i64, 950198i64]
    } else if n == 6 {
        seq![-977765i64, -693328i64, -250210i64, 250210i64, 693328i64, 977765i64]
    } else if n == 7 {
        seq![-995212i64, -777552i64, -425559i64, 0i64, 425559i64, 777552i64, 995212i64]
    } else if n == 8 {
        seq![-1006937i64, -835365i64, -551061i64, -192345i64, 192345i64, 551061i64, 835365i64, 1006937i64]
    } else if n == 9 {
        seq![-1015190i64, -876642i64, -643167i64, -340004i64, 0i64, 340004i64, 643167i64, 876642i64, 1015190i64]
    } else if n == 10 {
        seq![-1021215i64, -907085i64, -712413i64, -454448i64, -156106i64, 156106i64, 454448i64, 712413i64, 907085i64, 1021215i64]
    } else if n == 11 {
        seq![-1025747i64, -930153i64, -765620i64, -544312i64, -282636i64, 0i64, 282636i64, 544312i64, 765620i64, 930153i64, 1025747i64]
    } else if n == 12 {
        seq![-1029241i64, -948036i64, -807301i64, -615848i64, -385699i64, -131317i64, 131317i64, 385699i64, 615848i64, 807301i64, 948036i64, 1029241i64]
    } else {
        Seq::empty()
    }
}

/// The weights of the precomputed rule of order `n` (empty outside
/// the supported range).
pub open spec fn weight_seq(n: int) -> Seq<i64> {
    if n == 2 {
        seq![1048576i64, 1048576i64]
    } else if n == 3 {
        seq![582542i64, 932068i64, 582542i64]
    } else if n == 4 {
        seq![364752i64, 683824i64, 683824i64, 364752i64]
    } else if n == 5 {
        seq![248436i64, 501879i64, 596522i64, 501879i64, 248436i64]
    } else if n == 6 {
        seq![179647i64, 378286i64, 490643i64, 490643i64, 378286i64, 179647i64]
    } else if n == 7 {
        seq![135775i64, 293292i64, 400378i64, 438262i64, 400378i64, 293292i64, 135775i64]
    } else if n == 8 {
        seq![106146i64, 233183i64, 328945i64, 380302i64, 380302i64, 328945i64, 233183i64, 106146i64]
    } else if n == 9 {
        seq![85222i64, 189423i64, 273270i64, 327520i64, 346282i64, 327520i64, 273270i64, 189423i64, 85222i64]
    } else if n == 10 {
        seq![69910i64, 156711i64, 229729i64, 282347i64, 309879i64, 309879i64, 282347i64, 229729i64, 156711i64, 69910i64]
    } else if n == 11 {
        seq![58373i64, 131681i64, 195339i64, 244521i64, 275571i64, 286182i64, 275571i64, 244521i64, 195339i64, 131681i64, 58373i64]
    } else if n == 12 {
        seq![49467i64, 112134i64, 167854i64, 213036i64, 244835i64, 261250i64, 261250i64, 244835i64, 213036i64, 167854i64, 112134i64, 49467i64]
    } else {
        Seq::empty()
    }
}

/// Every supported order's precomputed data satisfies the rule
/// invariant: weights are positive, sum to exactly `2 * SCALE`, and nodes
/// and weights are palindromic (each node is the negation of its mirror).
pub proof fn lemma_rule_invariant(n: int)
    requires
        2 <= n <= 12,
    ensures
        rule_invariant(node_seq(n), weight_seq(n)),
        node_seq(n).len() == n,
{
    reveal_with_fuel(weight_sum, 13);
}

/// Look up the precomputed rule of order `n`. Orders outside
/// [`MIN_ORDER`, `MAX_ORDER`] have no table entry and are refused.
pub fn rule(n: usize) -> (r: Result<QuadratureRule, QuadError>)
    ensures
        r is Ok <==> MIN_ORDER <= n <= MAX_ORDER,
        r matches Ok(q) ==> q.nodes@ == node_seq(n as int) && q.weights@ == weight_seq(n as int)
            && q.wf() && q.spec_order() == n,
{
    let (nodes, weights): (Vec<i64>, Vec<i64>) = match n {
        2 => (vec![-605396i64, 605396i64], vec![1048576i64, 1048576i64]),
        3 => (vec![-812223i64, 0i64, 812223i64], vec![582542i64, 932068i64, 582542i64]),
        4 => (vec![-902967i64, -356496i64, 356496i64, 902967i64], vec![364752i64, 683824i64, 683824i64, 364752i64]),
        5 => (vec![-950198i64, -564626i64, 0i64, 564626i64, 950198i64], vec![248436i64, 501879i64, 596522i64, 501879i64, 248436i64]),
        6 => (vec![-977765i64, -693328i64, -250210i64, 250210i64, 693328i64, 977765i64], vec![179647i64, 378286i64, 490643i64, 490643i64, 378286i64, 179647i64]),
        7 => (vec![-995212i64, -777552i64, -425559i64, 0i64, 425559i64, 777552i64, 995212i64], vec![135775i64, 293292i64, 400378i64, 438262i64, 400378i64, 293292i64, 135775i64]),
        8 => (vec![-1006937i64, -835365i64, -551061i64, -192345i64, 192345i64, 551061i64, 835365i64, 1006937i64], vec![106146i64, 233183i64, 328945i64, 380302i64, 380302i64, 328945i64, 233183i64, 106146i64]),
        9 => (vec![-1015190i64, -876642i64, -643167i64, -340004i64, 0i64, 340004i64, 643167i64, 876642i64, 1015190i64], vec![85222i64, 189423i64, 273270i64, 327520i64, 346282i64, 327520i64, 273270i64, 189423i64, 85222i64]),
        10 => (vec![-1021215i64, -907085i64, -712413i64, -454448i64, -156106i64, 156106i64, 454448i64, 712413i64, 907085i64, 1021215i64], vec![69910i64, 156711i64, 229729i64, 282347i64, 309879i64, 309879i64, 282347i64, 229729i64, 156711i64, 69910i64]),
        11 => (vec![-1025747i64, -930153i64, -765620i64, -544312i64, -282636i64, 0i64, 282636i64, 544312i64, 765620i64, 930153i64, 1025747i64], vec![58373i64, 131681i64, 195339i64, 244521i64, 275571i64, 286182i64, 275571i64, 244521i64, 195339i64, 131681i64, 58373i64]),
        12 => (vec![-1029241i64, -948036i64, -807301i64, -615848i64, -385699i64, -131317i64, 131317i64, 385699i64, 615848i64, 807301i64, 948036i64, 1029241i64], vec![49467i64, 112134i64, 167854i64, 213036i64, 244835i64, 261250i64, 261250i64, 244835i64, 213036i64, 167854i64, 112134i64, 49467i64]),
        _ => {
            return Err(QuadError::UnsupportedOrder);
        },
    };
    proof {
        lemma_rule_invariant(n as int);
        assert(nodes@ =~= node_seq(n as int));
        assert(weights@ =~= weight_seq(n as int));
    }
    Ok(QuadratureRule { nodes, weights })
}

} // verus!
