//! Acyclic rules that reconstruct dependent decision variables after
//! solving, and the order in which they are evaluated.
use crate::btree_keys::keys_of;
use crate::dependent_expr::DependentExpr;
use crate::ids::VariableID;
use petgraph::graphmap::GraphMap;
use petgraph::Directed;
use std::collections::hash_map::DefaultHasher;
use std::collections::{BTreeMap, BTreeSet};
use std::hash::BuildHasherDefault;
use crate::function_ids::{used_ids_spec, FunctionTerms};
use vstd::prelude::*;

verus! {

broadcast use vstd::std_specs::btree::group_btree_axioms;

/// `order` lists every node of `nodes` once, and each edge goes from an
/// earlier node to a later one.
pub open spec fn is_topological_order(order: Seq<u64>, nodes: Set<u64>, edges: Seq<(u64, u64)>) -> bool {
    &&& order.no_duplicates()
    &&& forall|x: u64| order.contains(x) <==> nodes.contains(x)
    &&& forall|i: int, j: int|
        0 <= i < order.len() && 0 <= j < order.len() && #[trigger] edges.contains((order[i], order[j])) ==> i < j
}

/// The nodes of a graph given by a node list and an edge list: the listed
/// nodes and every endpoint of an edge.
pub open spec fn graph_nodes(nodes: Seq<u64>, edges: Seq<(u64, u64)>) -> Set<u64> {
    Set::new(
        |x: u64|
            nodes.contains(x) || (exists|a: u64| #[trigger] edges.contains((a, x))) || (exists|b: u64|
                #[trigger] edges.contains((x, b))),
    )
}

/// The graph can be ordered topologically, i.e. it has no cycle.
pub open spec fn has_topological_order(nodes: Set<u64>, edges: Seq<(u64, u64)>) -> bool {
    exists|order: Seq<u64>| is_topological_order(order, nodes, edges)
}

/// What `petgraph::algo::toposort` returns for the graph built from these
/// nodes and then these edges.
pub uninterp spec fn petgraph_toposort(nodes: Seq<u64>, edges: Seq<(u64, u64)>) -> Option<Seq<u64>>;

/// Builds a directed `petgraph` graph map from the nodes, then the edges
/// (which add their endpoints as nodes), and sorts it with
/// `petgraph::algo::toposort`. As its documentation says, a success lists
/// the nodes in topological order, each node before its successors, and the
/// error comes exactly when the graph has a cycle, self loops included. Which
/// of several valid orders comes back is left to the named result.
#[verifier::external_body]
fn toposort(nodes: &Vec<u64>, edges: &Vec<(u64, u64)>) -> (r: Option<Vec<u64>>)
    ensures
        match r {
            Some(order) => petgraph_toposort(nodes@, edges@) == Some(order@) && is_topological_order(
                order@,
                graph_nodes(nodes@, edges@),
                edges@,
            ),
            None => petgraph_toposort(nodes@, edges@) is None && !has_topological_order(graph_nodes(nodes@, edges@), edges@),
        },
{
    let mut graph: GraphMap<u64, (), Directed, BuildHasherDefault<DefaultHasher>> = GraphMap::new();
    for n in nodes.iter() {
        graph.add_node(*n);
    }
    for (a, b) in edges.iter() {
        graph.add_edge(*a, *b, ());
    }
    petgraph::algo::toposort(&graph, None).ok()
}

/// The rule that reconstructs one dependent variable: its expression and the
/// decision variables that expression reads.
#[derive(Debug)]
pub struct DependencyRule<F> {
    pub expression: DependentExpr<F>,
    pub required: Vec<u64>,
}

impl<F> DependencyRule<F> {
    /// The rule whose expression reads exactly the variables in the terms of
    /// its function, listed once each in increasing order.
    pub fn reading(expression: DependentExpr<F>, terms: &FunctionTerms) -> (r: Self)
        ensures
            r.expression == expression,
            r.required@.to_set() == used_ids_spec(*terms),
            forall|i: int, j: int| 0 <= i < j < r.required@.len() ==> r.required@[i] < r.required@[j],
    {
        DependencyRule { expression, required: terms.used_ids_in_order() }
    }
}

/// Why a set of reconstruction rules was refused.
#[derive(Clone, Copy, PartialEq, Eq, Structural, Debug)]
pub enum SubstitutionError {
    /// The rule of this variable reads the variable itself.
    RecursiveAssignment { var_id: VariableID },
    /// The rules depend on each other in a cycle.
    CyclicAssignmentDetected,
}

/// The rule of `a` reads `b`.
pub open spec fn requires_var<F>(m: Map<u64, DependencyRule<F>>, a: u64, b: u64) -> bool {
    m.contains_key(a) && m[a].required@.contains(b)
}

/// The variables of the rules: the dependent ones and every one they read.
pub open spec fn dependency_nodes<F>(m: Map<u64, DependencyRule<F>>) -> Set<u64> {
    Set::new(|x: u64| m.contains_key(x) || exists|a: u64| #[trigger] requires_var(m, a, x))
}

/// The rules can be ordered so that every variable comes before the ones its
/// rule reads: they have no cycle.
pub open spec fn dependencies_acyclic<F>(m: Map<u64, DependencyRule<F>>) -> bool {
    exists|order: Seq<u64>|
        {
            &&& order.no_duplicates()
            &&& forall|x: u64| order.contains(x) <==> dependency_nodes(m).contains(x)
            &&& forall|i: int, j: int|
                0 <= i < order.len() && 0 <= j < order.len() && #[trigger] requires_var(m, order[i], order[j]) ==> i < j
        }
}

/// `order` lists every dependent variable once, each before the dependent
/// variables its rule reads.
pub open spec fn is_dependency_order<F>(order: Seq<u64>, m: Map<u64, DependencyRule<F>>) -> bool {
    &&& order.no_duplicates()
    &&& forall|x: u64| order.contains(x) <==> m.contains_key(x)
    &&& forall|i: int, j: int| 0 <= i < order.len() && 0 <= j < order.len() && #[trigger] requires_var(m, order[i], order[j]) ==> i < j
}

/// `a` is one of the first `n` keys.
spec fn among_first(keys: Seq<u64>, n: int, a: u64) -> bool {
    exists|t: int| 0 <= t < n && #[trigger] keys[t] == a
}

/// The rules keyed by variable; a later rule for the same variable replaces
/// an earlier one.
pub open spec fn rules_map<F>(rules: Seq<(VariableID, DependencyRule<F>)>) -> Map<u64, DependencyRule<F>>
    decreases rules.len(),
{
    if rules.len() == 0 {
        Map::empty()
    } else {
        rules_map(rules.drop_last()).insert(rules.last().0.0, rules.last().1)
    }
}

/// Acyclic rules reconstructing dependent decision variables, with a cached
/// order in which every variable comes before the variables its rule reads.
pub struct DecisionVariableDependencies<F> {
    dependencies: BTreeMap<u64, DependencyRule<F>>,
    topological_order: Vec<u64>,
}

/// Whether the rule reads the variable it defines.
fn reads_itself<F>(k: u64, rule: &DependencyRule<F>) -> (r: bool)
    ensures
        r == rule.required@.contains(k),
{
    let mut i: usize = 0;
    while i < rule.required.len()
        invariant
            i <= rule.required@.len(),
            forall|j: int| 0 <= j < i ==> rule.required@[j] != k,
        decreases rule.required@.len() - i,
    {
        if rule.required[i] == k {
            assert(rule.required@[i as int] == k);
            return true;
        }
        i = i + 1;
    }
    false
}

proof fn lemma_orders_agree<F>(m: Map<u64, DependencyRule<F>>, keys: Seq<u64>, edges: Seq<(u64, u64)>)
    requires
        forall|k: u64| m.contains_key(k) <==> keys.contains(k),
        forall|a: u64, b: u64| edges.contains((a, b)) <==> requires_var(m, a, b),
    ensures
        graph_nodes(keys, edges) == dependency_nodes(m),
        has_topological_order(graph_nodes(keys, edges), edges) <==> dependencies_acyclic(m),
{
    assert forall|x: u64| graph_nodes(keys, edges).contains(x) <==> dependency_nodes(m).contains(x) by {
        if exists|a: u64| #[trigger] edges.contains((a, x)) {
            let a = choose|a: u64| #[trigger] edges.contains((a, x));
            assert(requires_var(m, a, x));
        }
        if exists|b: u64| #[trigger] edges.contains((x, b)) {
            let b = choose|b: u64| #[trigger] edges.contains((x, b));
            assert(requires_var(m, x, b));
        }
        if exists|a: u64| #[trigger] requires_var(m, a, x) {
            let a = choose|a: u64| #[trigger] requires_var(m, a, x);
            assert(edges.contains((a, x)));
        }
    }
    assert(graph_nodes(keys, edges) =~= dependency_nodes(m));
    if has_topological_order(graph_nodes(keys, edges), edges) {
        let order = choose|order: Seq<u64>| is_topological_order(order, graph_nodes(keys, edges), edges);
        assert forall|i: int, j: int|
            0 <= i < order.len() && 0 <= j < order.len() && #[trigger] requires_var(m, order[i], order[j]) implies i < j by {
            assert(edges.contains((order[i], order[j])));
        }
    }
    if dependencies_acyclic(m) {
        let order = choose|order: Seq<u64>|
            {
                &&& order.no_duplicates()
                &&& forall|x: u64| order.contains(x) <==> dependency_nodes(m).contains(x)
                &&& forall|i: int, j: int|
                    0 <= i < order.len() && 0 <= j < order.len() && #[trigger] requires_var(m, order[i], order[j]) ==> i < j
            };
        assert forall|i: int, j: int|
            0 <= i < order.len() && 0 <= j < order.len() && #[trigger] edges.contains((order[i], order[j])) implies i < j by {
            assert(requires_var(m, order[i], order[j]));
        }
        assert(is_topological_order(order, graph_nodes(keys, edges), edges));
    }
}

impl<F> DecisionVariableDependencies<F> {
    /// The rules, keyed by dependent variable.
    pub closed spec fn rules(&self) -> Map<u64, DependencyRule<F>> {
        self.dependencies@
    }

    /// The cached order: every dependent variable before the ones it reads.
    pub closed spec fn order(&self) -> Seq<u64> {
        self.topological_order@
    }

    #[verifier::type_invariant]
    closed spec fn inv(&self) -> bool {
        is_dependency_order(self.order(), self.rules())
    }

    /// Validates the rules and builds their dependency order. A later rule for
    /// the same variable replaces an earlier one. A rule that reads its own
    /// variable is refused (the smallest such variable is reported); rules that
    /// depend on each other in a longer cycle are refused as cyclic.
    pub fn new(rules: Vec<(VariableID, DependencyRule<F>)>) -> (r: Result<Self, SubstitutionError>)
        ensures
            ({
                let m = rules_map(rules@);
                match r {
                    Ok(d) => {
                        &&& d.rules() == m
                        &&& is_dependency_order(d.order(), m)
                        &&& dependencies_acyclic(m)
                    },
                    Err(SubstitutionError::RecursiveAssignment { var_id }) => {
                        &&& requires_var(m, var_id.0, var_id.0)
                        &&& forall|k: u64| k < var_id.0 ==> !requires_var(m, k, k)
                    },
                    Err(SubstitutionError::CyclicAssignmentDetected) => {
                        &&& forall|k: u64| !requires_var(m, k, k)
                        &&& !dependencies_acyclic(m)
                    },
                }
            }),
    {
        let ghost all = rules@;
        let mut m: BTreeMap<u64, DependencyRule<F>> = BTreeMap::new();
        let mut rest = rules;
        let ghost mut taken: int = 0;
        while rest.len() > 0
            invariant
                0 <= taken <= all.len(),
                all == rules@,
                rest@ == all.subrange(taken, all.len() as int),
                m@ == rules_map(all.subrange(0, taken)),
            decreases rest@.len(),
        {
            let (id, rule) = rest.remove(0);
            proof {
                assert(all.subrange(0, taken + 1).drop_last() =~= all.subrange(0, taken));
                assert(all.subrange(0, taken + 1).last() == all[taken]);
                taken = taken + 1;
                assert(rest@ =~= all.subrange(taken, all.len() as int));
            }
            m.insert(id.0, rule);
        }
        proof {
            assert(all.subrange(0, taken) =~= all);
        }
        let ghost mm = m@;
        let keys = keys_of(&m);
        let mut edges: Vec<(u64, u64)> = Vec::new();
        let mut i: usize = 0;
        while i < keys.len()
            invariant
                mm == m@,
                mm == rules_map(all),
                all == rules@,
                i <= keys@.len(),
                forall|k: u64| mm.contains_key(k) <==> keys@.contains(k),
                forall|a: int, b: int| 0 <= a < b < keys@.len() ==> keys@[a] < keys@[b],
                forall|t: int| 0 <= t < i ==> !requires_var(mm, #[trigger] keys@[t], keys@[t]),
                forall|a: u64, b: u64|
                    edges@.contains((a, b)) <==> (requires_var(mm, a, b) && among_first(keys@, i as int, a)),
            decreases keys@.len() - i,
        {
            let k = keys[i];
            proof {
                assert(keys@.contains(k));
            }
            let rule = match m.get(&k) {
                Some(rule) => rule,
                None => {
                    proof {
                        assert(false);
                    }
                    return Err(SubstitutionError::CyclicAssignmentDetected);
                },
            };
            if reads_itself(k, rule) {
                proof {
                    assert forall|kk: u64| kk < k implies !requires_var(mm, kk, kk) by {
                        if mm.contains_key(kk) {
                            assert(keys@.contains(kk));
                            let p = choose|p: int| 0 <= p < keys@.len() && keys@[p] == kk;
                            if p >= i {
                                assert(keys@[i as int] <= keys@[p]);
                            }
                        }
                    }
                }
                return Err(SubstitutionError::RecursiveAssignment { var_id: VariableID(k) });
            }
            let mut j: usize = 0;
            let ghost before = edges@;
            assert(forall|a: u64, b: u64|
                #[trigger] before.contains((a, b)) <==> (requires_var(mm, a, b) && among_first(keys@, i as int, a)));
            while j < rule.required.len()
                invariant
                    mm == m@,
                    mm.contains_key(k),
                    *rule == mm[k],
                    j <= rule.required@.len(),
                    edges@ == before + rule.required@.subrange(0, j as int).map_values(|b: u64| (k, b)),
                decreases rule.required@.len() - j,
            {
                edges.push((k, rule.required[j]));
                j = j + 1;
                assert(edges@ =~= before + rule.required@.subrange(0, j as int).map_values(|b: u64| (k, b)));
            }
            proof {
                let ext = rule.required@.map_values(|b: u64| (k, b));
                assert(rule.required@.subrange(0, j as int) =~= rule.required@);
                assert(edges@ == before + ext);
                assert forall|a: u64, b: u64|
                    edges@.contains((a, b)) <==> (requires_var(mm, a, b) && among_first(keys@, i + 1, a)) by {
                    if edges@.contains((a, b)) {
                        let q = choose|q: int| 0 <= q < edges@.len() && edges@[q] == (a, b);
                        if q < before.len() {
                            assert(before[q] == (a, b));
                            assert(before.contains((a, b)));
                            let t = choose|t: int| 0 <= t < i && #[trigger] keys@[t] == a;
                            assert(0 <= t < i + 1 && keys@[t] == a);
                        } else {
                            let r = q - before.len();
                            assert(ext[r] == (a, b));
                            assert(rule.required@[r] == b);
                            assert(rule.required@.contains(b));
                            assert(0 <= i < i + 1 && keys@[i as int] == a);
                        }
                    }
                    if requires_var(mm, a, b) && among_first(keys@, i + 1, a) {
                        let t = choose|t: int| 0 <= t < i + 1 && #[trigger] keys@[t] == a;
                        if t < i {
                            assert(keys@[t] == a);
                            assert(before.contains((a, b)));
                            let q = choose|q: int| 0 <= q < before.len() && before[q] == (a, b);
                            assert(edges@[q] == (a, b));
                        } else {
                            assert(a == k);
                            let r = choose|r: int| 0 <= r < rule.required@.len() && rule.required@[r] == b;
                            assert(ext[r] == (a, b));
                            assert(edges@[before.len() + r] == (a, b));
                        }
                    }
                }
            }
            i = i + 1;
        }
        proof {
            assert forall|a: u64, b: u64| edges@.contains((a, b)) <==> requires_var(mm, a, b) by {
                if requires_var(mm, a, b) {
                    assert(keys@.contains(a));
                    let t = choose|t: int| 0 <= t < keys@.len() && keys@[t] == a;
                }
            }
            assert forall|k: u64| !requires_var(mm, k, k) by {
                if mm.contains_key(k) {
                    assert(keys@.contains(k));
                    let t = choose|t: int| 0 <= t < keys@.len() && keys@[t] == k;
                    assert(!requires_var(mm, keys@[t], keys@[t]));
                }
            }
            lemma_orders_agree(mm, keys@, edges@);
        }
        let order = match toposort(&keys, &edges) {
            Some(order) => order,
            None => {
                return Err(SubstitutionError::CyclicAssignmentDetected);
            },
        };
        let ghost full = order@;
        let mut topological_order: Vec<u64> = Vec::new();
        let ghost mut pos: Seq<int> = Seq::empty();
        let mut p: usize = 0;
        while p < order.len()
            invariant
                full == order@,
                mm == m@,
                is_topological_order(full, graph_nodes(keys@, edges@), edges@),
                forall|k: u64| mm.contains_key(k) <==> keys@.contains(k),
                forall|a: u64, b: u64| edges@.contains((a, b)) <==> requires_var(mm, a, b),
                p <= full.len(),
                pos.len() == topological_order@.len(),
                forall|t: int| 0 <= t < pos.len() ==> 0 <= #[trigger] pos[t] < p && full[pos[t]] == topological_order@[t],
                forall|s: int, t: int| 0 <= s < t < pos.len() ==> pos[s] < pos[t],
                forall|q: int| 0 <= q < p && mm.contains_key(full[q]) ==> exists|t: int| 0 <= t < pos.len() && pos[t] == q,
                forall|t: int| 0 <= t < topological_order@.len() ==> mm.contains_key(#[trigger] topological_order@[t]),
            decreases full.len() - p,
        {
            let x = order[p];
            let ghost old_pos = pos;
            if m.contains_key(&x) {
                topological_order.push(x);
                proof {
                    pos = pos.push(p as int);
                }
            }
            proof {
                assert forall|q: int| 0 <= q < p + 1 && mm.contains_key(full[q]) implies exists|t: int|
                    0 <= t < pos.len() && pos[t] == q by {
                    if q < p {
                        let t = choose|t: int| 0 <= t < old_pos.len() && old_pos[t] == q;
                        assert(pos[t] == q);
                    } else {
                        assert(pos[pos.len() - 1] == q);
                    }
                }
            }
            p = p + 1;
        }
        proof {
            assert(has_topological_order(graph_nodes(keys@, edges@), edges@));
            let out = topological_order@;
            assert(out.no_duplicates()) by {
                assert forall|s: int, t: int| 0 <= s < out.len() && 0 <= t < out.len() && s != t implies out[s] != out[t] by {
                    assert(pos[s] != pos[t]);
                    assert(full[pos[s]] != full[pos[t]]);
                }
            }
            assert forall|x: u64| out.contains(x) <==> mm.contains_key(x) by {
                if mm.contains_key(x) {
                    assert(keys@.contains(x));
                    assert(graph_nodes(keys@, edges@).contains(x));
                    assert(full.contains(x));
                    let q = choose|q: int| 0 <= q < full.len() && full[q] == x;
                    let t = choose|t: int| 0 <= t < pos.len() && pos[t] == q;
                    assert(out[t] == x);
                }
                if out.contains(x) {
                    let t = choose|t: int| 0 <= t < out.len() && out[t] == x;
                }
            }
            assert forall|s: int, t: int|
                0 <= s < out.len() && 0 <= t < out.len() && #[trigger] requires_var(mm, out[s], out[t]) implies s < t by {
                assert(edges@.contains((full[pos[s]], full[pos[t]])));
                assert(pos[s] < pos[t]);
                if t <= s {
                    if t < s {
                        assert(pos[t] < pos[s]);
                    }
                }
            }
        }
        Ok(DecisionVariableDependencies { dependencies: m, topological_order })
    }


    /// Whether no dependent variable is registered.
    pub fn is_empty(&self) -> (r: bool)
        ensures
            r == self.rules().is_empty(),
    {
        let r = self.dependencies.is_empty();
        proof {
            if !r {
                let k = choose|k: u64| self.rules().contains_key(k);
                assert(self.rules().dom().contains(k));
            }
        }
        r
    }

    /// The number of dependent variables.
    pub fn len(&self) -> (r: usize)
        ensures
            r == self.rules().len(),
    {
        self.dependencies.len()
    }

    /// The reconstruction expression of a dependent variable.
    pub fn get(&self, id: &VariableID) -> (r: Option<&DependentExpr<F>>)
        ensures
            match r {
                Some(e) => self.rules().contains_key(id.0) && *e == self.rules()[id.0].expression,
                None => !self.rules().contains_key(id.0),
            },
    {
        match self.dependencies.get(&id.0) {
            Some(rule) => Some(&rule.expression),
            None => None,
        }
    }

    /// The dependent variables, in increasing order of ID.
    pub fn keys(&self) -> (r: Vec<VariableID>)
        ensures
            forall|k: u64| self.rules().contains_key(k) <==> exists|i: int| 0 <= i < r@.len() && (#[trigger] r@[i]).0 == k,
            forall|i: int, j: int| 0 <= i < j < r@.len() ==> r@[i].0 < r@[j].0,
    {
        let raw = keys_of(&self.dependencies);
        let mut out: Vec<VariableID> = Vec::new();
        let mut i: usize = 0;
        while i < raw.len()
            invariant
                i <= raw@.len(),
                out@.len() == i,
                forall|t: int| 0 <= t < i ==> (#[trigger] out@[t]).0 == raw@[t],
            decreases raw@.len() - i,
        {
            out.push(VariableID(raw[i]));
            i = i + 1;
        }
        proof {
            assert forall|k: u64| self.rules().contains_key(k) implies exists|i: int| 0 <= i < out@.len() && (#[trigger] out@[i]).0 == k by {
                assert(raw@.contains(k));
                let t = choose|t: int| 0 <= t < raw@.len() && raw@[t] == k;
                assert(out@[t].0 == k);
            }
            assert forall|k: u64| (exists|i: int| 0 <= i < out@.len() && (#[trigger] out@[i]).0 == k) implies self.rules().contains_key(k) by {
                let t = choose|t: int| 0 <= t < out@.len() && (#[trigger] out@[t]).0 == k;
                assert(raw@[t] == k);
                assert(raw@.contains(k));
            }
        }
        out
    }

    /// Every variable that some rule reads, dependent variables included.
    pub fn required_ids(&self) -> (r: BTreeSet<u64>)
        ensures
            forall|x: u64| r@.contains(x) <==> exists|a: u64| #[trigger] requires_var(self.rules(), a, x),
    {
        let raw = keys_of(&self.dependencies);
        let mut out: BTreeSet<u64> = BTreeSet::new();
        let mut i: usize = 0;
        while i < raw.len()
            invariant
                i <= raw@.len(),
                forall|k: u64| self.rules().contains_key(k) <==> raw@.contains(k),
                forall|x: u64| out@.contains(x) <==> exists|t: int| 0 <= t < i && #[trigger] requires_var(self.rules(), raw@[t], x),
            decreases raw@.len() - i,
        {
            let k = raw[i];
            proof {
                assert(raw@.contains(k));
            }
            if let Some(rule) = self.dependencies.get(&k) {
                let ghost before = out@;
                let mut j: usize = 0;
                while j < rule.required.len()
                    invariant
                        j <= rule.required@.len(),
                        out@ == before + rule.required@.subrange(0, j as int).to_set(),
                    decreases rule.required@.len() - j,
                {
                    out.insert(rule.required[j]);
                    proof {
                        assert(rule.required@.subrange(0, j + 1) =~= rule.required@.subrange(0, j as int).push(rule.required@[j as int]));
                        rule.required@.subrange(0, j as int).lemma_push_to_set_commute(rule.required@[j as int]);
                        assert(out@ =~= before + rule.required@.subrange(0, j + 1).to_set());
                    }
                    j = j + 1;
                }
                proof {
                    assert(rule.required@.subrange(0, j as int) =~= rule.required@);
                    assert forall|x: u64| out@.contains(x) <==> exists|t: int| 0 <= t < i + 1 && #[trigger] requires_var(self.rules(), raw@[t], x) by {
                        if rule.required@.to_set().contains(x) {
                            assert(requires_var(self.rules(), raw@[i as int], x));
                        }
                        if exists|t: int| 0 <= t < i + 1 && #[trigger] requires_var(self.rules(), raw@[t], x) {
                            let t = choose|t: int| 0 <= t < i + 1 && #[trigger] requires_var(self.rules(), raw@[t], x);
                            if t == i {
                                assert(rule.required@.to_set().contains(x));
                            } else {
                                assert(before.contains(x));
                            }
                        }
                    }
                }
            }
            i = i + 1;
        }
        proof {
            assert forall|x: u64| (exists|a: u64| #[trigger] requires_var(self.rules(), a, x)) implies out@.contains(x) by {
                let a = choose|a: u64| #[trigger] requires_var(self.rules(), a, x);
                assert(raw@.contains(a));
                let t = choose|t: int| 0 <= t < raw@.len() && raw@[t] == a;
                assert(requires_var(self.rules(), raw@[t], x));
            }
        }
        out
    }

    /// The rules in dependency-first evaluation order: every dependent
    /// variable once, after every dependent variable its rule reads, so that
    /// inserting each computed value into the state makes the next rule
    /// ready.
    pub fn evaluation_order(&self) -> (r: Vec<(VariableID, &DependentExpr<F>)>)
        ensures
            r@.len() == self.rules().len(),
            forall|x: u64| self.rules().contains_key(x) <==> exists|i: int| 0 <= i < r@.len() && (#[trigger] r@[i]).0.0 == x,
            forall|i: int, j: int| 0 <= i < j < r@.len() ==> r@[i].0 != r@[j].0,
            forall|i: int|
                0 <= i < r@.len() ==> self.rules().contains_key((#[trigger] r@[i]).0.0) && *r@[i].1 == self.rules()[r@[i].0.0].expression,
            forall|i: int, j: int|
                0 <= i < r@.len() && 0 <= j < r@.len() && #[trigger] requires_var(self.rules(), r@[i].0.0, r@[j].0.0) ==> j < i,
    {
        proof {
            use_type_invariant(self);
        }
        let ghost order = self.order();
        let n = self.topological_order.len();
        let mut out: Vec<(VariableID, &DependentExpr<F>)> = Vec::new();
        let mut t: usize = n;
        while t > 0
            invariant
                order == self.order(),
                is_dependency_order(order, self.rules()),
                n == order.len(),
                t <= n,
                out@.len() == n - t,
                forall|q: int| 0 <= q < out@.len() ==> (#[trigger] out@[q]).0.0 == order[n - 1 - q]
                    && self.rules().contains_key(out@[q].0.0)
                    && *out@[q].1 == self.rules()[out@[q].0.0].expression,
            decreases t,
        {
            t = t - 1;
            let x = self.topological_order[t];
            proof {
                assert(order.contains(x));
            }
            match self.dependencies.get(&x) {
                Some(rule) => {
                    out.push((VariableID(x), &rule.expression));
                },
                None => {
                    proof {
                        assert(false);
                    }
                },
            }
        }
        proof {
            assert forall|x: u64| self.rules().contains_key(x) implies exists|i: int| 0 <= i < out@.len() && (#[trigger] out@[i]).0.0 == x by {
                assert(order.contains(x));
                let p = choose|p: int| 0 <= p < order.len() && order[p] == x;
                assert(out@[n - 1 - p].0.0 == x);
            }
            assert forall|i: int, j: int| 0 <= i < j < out@.len() implies out@[i].0 != out@[j].0 by {
                assert(order[n - 1 - i] != order[n - 1 - j]);
            }
            assert forall|i: int, j: int|
                0 <= i < out@.len() && 0 <= j < out@.len() && #[trigger] requires_var(self.rules(), out@[i].0.0, out@[j].0.0) implies j < i by {
                assert(requires_var(self.rules(), order[n - 1 - i], order[n - 1 - j]));
            }
            assert(order.to_set() =~= self.rules().dom()) by {
                assert forall|x: u64| order.to_set().contains(x) <==> self.rules().dom().contains(x) by {
                    if order.contains(x) {
                    }
                }
            }
            order.unique_seq_to_set();
        }
        out
    }
}

} // verus!