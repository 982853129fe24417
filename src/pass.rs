use vstd::prelude::*;

use crate::builder::{ExprValue, ShaderBuilder};
use crate::error::ShaderError;
use crate::graph::{lemma_find_edge_bounds, Edge, ShaderGraph};
use crate::decimal::{digits, lemma_digits_injective};
use crate::nodes::{vector_name, views, ShaderNodes};

verus! {

/// What a compile pass knows of one result of one node.
#[derive(Debug)]
pub enum Slot {
    Unvisited,
    /// The value, and the serial number that the pass stood at when it was made.
    Resolved(ShaderBuilder, usize),
}

/// The state of one compile pass: the results found so far, the nodes being
/// evaluated, the serial number for the next Vector node, and the shader
/// sources that debug sinks emitted.
#[derive(Debug)]
pub struct CompilePass {
    pub memo: Vec<Slot>,
    pub visiting: Vec<bool>,
    pub serial: usize,
    pub emitted: Vec<String>,
}

/// The index of the result slot of output `s` of node `n`.
pub open spec fn slot_index(n: int, s: int) -> int {
    n * 4 + s
}

pub open spec fn is_resolved(memo: Seq<Slot>, idx: int) -> bool {
    memo[idx] matches Slot::Resolved(_, _)
}

/// The value in a slot; zero where there is none yet.
pub open spec fn slot_value(memo: Seq<Slot>, idx: int) -> ExprValue {
    match memo[idx] {
        Slot::Resolved(b, _) => b@,
        Slot::Unvisited => ExprValue::zero(),
    }
}

/// The output that slot `s` of a node of kind `kind` holds.
pub open spec fn request(kind: ShaderNodes, s: int) -> Option<usize> {
    if kind.output_names().len() == 0 {
        None
    } else {
        Some(s as usize)
    }
}

/// The slot that edge `e` reads.
pub open spec fn edge_slot(g: ShaderGraph, e: int) -> int {
    slot_index(g.edges[e].from as int, g.edges[e].output as int)
}

/// The value on input `i` of node `n`: what its edge brings, or zero.
pub open spec fn input_value(g: ShaderGraph, memo: Seq<Slot>, n: int, i: int) -> ExprValue {
    match g.source(n, i) {
        Some(e) => slot_value(memo, edge_slot(g, e)),
        None => ExprValue::zero(),
    }
}

/// The values on all inputs of node `n`, in the order of its sockets.
pub open spec fn gathered(g: ShaderGraph, memo: Seq<Slot>, n: int) -> Seq<ExprValue> {
    Seq::new(g.nodes[n].input_names().len(), |i: int| input_value(g, memo, n, i))
}

/// Every connected input of node `n` has its value in the memo.
pub open spec fn sources_resolved(g: ShaderGraph, memo: Seq<Slot>, n: int) -> bool {
    forall|i: int|
        0 <= i < g.nodes[n].input_names().len() ==> match #[trigger] g.source(n, i) {
            Some(e) => g.edges[e].output < 4 && 0 <= edge_slot(g, e) < memo.len() && is_resolved(
                memo,
                edge_slot(g, e),
            ),
            None => true,
        }
}

/// A resolved slot holds what its node's kind computes from the values of its
/// inputs, and its node depends on no cycle.
pub open spec fn entry_ok(g: ShaderGraph, memo: Seq<Slot>, serial: nat, idx: int) -> bool {
    match memo[idx] {
        Slot::Unvisited => true,
        Slot::Resolved(b, st) => {
            let n = idx / 4;
            let kind = g.nodes[n];
            let req = request(kind, idx % 4);
            &&& kind.valid_output(req)
            &&& sources_resolved(g, memo, n)
            &&& kind.spec_resolve(gathered(g, memo, n), req, st as nat) == Ok::<ExprValue, ShaderError>(b@)
            &&& g.cycle_free_from(n)
            &&& (kind == ShaderNodes::Vector ==> st < serial)
        },
    }
}

/// The serial number that a Vector slot was made with.
pub open spec fn vector_stamp(g: ShaderGraph, memo: Seq<Slot>, idx: int) -> Option<nat> {
    match memo[idx] {
        Slot::Resolved(_, st) => if g.nodes[idx / 4] == ShaderNodes::Vector {
            Some(st as nat)
        } else {
            None
        },
        Slot::Unvisited => None,
    }
}

/// How many slots are resolved.
pub open spec fn count_resolved(memo: Seq<Slot>) -> nat
    decreases memo.len(),
{
    if memo.len() == 0 {
        0
    } else {
        count_resolved(memo.drop_last()) + if is_resolved(memo, memo.len() - 1) {
            1nat
        } else {
            0nat
        }
    }
}

/// How many slots of debug sinks are resolved: each one emitted one source.
pub open spec fn print_count(g: ShaderGraph, memo: Seq<Slot>) -> nat
    decreases memo.len(),
{
    if memo.len() == 0 {
        0
    } else {
        print_count(g, memo.drop_last()) + if is_resolved(memo, memo.len() - 1) && g.nodes[(memo.len() - 1) / 4].spec_emits() {
            1nat
        } else {
            0nat
        }
    }
}

/// How many nodes are not being evaluated.
pub open spec fn idle_count(v: Seq<bool>) -> nat
    decreases v.len(),
{
    if v.len() == 0 {
        0
    } else {
        idle_count(v.drop_last()) + if v.last() {
            0nat
        } else {
            1nat
        }
    }
}

/// Every slot resolved in `a` is resolved in `b`, with the same content.
pub open spec fn keeps(a: Seq<Slot>, b: Seq<Slot>) -> bool {
    &&& a.len() == b.len()
    &&& forall|idx: int| 0 <= idx < a.len() && is_resolved(a, idx) ==> #[trigger] b[idx] == a[idx]
}

/// `a` depends on `b` through at least one edge.
pub open spec fn depends_on(g: ShaderGraph, a: int, b: int) -> bool {
    exists|k: nat| k > 0 && #[trigger] g.reaches(a, b, k)
}

impl CompilePass {
    /// The pass's state agrees with graph `g`.
    pub open spec fn well_formed(&self, g: ShaderGraph) -> bool {
        &&& self.memo.len() == g.nodes.len() * 4
        &&& self.visiting.len() == g.nodes.len()
        &&& forall|idx: int| 0 <= idx < self.memo.len() ==> #[trigger] entry_ok(g, self.memo@, self.serial as nat, idx)
        &&& forall|i: int, j: int|
            #![trigger vector_stamp(g, self.memo@, i), vector_stamp(g, self.memo@, j)]
            0 <= i < self.memo.len() && 0 <= j < self.memo.len() && i != j && vector_stamp(g, self.memo@, i).is_some()
                ==> vector_stamp(g, self.memo@, i) != vector_stamp(g, self.memo@, j)
        &&& self.serial <= count_resolved(self.memo@)
    }
}

proof fn lemma_idle_update(v: Seq<bool>, i: int)
    requires
        0 <= i < v.len(),
        !v[i],
    ensures
        idle_count(v.update(i, true)) + 1 == idle_count(v),
    decreases v.len(),
{
    let u = v.update(i, true);
    if i == v.len() - 1 {
        assert(u.drop_last() =~= v.drop_last());
    } else {
        assert(u.drop_last() =~= v.drop_last().update(i, true));
        lemma_idle_update(v.drop_last(), i);
    }
}

proof fn lemma_count_update(m: Seq<Slot>, i: int, s: Slot)
    requires
        0 <= i < m.len(),
        !is_resolved(m, i),
        s matches Slot::Resolved(_, _),
    ensures
        count_resolved(m.update(i, s)) == count_resolved(m) + 1,
        count_resolved(m) < m.len(),
    decreases m.len(),
{
    let u = m.update(i, s);
    lemma_count_bound(m.drop_last());
    if i == m.len() - 1 {
        assert(u.drop_last() =~= m.drop_last());
    } else {
        assert(u.drop_last() =~= m.drop_last().update(i, s));
        lemma_count_update(m.drop_last(), i, s);
    }
}

proof fn lemma_print_update(g: ShaderGraph, m: Seq<Slot>, i: int, s: Slot)
    requires
        0 <= i < m.len(),
        !is_resolved(m, i),
        s matches Slot::Resolved(_, _),
    ensures
        print_count(g, m.update(i, s)) == print_count(g, m) + if g.nodes[i / 4].spec_emits() { 1int } else { 0int },
    decreases m.len(),
{
    let u = m.update(i, s);
    if i == m.len() - 1 {
        assert(u.drop_last() =~= m.drop_last());
    } else {
        assert(u.drop_last() =~= m.drop_last().update(i, s));
        lemma_print_update(g, m.drop_last(), i, s);
    }
}

proof fn lemma_print_none(g: ShaderGraph, m: Seq<Slot>)
    requires
        forall|i: int| 0 <= i < m.len() ==> !#[trigger] is_resolved(m, i),
    ensures
        print_count(g, m) == 0,
    decreases m.len(),
{
    if m.len() > 0 {
        assert forall|i: int| 0 <= i < m.len() - 1 implies !#[trigger] is_resolved(m.drop_last(), i) by {
            assert(m.drop_last()[i] == m[i]);
            assert(!is_resolved(m, i));
        }
        lemma_print_none(g, m.drop_last());
    }
}

proof fn lemma_count_bound(m: Seq<Slot>)
    ensures
        count_resolved(m) <= m.len(),
    decreases m.len(),
{
    if m.len() > 0 {
        lemma_count_bound(m.drop_last());
    }
}

/// Where a slot's sources keep their content, its inputs keep their values.
proof fn lemma_gathered_kept(g: ShaderGraph, a: Seq<Slot>, b: Seq<Slot>, n: int)
    requires
        sources_resolved(g, a, n),
        keeps(a, b),
    ensures
        sources_resolved(g, b, n),
        gathered(g, a, n) == gathered(g, b, n),
{
    assert forall|i: int| 0 <= i < g.nodes[n].input_names().len() implies match #[trigger] g.source(n, i) {
        Some(e) => g.edges[e].output < 4 && 0 <= edge_slot(g, e) < b.len() && is_resolved(
            b,
            edge_slot(g, e),
        ),
        None => true,
    } && input_value(g, a, n, i) == input_value(g, b, n, i) by {
        if let Some(e) = g.source(n, i) {
            assert(b[edge_slot(g, e)] == a[edge_slot(g, e)]);
        }
    }
    assert(gathered(g, a, n) =~= gathered(g, b, n));
}

proof fn lemma_entry_kept(g: ShaderGraph, a: Seq<Slot>, b: Seq<Slot>, sa: nat, sb: nat, idx: int)
    requires
        0 <= idx < a.len(),
        entry_ok(g, a, sa, idx),
        keeps(a, b),
        !is_resolved(a, idx) ==> !is_resolved(b, idx),
        sa <= sb,
    ensures
        entry_ok(g, b, sb, idx),
{
    if is_resolved(a, idx) {
        assert(b[idx] == a[idx]);
        lemma_gathered_kept(g, a, b, idx / 4);
    }
}

/// The edge, if any, that feeds input `i` of node `n`: the first one listed.
pub fn find_source(g: &ShaderGraph, n: usize, i: usize) -> (r: Option<usize>)
    ensures
        r matches Some(e) ==> g.source(n as int, i as int) == Some(e as int),
        r is None ==> g.source(n as int, i as int) is None,
{
    let mut k: usize = 0;
    while k < g.edges.len()
        invariant
            k <= g.edges.len(),
            crate::graph::find_edge(g.edges@.take(k as int), n as int, i as int) is None,
        decreases g.edges.len() - k,
    {
        assert(g.edges@.take(k + 1).drop_last() =~= g.edges@.take(k as int));
        if g.edges[k].to == n && g.edges[k].input == i {
            proof {
                lemma_find_edge_prefix(g.edges@, (k + 1) as int, n as int, i as int);
            }
            return Some(k);
        }
        k = k + 1;
    }
    assert(g.edges@.take(k as int) =~= g.edges@);
    None
}

/// A first match within a prefix is the first match of the whole.
proof fn lemma_find_edge_prefix(edges: Seq<Edge>, k: int, n: int, i: int)
    requires
        0 <= k <= edges.len(),
        crate::graph::find_edge(edges.take(k), n, i) is Some,
    ensures
        crate::graph::find_edge(edges, n, i) == crate::graph::find_edge(edges.take(k), n, i),
    decreases edges.len(),
{
    if k < edges.len() {
        assert(edges.drop_last().take(k) =~= edges.take(k));
        lemma_find_edge_prefix(edges.drop_last(), k, n, i);
    } else {
        assert(edges.take(k) =~= edges);
    }
}

/// Every node on the stack depends on `n`.
pub open spec fn stack_below(g: ShaderGraph, stack: Seq<bool>, n: int) -> bool {
    forall|v: int| 0 <= v < stack.len() && #[trigger] stack[v] ==> depends_on(g, v, n)
}

/// `n` depends on no node on the stack.
pub open spec fn off_stack(g: ShaderGraph, stack: Seq<bool>, n: int) -> bool {
    forall|v: int, k: nat| 0 <= v < stack.len() && stack[v] ==> !#[trigger] g.reaches(n, v, k)
}

/// `n` depends on a node on the stack.
pub open spec fn hits_stack(g: ShaderGraph, stack: Seq<bool>, n: int) -> bool {
    exists|v: int, k: nat| 0 <= v < stack.len() && stack[v] && #[trigger] g.reaches(n, v, k)
}

/// What a step of a pass keeps: its invariant, every resolved slot, the
/// order of emitted sources, and the slots of the nodes in `guard`.
pub open spec fn pass_step(g: ShaderGraph, a: CompilePass, b: CompilePass, guard: Seq<bool>) -> bool {
    &&& b.well_formed(g)
    &&& keeps(a.memo@, b.memo@)
    &&& b.serial >= a.serial
    &&& b.emitted@.len() >= a.emitted@.len()
    &&& b.emitted@.len() - a.emitted@.len() == print_count(g, b.memo@) - print_count(g, a.memo@)
    &&& b.emitted@.take(a.emitted@.len() as int) == a.emitted@
    &&& forall|idx: int| 0 <= idx < a.memo.len() && #[trigger] guard[idx / 4] ==> b.memo[idx] == a.memo[idx]
}

/// What a successful evaluation of node `n` into slot `idx` gives.
pub open spec fn done_post(g: ShaderGraph, a: CompilePass, b: CompilePass, stack: Seq<bool>, n: int, idx: int, r: Result<ShaderBuilder, ShaderError>) -> bool {
    &&& r matches Ok(v) ==> is_resolved(b.memo@, idx) && v@ == slot_value(b.memo@, idx)
        && g.cycle_free_from(n) && off_stack(g, stack, n)
    &&& r == Err::<ShaderBuilder, ShaderError>(ShaderError::CyclicGraph) ==> !g.cycle_free_from(n) || hits_stack(g, stack, n)
    &&& g.sockets_declared_from(n) ==> (r is Ok || r == Err::<ShaderBuilder, ShaderError>(ShaderError::CyclicGraph))
}

/// What evaluating a valid output of node `n`, held in slot `idx`, gives.
pub open spec fn eval_post(g: ShaderGraph, a: CompilePass, b: CompilePass, n: int, idx: int, r: Result<ShaderBuilder, ShaderError>) -> bool {
    &&& is_resolved(a.memo@, idx) ==> (r matches Ok(v) && v@ == slot_value(a.memo@, idx)
        && b.memo@ == a.memo@ && b.serial == a.serial && b.emitted@ == a.emitted@ && b.visiting@ == a.visiting@)
    &&& !is_resolved(a.memo@, idx) && a.visiting[n] ==> r == Err::<ShaderBuilder, ShaderError>(ShaderError::CyclicGraph)
    &&& r is Ok ==> b.visiting@ == a.visiting@
    &&& !is_resolved(a.memo@, idx) && g.nodes[n].spec_emits() ==> (r matches Ok(v) ==> b.emitted@.len() > 0
        && b.emitted@.last()@ == v.spec_source())
    &&& done_post(g, a, b, a.visiting@, n, idx, r)
}

/// Input `j` of node `n` has value `x`, which the memo holds where the input
/// is connected; the node that it comes from depends on no cycle and on
/// nothing on the stack.
pub open spec fn input_ok(g: ShaderGraph, memo: Seq<Slot>, stack: Seq<bool>, n: int, j: int, x: ExprValue) -> bool {
    match g.source(n, j) {
        Some(e) => {
            &&& g.edges[e].output < 4
            &&& 0 <= edge_slot(g, e) < memo.len()
            &&& is_resolved(memo, edge_slot(g, e))
            &&& x == slot_value(memo, edge_slot(g, e))
            &&& g.cycle_free_from(g.edges[e].from as int)
            &&& off_stack(g, stack, g.edges[e].from as int)
        },
        None => x == ExprValue::zero(),
    }
}

proof fn lemma_resolved_not_on_stack(g: ShaderGraph, stack: Seq<bool>, n: int)
    requires
        g.cycle_free_from(n),
        stack_below(g, stack, n),
    ensures
        off_stack(g, stack, n),
{
    assert forall|v: int, k: nat| 0 <= v < stack.len() && stack[v] implies !#[trigger] g.reaches(n, v, k) by {
        if g.reaches(n, v, k) {
            assert(stack[v]);
            let k2 = choose|k2: nat| k2 > 0 && #[trigger] g.reaches(v, n, k2);
            g.lemma_reaches_trans(n, v, n, k, k2);
            assert(g.reaches(n, n, 0));
        }
    }
}

proof fn lemma_stack_push(g: ShaderGraph, stack: Seq<bool>, n: int, m: int, j: int)
    requires
        0 <= n < stack.len(),
        stack_below(g, stack, n),
        0 <= j < g.nodes[n].input_names().len(),
        g.feeds_at(m, n, j),
    ensures
        stack_below(g, stack.update(n, true), m),
{
    assert(g.feeds(m, n));
    g.lemma_feeds_reaches(m, n);
    let up = stack.update(n, true);
    assert forall|v: int| 0 <= v < up.len() && #[trigger] up[v] implies depends_on(g, v, m) by {
        if v == n {
            assert(g.reaches(v, m, 1));
        } else {
            assert(stack[v]);
            let k = choose|k: nat| k > 0 && #[trigger] g.reaches(v, n, k);
            g.lemma_reaches_trans(v, n, m, k, 1);
            assert(g.reaches(v, m, k + 1));
        }
    }
}

proof fn lemma_cycle_up(g: ShaderGraph, stack: Seq<bool>, n: int, m: int, j: int)
    requires
        0 <= n < stack.len(),
        0 <= j < g.nodes[n].input_names().len(),
        g.feeds_at(m, n, j),
        !g.cycle_free_from(m) || hits_stack(g, stack.update(n, true), m),
    ensures
        !g.cycle_free_from(n) || hits_stack(g, stack, n),
{
    assert(g.feeds(m, n));
    g.lemma_feeds_reaches(m, n);
    let up = stack.update(n, true);
    if !g.cycle_free_from(m) {
        let (c, k1, k2) = choose|c: int, k1: nat, k2: nat| g.reaches(m, c, k1) && k2 > 0 && g.reaches(c, c, k2);
        g.lemma_reaches_trans(n, m, c, 1, k1);
        assert(!g.cycle_free_from(n));
    } else {
        let (v, k) = choose|v: int, k: nat| 0 <= v < up.len() && up[v] && #[trigger] g.reaches(m, v, k);
        g.lemma_reaches_trans(n, m, v, 1, k);
        if v == n {
            assert(g.reaches(n, n, 0));
            assert(!g.cycle_free_from(n));
        } else {
            assert(stack[v]);
            assert(hits_stack(g, stack, n));
        }
    }
}

/// A node whose inputs come from nodes free of cycles and off the stack is so too.
proof fn lemma_node_cycle_free(g: ShaderGraph, memo: Seq<Slot>, stack: Seq<bool>, n: int, ins: Seq<ExprValue>)
    requires
        0 <= n < stack.len(),
        !stack[n],
        ins.len() == g.nodes[n].input_names().len(),
        forall|j: int| 0 <= j < ins.len() ==> #[trigger] input_ok(g, memo, stack.update(n, true), n, j, ins[j]),
    ensures
        g.cycle_free_from(n),
        off_stack(g, stack, n),
{
    let up = stack.update(n, true);
    assert forall|c: int, k1: nat, k2: nat| #![trigger g.reaches(n, c, k1), g.reaches(c, c, k2)]
        g.reaches(n, c, k1) && k2 > 0 implies !g.reaches(c, c, k2) by {
        if k1 == 0 {
            if g.reaches(c, c, k2) {
                let m = choose|m: int| #[trigger] g.feeds(m, n) && g.reaches(m, n, (k2 - 1) as nat);
                let j = choose|j: int| 0 <= j < g.nodes[n].input_names().len() && #[trigger] g.feeds_at(m, n, j);
                assert(input_ok(g, memo, up, n, j, ins[j]));
                assert(up[n]);
            }
        } else {
            let m = choose|m: int| #[trigger] g.feeds(m, n) && g.reaches(m, c, (k1 - 1) as nat);
            let j = choose|j: int| 0 <= j < g.nodes[n].input_names().len() && #[trigger] g.feeds_at(m, n, j);
            assert(input_ok(g, memo, up, n, j, ins[j]));
        }
    }
    assert forall|v: int, k: nat| 0 <= v < stack.len() && stack[v] implies !#[trigger] g.reaches(n, v, k) by {
        if k > 0 && g.reaches(n, v, k) {
            let m = choose|m: int| #[trigger] g.feeds(m, n) && g.reaches(m, v, (k - 1) as nat);
            let j = choose|j: int| 0 <= j < g.nodes[n].input_names().len() && #[trigger] g.feeds_at(m, n, j);
            assert(input_ok(g, memo, up, n, j, ins[j]));
            assert(up[v]);
        }
    }
}

proof fn lemma_input_kept(g: ShaderGraph, a: Seq<Slot>, b: Seq<Slot>, stack: Seq<bool>, n: int, j: int, x: ExprValue)
    requires
        input_ok(g, a, stack, n, j, x),
        keeps(a, b),
    ensures
        input_ok(g, b, stack, n, j, x),
{
    if let Some(e) = g.source(n, j) {
        assert(b[edge_slot(g, e)] == a[edge_slot(g, e)]);
    }
}

proof fn lemma_step_refl(g: ShaderGraph, p: CompilePass, guard: Seq<bool>)
    requires
        p.well_formed(g),
    ensures
        pass_step(g, p, p, guard),
{
    assert(p.emitted@.take(p.emitted@.len() as int) =~= p.emitted@);
}

/// Storing a value that its node's kind computes from the memo keeps the
/// pass's invariant.
proof fn lemma_store(g: ShaderGraph, a: CompilePass, b: CompilePass, idx: int, v: ShaderBuilder)
    requires
        a.well_formed(g),
        0 <= idx < a.memo.len(),
        !is_resolved(a.memo@, idx),
        b.memo@ == a.memo@.update(idx, Slot::Resolved(v, a.serial)),
        b.visiting.len() == a.visiting.len(),
        g.nodes[idx / 4].valid_output(request(g.nodes[idx / 4], idx % 4)),
        sources_resolved(g, a.memo@, idx / 4),
        g.nodes[idx / 4].spec_resolve(gathered(g, a.memo@, idx / 4), request(g.nodes[idx / 4], idx % 4), a.serial as nat)
            == Ok::<ExprValue, ShaderError>(v@),
        g.cycle_free_from(idx / 4),
        b.serial == if g.nodes[idx / 4] == ShaderNodes::Vector { a.serial + 1 } else { a.serial as int },
    ensures
        b.well_formed(g),
        keeps(a.memo@, b.memo@),
        is_resolved(b.memo@, idx),
        slot_value(b.memo@, idx) == v@,
{
    let mm = a.memo@;
    let nm = b.memo@;
    let n = idx / 4;
    lemma_count_update(mm, idx, Slot::Resolved(v, a.serial));
    assert(keeps(mm, nm)) by {
        assert forall|j: int| 0 <= j < mm.len() && is_resolved(mm, j) implies #[trigger] nm[j] == mm[j] by {
            assert(j != idx);
        }
    }
    lemma_gathered_kept(g, mm, nm, n);
    assert(entry_ok(g, nm, b.serial as nat, idx));
    assert forall|j: int| 0 <= j < nm.len() implies #[trigger] entry_ok(g, nm, b.serial as nat, j) by {
        if j != idx {
            assert(entry_ok(g, mm, a.serial as nat, j));
            lemma_entry_kept(g, mm, nm, a.serial as nat, b.serial as nat, j);
        }
    }
    assert forall|i: int, j: int|
        #![trigger vector_stamp(g, nm, i), vector_stamp(g, nm, j)]
        0 <= i < nm.len() && 0 <= j < nm.len() && i != j && vector_stamp(g, nm, i).is_some()
            implies vector_stamp(g, nm, i) != vector_stamp(g, nm, j) by {
        assert(entry_ok(g, mm, a.serial as nat, i));
        assert(entry_ok(g, mm, a.serial as nat, j));
        if i != idx && j != idx {
            assert(vector_stamp(g, nm, i) == vector_stamp(g, mm, i));
            assert(vector_stamp(g, nm, j) == vector_stamp(g, mm, j));
        }
    }
}

impl CompilePass {
    /// A fresh pass over graph `g`: nothing resolved, nothing being evaluated.
    pub fn new(g: &ShaderGraph) -> (r: CompilePass)
        requires
            g.well_formed(),
        ensures
            r.well_formed(*g),
            r.serial == 0,
            r.emitted@.len() == 0,
            print_count(*g, r.memo@) == 0,
            forall|i: int| 0 <= i < r.memo.len() ==> !is_resolved(r.memo@, i),
            forall|v: int| 0 <= v < r.visiting.len() ==> !r.visiting[v],
    {
        let mut memo: Vec<Slot> = Vec::new();
        let total = g.nodes.len() * 4;
        let mut k: usize = 0;
        while k < total
            invariant
                k <= total,
                memo.len() == k,
                forall|i: int| 0 <= i < k ==> memo[i] is Unvisited,
            decreases total - k,
        {
            memo.push(Slot::Unvisited);
            k = k + 1;
        }
        let mut visiting: Vec<bool> = Vec::new();
        let mut k: usize = 0;
        while k < g.nodes.len()
            invariant
                k <= g.nodes.len(),
                visiting.len() == k,
                forall|i: int| 0 <= i < k ==> !visiting[i],
            decreases g.nodes.len() - k,
        {
            visiting.push(false);
            k = k + 1;
        }
        let r = CompilePass { memo, visiting, serial: 0, emitted: Vec::new() };
        proof {
            assert forall|i: int| 0 <= i < r.memo.len() implies !#[trigger] is_resolved(r.memo@, i) by {}
            lemma_print_none(*g, r.memo@);
        }
        assert forall|idx: int| 0 <= idx < r.memo.len() implies #[trigger] entry_ok(*g, r.memo@, 0, idx) by {}
        r
    }

    /// The value of output `output` of node `n`, computed from what its inputs
    /// are connected to, each result computed once per pass.
    pub fn evaluate(&mut self, g: &ShaderGraph, n: usize, output: Option<usize>) -> (r: Result<
        ShaderBuilder,
        ShaderError,
    >)
        requires
            g.well_formed(),
            n < g.nodes.len(),
            old(self).well_formed(*g),
            stack_below(*g, old(self).visiting@, n as int),
        ensures
            pass_step(*g, *old(self), *final(self), old(self).visiting@),
            !g.nodes[n as int].valid_output(output) ==> r == Err::<ShaderBuilder, ShaderError>(ShaderError::UnknownOutputSocket),
            g.nodes[n as int].valid_output(output) ==> eval_post(*g, *old(self), *final(self), n as int, slot_index(n as int, output.unwrap_or(0) as int), r),
        decreases idle_count(old(self).visiting@), 1nat,
    {
        let kind = g.nodes[n];
        proof {
            lemma_step_refl(*g, *self, self.visiting@);
        }
        if !kind.is_valid_output(output) {
            return Err(ShaderError::UnknownOutputSocket);
        }
        let s: usize = match output {
            Some(i) => i,
            None => 0,
        };
        proof {
            assert(n * 4 + s < g.nodes.len() * 4) by (nonlinear_arith)
                requires n < g.nodes.len(), s < 4;
            vstd::arithmetic::div_mod::lemma_fundamental_div_mod_converse(n * 4 + s, 4, n as int, s as int);
        }
        let idx: usize = n * 4 + s;
        match &self.memo[idx] {
            Slot::Resolved(b, _) => {
                proof {
                    assert(entry_ok(*g, self.memo@, self.serial as nat, idx as int));
                    lemma_resolved_not_on_stack(*g, self.visiting@, n as int);
                }
                return Ok(b.snapshot());
            },
            Slot::Unvisited => {},
        }
        if self.visiting[n] {
            proof {
                assert(g.reaches(n as int, n as int, 0));
            }
            return Err(ShaderError::CyclicGraph);
        }
        proof {
            lemma_idle_update(self.visiting@, n as int);
        }
        self.visiting.set(n, true);
        let req: Option<usize> = if kind.output_count() == 0 {
            None
        } else {
            Some(s)
        };
        let r = self.compute(g, n, idx, req, Ghost(old(self).visiting@));
        if r.is_ok() {
            self.visiting.set(n, false);
            proof {
                assert(self.visiting@ =~= old(self).visiting@);
            }
        }
        r
    }

    /// Evaluates the inputs of node `n`, resolves it, and stores the result in
    /// slot `idx`. The node is on the stack; `outer` is the stack without it.
    fn compute(&mut self, g: &ShaderGraph, n: usize, idx: usize, req: Option<usize>, outer: Ghost<Seq<bool>>) -> (r:
        Result<ShaderBuilder, ShaderError>)
        requires
            g.well_formed(),
            n < g.nodes.len(),
            old(self).well_formed(*g),
            idx < old(self).memo.len(),
            idx / 4 == n,
            req == request(g.nodes[n as int], idx as int % 4),
            g.nodes[n as int].valid_output(req),
            !is_resolved(old(self).memo@, idx as int),
            outer@.len() == g.nodes.len(),
            !outer@[n as int],
            old(self).visiting@ == outer@.update(n as int, true),
            stack_below(*g, outer@, n as int),
        ensures
            pass_step(*g, *old(self), *final(self), outer@),
            r is Ok ==> final(self).visiting@ == old(self).visiting@,
            g.nodes[n as int].spec_emits() ==> (r matches Ok(v) ==> final(self).emitted@.len() > 0
                && final(self).emitted@.last()@ == v.spec_source()),
            done_post(*g, *old(self), *final(self), outer@, n as int, idx as int, r),
        decreases idle_count(old(self).visiting@), 2nat,
    {
        let kind = g.nodes[n];
        let count = kind.input_count();
        let ghost mid = self.visiting@;
        proof {
            lemma_step_refl(*g, *self, outer@);
        }
        let mut ins: Vec<ShaderBuilder> = Vec::new();
        let mut i: usize = 0;
        while i < count
            invariant
                g.well_formed(),
                n < g.nodes.len(),
                kind == g.nodes[n as int],
                count == kind.input_names().len(),
                self.well_formed(*g),
                self.visiting@ == mid,
                mid == old(self).visiting@,
                mid == outer@.update(n as int, true),
                outer@.len() == g.nodes.len(),
                !outer@[n as int],
                stack_below(*g, outer@, n as int),
                idx < old(self).memo.len(),
                idx / 4 == n,
                !is_resolved(old(self).memo@, idx as int),
                pass_step(*g, *old(self), *self, outer@),
                forall|j: int| 0 <= j < old(self).memo.len() && #[trigger] mid[j / 4] ==> self.memo[j] == old(self).memo[j],
                i <= count,
                ins.len() == i,
                forall|j: int| 0 <= j < i ==> #[trigger] input_ok(*g, self.memo@, mid, n as int, j, ins[j]@),
            decreases count - i,
        {
            match find_source(g, n, i) {
                Some(e) => {
                    proof {
                        lemma_find_edge_bounds(g.edges@, n as int, i as int);
                    }
                    let edge = g.edges[e];
                    proof {
                        assert(g.feeds_at(edge.from as int, n as int, i as int));
                        lemma_stack_push(*g, outer@, n as int, edge.from as int, i as int);
                    }
                    let ghost before = *self;
                    let r = self.evaluate(g, edge.from, Some(edge.output));
                    proof {
                        assert forall|j: int| 0 <= j < i implies #[trigger] input_ok(*g, self.memo@, mid, n as int, j, ins[j]@) by {
                            lemma_input_kept(*g, before.memo@, self.memo@, mid, n as int, j, ins[j]@);
                        }
                        assert forall|j: int| 0 <= j < old(self).memo.len() && #[trigger] mid[j / 4] implies self.memo[j] == old(self).memo[j] by {
                            assert(self.memo[j] == before.memo[j]);
                        }
                        assert forall|j: int| 0 <= j < old(self).memo.len() && #[trigger] outer@[j / 4] implies self.memo[j] == old(self).memo[j] by {
                            assert(mid[j / 4]);
                        }
                        assert(keeps(old(self).memo@, self.memo@)) by {
                            assert forall|j: int| 0 <= j < old(self).memo.len() && is_resolved(old(self).memo@, j) implies #[trigger] self.memo@[j] == old(self).memo@[j] by {
                                assert(before.memo@[j] == old(self).memo@[j]);
                            }
                        }
                        assert(self.emitted@.take(old(self).emitted@.len() as int) =~= before.emitted@.take(old(self).emitted@.len() as int));
                    }
                    match r {
                        Ok(v) => {
                            ins.push(v);
                        },
                        Err(err) => {
                            proof {
                                if err == ShaderError::CyclicGraph {
                                    lemma_cycle_up(*g, outer@, n as int, edge.from as int, i as int);
                                }
                                if g.sockets_declared_from(n as int) {
                                    assert(g.reaches(n as int, n as int, 0));
                                    assert(g.inputs_declared(n as int));
                                    assert(g.feeds(edge.from as int, n as int));
                                    g.lemma_declared_step(edge.from as int, n as int);
                                }
                            }
                            return Err(err);
                        },
                    }
                },
                None => {
                    ins.push(ShaderBuilder::zero());
                },
            }
            i = i + 1;
        }
        let ghost mm = self.memo@;
        let ghost a = *self;
        proof {
            assert(!is_resolved(mm, idx as int)) by {
                assert(mid[idx as int / 4]);
            }
            assert forall|j: int| 0 <= j < count implies #[trigger] views(ins@)[j] == gathered(*g, mm, n as int)[j] by {
                assert(input_ok(*g, mm, mid, n as int, j, ins[j]@));
            }
            assert(views(ins@) =~= gathered(*g, mm, n as int));
            assert forall|j: int| 0 <= j < count implies match #[trigger] g.source(n as int, j) {
                Some(e) => g.edges[e].output < 4 && 0 <= edge_slot(*g, e) < mm.len() && is_resolved(mm, edge_slot(*g, e)),
                None => true,
            } by {
                assert(input_ok(*g, mm, mid, n as int, j, ins[j]@));
            }
            assert(sources_resolved(*g, mm, n as int));
            lemma_node_cycle_free(*g, mm, outer@, n as int, views(ins@));
        }
        let stamp = self.serial;
        let value = match kind.resolve(&ins, req, stamp) {
            Ok(v) => v,
            Err(err) => {
                return Err(err);
            },
        };
        proof {
            lemma_count_update(mm, idx as int, Slot::Resolved(value, stamp));
        }
        if kind == ShaderNodes::Vector {
            self.serial = self.serial + 1;
        }
        let ghost emitted_before = self.emitted@;
        if kind.emits() {
            match value.build() {
                Ok(src) => {
                    self.emitted.push(src);
                },
                Err(err) => {
                    return Err(err);
                },
            }
        }
        let stored = value.snapshot();
        self.memo.set(idx, Slot::Resolved(stored, stamp));
        proof {
            lemma_print_update(*g, mm, idx as int, Slot::Resolved(stored, stamp));
            lemma_store(*g, a, *self, idx as int, stored);
            assert(self.emitted@.take(old(self).emitted@.len() as int) =~= emitted_before.take(old(self).emitted@.len() as int));
            assert(keeps(old(self).memo@, self.memo@)) by {
                assert forall|j: int| 0 <= j < old(self).memo.len() && is_resolved(old(self).memo@, j) implies #[trigger] self.memo@[j] == old(self).memo@[j] by {
                    assert(mm[j] == old(self).memo@[j]);
                }
            }
            assert forall|j: int| 0 <= j < old(self).memo.len() && #[trigger] outer@[j / 4] implies self.memo[j] == old(self).memo[j] by {
                assert(mid[j / 4]);
                assert(j != idx);
            }
        }
        Ok(value)
    }
}

/// The outcome of compiling one root: the root's value, the shader source made
/// from it, and the pass (its results and the sources that debug sinks emitted).
#[derive(Debug)]
pub struct Compiled {
    pub value: ShaderBuilder,
    pub source: String,
    pub pass: CompilePass,
}

/// Compiles output `output` of node `root` of graph `g` into shader source,
/// in a pass of its own.
pub fn compile(g: &ShaderGraph, root: usize, output: Option<usize>) -> (r: Result<Compiled, ShaderError>)
    requires
        g.well_formed(),
        root < g.nodes.len(),
    ensures
        !g.nodes[root as int].valid_output(output) ==> r == Err::<Compiled, ShaderError>(ShaderError::UnknownOutputSocket),
        r matches Ok(c) ==> ({
            let idx = slot_index(root as int, output.unwrap_or(0) as int);
            &&& c.pass.well_formed(*g)
            &&& is_resolved(c.pass.memo@, idx)
            &&& c.value@ == slot_value(c.pass.memo@, idx)
            &&& c.source@ == c.value.spec_source()
            &&& g.nodes[root as int].spec_emits() ==> c.pass.emitted@.len() > 0 && c.pass.emitted@.last()@ == c.source@
            &&& c.pass.emitted@.len() == print_count(*g, c.pass.memo@)
        }),
        r is Ok ==> g.cycle_free_from(root as int),
        r == Err::<Compiled, ShaderError>(ShaderError::CyclicGraph) ==> !g.cycle_free_from(root as int),
        g.sockets_declared_from(root as int) && g.nodes[root as int].valid_output(output) ==> (r is Ok <==> g.cycle_free_from(root as int)),
        g.sockets_declared_from(root as int) && g.nodes[root as int].valid_output(output) && !g.cycle_free_from(root as int)
            ==> r == Err::<Compiled, ShaderError>(ShaderError::CyclicGraph),
{
    let mut pass = CompilePass::new(g);
    let value = match pass.evaluate(g, root, output) {
        Ok(v) => v,
        Err(err) => {
            return Err(err);
        },
    };
    let source = match value.build() {
        Ok(s) => s,
        Err(err) => {
            return Err(err);
        },
    };
    Ok(Compiled { value, source, pass })
}

/// Two Vector nodes resolved in one pass hold differently named vectors.
pub proof fn lemma_vector_names_distinct(g: ShaderGraph, p: CompilePass, i: int, j: int)
    requires
        p.well_formed(g),
        0 <= i < p.memo.len(),
        0 <= j < p.memo.len(),
        i != j,
        is_resolved(p.memo@, i),
        is_resolved(p.memo@, j),
        g.nodes[i / 4] == ShaderNodes::Vector,
        g.nodes[j / 4] == ShaderNodes::Vector,
    ensures
        slot_value(p.memo@, i).var != slot_value(p.memo@, j).var,
{
    assert(entry_ok(g, p.memo@, p.serial as nat, i));
    assert(entry_ok(g, p.memo@, p.serial as nat, j));
    assert(vector_stamp(g, p.memo@, i) != vector_stamp(g, p.memo@, j));
    let (si, sj) = match (p.memo@[i], p.memo@[j]) {
        (Slot::Resolved(_, a), Slot::Resolved(_, b)) => (a as nat, b as nat),
        _ => (0, 0),
    };
    assert(slot_value(p.memo@, i).var == vector_name(si));
    assert(slot_value(p.memo@, j).var == vector_name(sj));
    if vector_name(si) == vector_name(sj) {
        assert(vector_name(si).subrange(4, vector_name(si).len() as int) =~= digits(si)) by {
            reveal_strlit("vec_");
        }
        assert(vector_name(sj).subrange(4, vector_name(sj).len() as int) =~= digits(sj)) by {
            reveal_strlit("vec_");
        }
        lemma_digits_injective(si, sj);
    }
}

} // verus!
