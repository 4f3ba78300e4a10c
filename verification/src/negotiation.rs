//! Finding the commits that client and server have in common, one ancestry
//! question at a time. The repository answers the questions (reading it is
//! outside work); the decisions are made here, in the order the server has
//! always asked them.
use vstd::prelude::*;
use crate::oid::Oid;
use crate::capability::{Capabilities, CapabilityV};
use crate::upload_pack::{Request, RequestV, oid_views, Response, Pack, Continue};

verus! {

/// An ancestry relation: `rel(a, b)` holds when commit `a` descends from
/// commit `b` (a commit does not descend from itself in git's sense).
pub type Ancestry = spec_fn(Seq<u8>, Seq<u8>) -> bool;

/// Whether some commit of `ds` descends from `x`.
pub open spec fn any_descendant(rel: Ancestry, ds: Seq<Seq<u8>>, x: Seq<u8>) -> bool
    decreases ds.len(),
{
    ds.len() > 0 && (any_descendant(rel, ds.drop_last(), x) || rel(ds.last(), x))
}

/// Whether `x` descends from some commit of `ancestors`.
pub open spec fn descends_from_any(rel: Ancestry, x: Seq<u8>, ancestors: Seq<Seq<u8>>) -> bool
    decreases ancestors.len(),
{
    ancestors.len() > 0 && (descends_from_any(rel, x, ancestors.drop_last()) || rel(
        x,
        ancestors.last(),
    ))
}

/// The common commits: each have, in order, that is an ancestor of some
/// reference and not an ancestor of a common commit found before it.
pub open spec fn common_of(rel: Ancestry, haves: Seq<Seq<u8>>, refs: Seq<Seq<u8>>) -> Seq<Seq<u8>>
    decreases haves.len(),
{
    if haves.len() == 0 {
        seq![]
    } else {
        let c = common_of(rel, haves.drop_last(), refs);
        let h = haves.last();
        if any_descendant(rel, refs, h) && !any_descendant(rel, c, h) {
            c.push(h)
        } else {
            c
        }
    }
}

/// Whether every want descends from some common commit.
pub open spec fn all_descend(rel: Ancestry, wants: Seq<Seq<u8>>, common: Seq<Seq<u8>>) -> bool
    decreases wants.len(),
{
    wants.len() == 0 || (all_descend(rel, wants.drop_last(), common) && descends_from_any(
        rel,
        wants.last(),
        common,
    ))
}

/// Whether the server sends a pack: the client is done, or every want
/// descends from a common commit.
pub open spec fn decides_pack(rel: Ancestry, req: RequestV, refs: Seq<Seq<u8>>) -> bool {
    req.done || all_descend(rel, req.wants, common_of(rel, req.haves, refs))
}

/// Which question the negotiation is at.
#[derive(Debug, Clone, Copy, PartialEq, Eq, Structural)]
pub enum Stage {
    /// Does reference `j` descend from have `i`?
    Refs,
    /// Does common commit `j` descend from have `i`?
    Common,
    /// Does want `i` descend from common commit `j`?
    Closure,
    /// Decided: a pack (`true`) or a request for more haves (`false`).
    Decided(bool),
}

/// The state of a negotiation.
pub struct NegV {
    pub refs: Seq<Seq<u8>>,
    pub haves: Seq<Seq<u8>>,
    pub wants: Seq<Seq<u8>>,
    pub done: bool,
    pub common: Seq<Seq<u8>>,
    pub stage: Stage,
    pub i: nat,
    pub j: nat,
}

/// After the haves: decide at once where no question is left, or start
/// asking whether the wants descend from the common commits.
pub open spec fn start_closure(v: NegV) -> NegV {
    if v.done || v.wants.len() == 0 {
        NegV { stage: Stage::Decided(true), i: 0, j: 0, ..v }
    } else if v.common.len() == 0 {
        NegV { stage: Stage::Decided(false), i: 0, j: 0, ..v }
    } else {
        NegV { stage: Stage::Closure, i: 0, j: 0, ..v }
    }
}

/// Moves to have `v.i`, skipping haves that no question can concern.
pub open spec fn settle_have(v: NegV) -> NegV
    decreases v.haves.len() - v.i,
{
    if v.i >= v.haves.len() {
        start_closure(v)
    } else if v.refs.len() == 0 {
        settle_have(NegV { i: v.i + 1, ..v })
    } else {
        NegV { stage: Stage::Refs, j: 0, ..v }
    }
}

/// Have `v.i` is an ancestor of a reference: ask about the common commits,
/// or, when there is none, record it as common.
pub open spec fn enter_common(v: NegV) -> NegV {
    if v.common.len() == 0 {
        settle_have(NegV { common: v.common.push(v.haves[v.i as int]), i: v.i + 1, ..v })
    } else {
        NegV { stage: Stage::Common, j: 0, ..v }
    }
}

/// The question that the negotiation asks now: does the first commit
/// descend from the second?
pub open spec fn query(v: NegV) -> Option<(Seq<u8>, Seq<u8>)> {
    match v.stage {
        Stage::Refs => Some((v.refs[v.j as int], v.haves[v.i as int])),
        Stage::Common => Some((v.common[v.j as int], v.haves[v.i as int])),
        Stage::Closure => Some((v.wants[v.i as int], v.common[v.j as int])),
        Stage::Decided(_) => None,
    }
}

/// The state after the answer `yes` to the current question.
pub open spec fn next_state(v: NegV, yes: bool) -> NegV {
    match v.stage {
        Stage::Refs => if yes {
            enter_common(v)
        } else if v.j + 1 < v.refs.len() {
            NegV { j: v.j + 1, ..v }
        } else {
            settle_have(NegV { i: v.i + 1, ..v })
        },
        Stage::Common => if yes {
            settle_have(NegV { i: v.i + 1, ..v })
        } else if v.j + 1 < v.common.len() {
            NegV { j: v.j + 1, ..v }
        } else {
            settle_have(NegV { common: v.common.push(v.haves[v.i as int]), i: v.i + 1, ..v })
        },
        Stage::Closure => if yes {
            if v.i + 1 < v.wants.len() {
                NegV { i: v.i + 1, j: 0, ..v }
            } else {
                NegV { stage: Stage::Decided(true), ..v }
            }
        } else if v.j + 1 < v.common.len() {
            NegV { j: v.j + 1, ..v }
        } else {
            NegV { stage: Stage::Decided(false), ..v }
        },
        Stage::Decided(_) => v,
    }
}

/// The state in which the negotiation of `req` against `refs` starts.
pub open spec fn initial(req: RequestV, refs: Seq<Seq<u8>>) -> NegV {
    settle_have(
        NegV {
            refs: refs,
            haves: req.haves,
            wants: req.wants,
            done: req.done,
            common: seq![],
            stage: Stage::Refs,
            i: 0,
            j: 0,
        },
    )
}

/// `v` is where the server stands after asking its questions of `rel`.
pub open spec fn consistent(v: NegV, rel: Ancestry) -> bool {
    match v.stage {
        Stage::Refs => {
            &&& v.i < v.haves.len()
            &&& v.j < v.refs.len()
            &&& v.common == common_of(rel, v.haves.take(v.i as int), v.refs)
            &&& !any_descendant(rel, v.refs.take(v.j as int), v.haves[v.i as int])
        },
        Stage::Common => {
            &&& v.i < v.haves.len()
            &&& v.j < v.common.len()
            &&& v.common == common_of(rel, v.haves.take(v.i as int), v.refs)
            &&& any_descendant(rel, v.refs, v.haves[v.i as int])
            &&& !any_descendant(rel, v.common.take(v.j as int), v.haves[v.i as int])
        },
        Stage::Closure => {
            &&& !v.done
            &&& v.i < v.wants.len()
            &&& v.j < v.common.len()
            &&& v.common == common_of(rel, v.haves, v.refs)
            &&& all_descend(rel, v.wants.take(v.i as int), v.common)
            &&& !descends_from_any(rel, v.wants[v.i as int], v.common.take(v.j as int))
        },
        Stage::Decided(p) => {
            &&& v.common == common_of(rel, v.haves, v.refs)
            &&& p == (v.done || all_descend(rel, v.wants, v.common))
        },
    }
}

proof fn lemma_any_descendant(rel: Ancestry, ds: Seq<Seq<u8>>, x: Seq<u8>)
    ensures
        any_descendant(rel, ds, x) <==> exists|k: int| 0 <= k < ds.len() && #[trigger] rel(ds[k], x),
    decreases ds.len(),
{
    if ds.len() > 0 {
        lemma_any_descendant(rel, ds.drop_last(), x);
        if any_descendant(rel, ds.drop_last(), x) {
            let k = choose|k: int| 0 <= k < ds.drop_last().len() && #[trigger] rel(ds.drop_last()[k], x);
            assert(rel(ds[k], x));
        }
        if exists|k: int| 0 <= k < ds.len() && #[trigger] rel(ds[k], x) {
            let k = choose|k: int| 0 <= k < ds.len() && #[trigger] rel(ds[k], x);
            if k < ds.len() - 1 {
                assert(rel(ds.drop_last()[k], x));
            }
        }
    }
}

proof fn lemma_descends_from_any(rel: Ancestry, x: Seq<u8>, ancs: Seq<Seq<u8>>)
    ensures
        descends_from_any(rel, x, ancs) <==> exists|k: int| 0 <= k < ancs.len() && #[trigger] rel(x, ancs[k]),
    decreases ancs.len(),
{
    if ancs.len() > 0 {
        lemma_descends_from_any(rel, x, ancs.drop_last());
        if descends_from_any(rel, x, ancs.drop_last()) {
            let k = choose|k: int| 0 <= k < ancs.drop_last().len() && #[trigger] rel(x, ancs.drop_last()[k]);
            assert(rel(x, ancs[k]));
        }
        if exists|k: int| 0 <= k < ancs.len() && #[trigger] rel(x, ancs[k]) {
            let k = choose|k: int| 0 <= k < ancs.len() && #[trigger] rel(x, ancs[k]);
            if k < ancs.len() - 1 {
                assert(rel(x, ancs.drop_last()[k]));
            }
        }
    }
}

proof fn lemma_all_descend(rel: Ancestry, wants: Seq<Seq<u8>>, common: Seq<Seq<u8>>)
    ensures
        all_descend(rel, wants, common) <==> forall|k: int| 0 <= k < wants.len() ==> #[trigger] descends_from_any(rel, wants[k], common),
    decreases wants.len(),
{
    if wants.len() > 0 {
        lemma_all_descend(rel, wants.drop_last(), common);
        if all_descend(rel, wants, common) {
            assert forall|k: int| 0 <= k < wants.len() implies #[trigger] descends_from_any(rel, wants[k], common) by {
                if k < wants.len() - 1 {
                    assert(descends_from_any(rel, wants.drop_last()[k], common));
                }
            }
        }
        if forall|k: int| 0 <= k < wants.len() ==> #[trigger] descends_from_any(rel, wants[k], common) {
            assert forall|k: int| 0 <= k < wants.drop_last().len() implies #[trigger] descends_from_any(rel, wants.drop_last()[k], common) by {
                assert(descends_from_any(rel, wants[k], common));
            }
        }
    }
}

proof fn lemma_any_take_step(rel: Ancestry, ds: Seq<Seq<u8>>, j: int, x: Seq<u8>)
    requires
        0 <= j < ds.len(),
    ensures
        any_descendant(rel, ds.take(j + 1), x) == (any_descendant(rel, ds.take(j), x) || rel(ds[j], x)),
{
    assert(ds.take(j + 1).drop_last() =~= ds.take(j));
}

proof fn lemma_descends_take_step(rel: Ancestry, x: Seq<u8>, ancs: Seq<Seq<u8>>, j: int)
    requires
        0 <= j < ancs.len(),
    ensures
        descends_from_any(rel, x, ancs.take(j + 1)) == (descends_from_any(rel, x, ancs.take(j)) || rel(x, ancs[j])),
{
    assert(ancs.take(j + 1).drop_last() =~= ancs.take(j));
}

proof fn lemma_all_take_step(rel: Ancestry, wants: Seq<Seq<u8>>, i: int, common: Seq<Seq<u8>>)
    requires
        0 <= i < wants.len(),
    ensures
        all_descend(rel, wants.take(i + 1), common) == (all_descend(rel, wants.take(i), common) && descends_from_any(rel, wants[i], common)),
{
    assert(wants.take(i + 1).drop_last() =~= wants.take(i));
}

proof fn lemma_common_take_step(rel: Ancestry, haves: Seq<Seq<u8>>, i: int, refs: Seq<Seq<u8>>)
    requires
        0 <= i < haves.len(),
    ensures
        common_of(rel, haves.take(i + 1), refs) == ({
            let c = common_of(rel, haves.take(i), refs);
            let h = haves[i];
            if any_descendant(rel, refs, h) && !any_descendant(rel, c, h) {
                c.push(h)
            } else {
                c
            }
        }),
{
    assert(haves.take(i + 1).drop_last() =~= haves.take(i));
}

proof fn lemma_start_closure(v: NegV, rel: Ancestry)
    requires
        v.common == common_of(rel, v.haves, v.refs),
    ensures
        consistent(start_closure(v), rel),
{
    let w = start_closure(v);
    assert(v.wants.take(0) =~= Seq::<Seq<u8>>::empty());
    assert(v.common.take(0) =~= Seq::<Seq<u8>>::empty());
    if !v.done && v.wants.len() > 0 && v.common.len() == 0 {
        lemma_all_descend(rel, v.wants, v.common);
        assert(!descends_from_any(rel, v.wants[0], v.common));
    }
}

proof fn lemma_settle_have(v: NegV, rel: Ancestry)
    requires
        v.i <= v.haves.len(),
        v.common == common_of(rel, v.haves.take(v.i as int), v.refs),
    ensures
        consistent(settle_have(v), rel),
    decreases v.haves.len() - v.i,
{
    if v.i >= v.haves.len() {
        assert(v.haves.take(v.i as int) =~= v.haves);
        lemma_start_closure(v, rel);
    } else if v.refs.len() == 0 {
        lemma_common_take_step(rel, v.haves, v.i as int, v.refs);
        assert(!any_descendant(rel, v.refs, v.haves[v.i as int]));
        lemma_settle_have(NegV { i: v.i + 1, ..v }, rel);
    } else {
        assert(v.refs.take(0) =~= Seq::<Seq<u8>>::empty());
    }
}

proof fn lemma_enter_common(v: NegV, rel: Ancestry)
    requires
        v.i < v.haves.len(),
        v.common == common_of(rel, v.haves.take(v.i as int), v.refs),
        any_descendant(rel, v.refs, v.haves[v.i as int]),
    ensures
        consistent(enter_common(v), rel),
{
    if v.common.len() == 0 {
        lemma_common_take_step(rel, v.haves, v.i as int, v.refs);
        lemma_settle_have(NegV { common: v.common.push(v.haves[v.i as int]), i: v.i + 1, ..v }, rel);
    } else {
        assert(v.common.take(0) =~= Seq::<Seq<u8>>::empty());
    }
}

/// The first question is the one the server asks first, for every ancestry
/// relation: the negotiation starts consistent with any repository.
pub proof fn law_initial_consistent(req: RequestV, refs: Seq<Seq<u8>>, rel: Ancestry)
    ensures
        consistent(initial(req, refs), rel),
{
    let v = NegV {
        refs: refs,
        haves: req.haves,
        wants: req.wants,
        done: req.done,
        common: seq![],
        stage: Stage::Refs,
        i: 0,
        j: 0,
    };
    assert(req.haves.take(0) =~= Seq::<Seq<u8>>::empty());
    lemma_settle_have(v, rel);
}

/// Answering the current question truthfully for a repository keeps the
/// negotiation where the server stands for that repository.
pub proof fn law_answer_consistent(v: NegV, yes: bool, rel: Ancestry)
    requires
        consistent(v, rel),
        query(v) matches Some(q) && rel(q.0, q.1) == yes,
    ensures
        consistent(next_state(v, yes), rel),
{
    let i = v.i as int;
    let j = v.j as int;
    match v.stage {
        Stage::Refs => {
            let h = v.haves[i];
            lemma_any_take_step(rel, v.refs, j, h);
            if yes {
                lemma_any_descendant(rel, v.refs.take(j + 1), h);
                lemma_any_descendant(rel, v.refs, h);
                assert(v.refs.take(j + 1)[j] == v.refs[j]);
                lemma_enter_common(v, rel);
            } else if j + 1 < v.refs.len() {
            } else {
                assert(v.refs.take(j + 1) =~= v.refs);
                lemma_common_take_step(rel, v.haves, i, v.refs);
                lemma_settle_have(NegV { i: v.i + 1, ..v }, rel);
            }
        },
        Stage::Common => {
            let h = v.haves[i];
            lemma_any_take_step(rel, v.common, j, h);
            lemma_common_take_step(rel, v.haves, i, v.refs);
            if yes {
                lemma_any_descendant(rel, v.common.take(j + 1), h);
                lemma_any_descendant(rel, v.common, h);
                assert(v.common.take(j + 1)[j] == v.common[j]);
                lemma_settle_have(NegV { i: v.i + 1, ..v }, rel);
            } else if j + 1 < v.common.len() {
            } else {
                assert(v.common.take(j + 1) =~= v.common);
                lemma_settle_have(NegV { common: v.common.push(h), i: v.i + 1, ..v }, rel);
            }
        },
        Stage::Closure => {
            let w = v.wants[i];
            lemma_descends_take_step(rel, w, v.common, j);
            lemma_all_take_step(rel, v.wants, i, v.common);
            if yes {
                lemma_descends_from_any(rel, w, v.common.take(j + 1));
                lemma_descends_from_any(rel, w, v.common);
                assert(v.common.take(j + 1)[j] == v.common[j]);
                if i + 1 < v.wants.len() {
                    assert(v.common.take(0) =~= Seq::<Seq<u8>>::empty());
                } else {
                    assert(v.wants.take(i + 1) =~= v.wants);
                }
            } else if j + 1 < v.common.len() {
            } else {
                assert(v.common.take(j + 1) =~= v.common);
                lemma_all_descend(rel, v.wants, v.common);
            }
        },
        Stage::Decided(_) => {},
    }
}

/// Once decided, the negotiation has found the server's common commits and
/// its choice between a pack and a request for more haves.
pub proof fn law_decision(v: NegV, rel: Ancestry, req: RequestV)
    requires
        consistent(v, rel),
        v.stage matches Stage::Decided(_),
        v.haves == req.haves,
        v.wants == req.wants,
        v.done == req.done,
    ensures
        v.common == common_of(rel, req.haves, v.refs),
        v.stage == Stage::Decided(decides_pack(rel, req, v.refs)),
{
}

/// How far a negotiation is from its decision: the phase, then the haves or
/// wants left, then what is left to ask about the current one.
pub open spec fn remaining_work(v: NegV) -> (nat, nat, nat, nat) {
    match v.stage {
        Stage::Refs => (2, (v.haves.len() - v.i) as nat, 1, (v.refs.len() - v.j) as nat),
        Stage::Common => (2, (v.haves.len() - v.i) as nat, 0, (v.common.len() - v.j) as nat),
        Stage::Closure => (1, (v.wants.len() - v.i) as nat, (v.common.len() - v.j) as nat, 0),
        Stage::Decided(_) => (0, 0, 0, 0),
    }
}

/// Lexicographic order on four numbers.
pub open spec fn lex_less(a: (nat, nat, nat, nat), b: (nat, nat, nat, nat)) -> bool {
    ||| a.0 < b.0
    ||| a.0 == b.0 && a.1 < b.1
    ||| a.0 == b.0 && a.1 == b.1 && a.2 < b.2
    ||| a.0 == b.0 && a.1 == b.1 && a.2 == b.2 && a.3 < b.3
}

proof fn lemma_settle_progress(v: NegV)
    requires
        v.i <= v.haves.len(),
    ensures
        ({
            let w = settle_have(v);
            ||| w.stage is Refs && w.i >= v.i && w.i < w.haves.len() && w.haves == v.haves
            ||| w.stage is Closure
            ||| w.stage is Decided
        }),
    decreases v.haves.len() - v.i,
{
    if v.i < v.haves.len() && v.refs.len() == 0 {
        lemma_settle_progress(NegV { i: v.i + 1, ..v });
    }
}

/// Every answer brings the negotiation closer to its decision: what is left
/// to ask shrinks in lexicographic order, so the questions come to an end.
pub proof fn law_answer_progress(v: NegV, yes: bool)
    requires
        wf(v),
        !(v.stage is Decided),
    ensures
        lex_less(remaining_work(next_state(v, yes)), remaining_work(v)),
{
    match v.stage {
        Stage::Refs => {
            lemma_settle_progress(NegV { common: v.common.push(v.haves[v.i as int]), i: v.i + 1, ..v });
            lemma_settle_progress(NegV { i: v.i + 1, ..v });
        },
        Stage::Common => {
            lemma_settle_progress(NegV { common: v.common.push(v.haves[v.i as int]), i: v.i + 1, ..v });
            lemma_settle_progress(NegV { i: v.i + 1, ..v });
        },
        _ => {},
    }
}

/// The negotiation after at most `steps` questions, each answered as the
/// ancestry relation `rel` says.
pub open spec fn run(v: NegV, rel: Ancestry, steps: nat) -> NegV
    decreases steps,
{
    if steps == 0 {
        v
    } else {
        match query(v) {
            Some(q) => run(next_state(v, rel(q.0, q.1)), rel, (steps - 1) as nat),
            None => v,
        }
    }
}

/// The request and the references do not change while negotiating.
pub open spec fn same_inputs(a: NegV, b: NegV) -> bool {
    a.refs == b.refs && a.haves == b.haves && a.wants == b.wants && a.done == b.done
}

proof fn lemma_settle_keeps(v: NegV)
    requires
        v.i <= v.haves.len(),
    ensures
        same_inputs(settle_have(v), v),
    decreases v.haves.len() - v.i,
{
    if v.i < v.haves.len() && v.refs.len() == 0 {
        lemma_settle_keeps(NegV { i: v.i + 1, ..v });
    }
}

proof fn lemma_next_keeps(v: NegV, yes: bool)
    requires
        wf(v),
    ensures
        same_inputs(next_state(v, yes), v),
{
    match v.stage {
        Stage::Refs => {
            lemma_settle_keeps(NegV { common: v.common.push(v.haves[v.i as int]), i: v.i + 1, ..v });
            lemma_settle_keeps(NegV { i: v.i + 1, ..v });
        },
        Stage::Common => {
            lemma_settle_keeps(NegV { common: v.common.push(v.haves[v.i as int]), i: v.i + 1, ..v });
            lemma_settle_keeps(NegV { i: v.i + 1, ..v });
        },
        _ => {},
    }
}

proof fn lemma_run_decides(v: NegV, rel: Ancestry)
    requires
        consistent(v, rel),
    ensures
        exists|n: nat|
            {
                let w = #[trigger] run(v, rel, n);
                &&& w.stage is Decided
                &&& consistent(w, rel)
                &&& same_inputs(w, v)
            },
    decreases remaining_work(v).0, remaining_work(v).1, remaining_work(v).2, remaining_work(v).3,
{
    match query(v) {
        None => {
            assert(run(v, rel, 0) == v);
        },
        Some(q) => {
            let yes = rel(q.0, q.1);
            let w = next_state(v, yes);
            law_answer_consistent(v, yes, rel);
            law_answer_progress(v, yes);
            lemma_next_keeps(v, yes);
            lemma_run_decides(w, rel);
            let n = choose|n: nat|
                {
                    let x = #[trigger] run(w, rel, n);
                    &&& x.stage is Decided
                    &&& consistent(x, rel)
                    &&& same_inputs(x, w)
                };
            assert(run(v, rel, n + 1) == run(w, rel, n));
        },
    }
}

/// For every repository, the negotiation, each question answered as the
/// repository's ancestry answers it, comes to a decision after finitely many
/// questions, and it decides as the server's rules say: a pack exactly when
/// the client is done or every want descends from a common commit, with the
/// common commits that the rules pick from the haves.
pub proof fn law_negotiation_decides(req: RequestV, refs: Seq<Seq<u8>>, rel: Ancestry)
    ensures
        exists|n: nat|
            {
                let w = #[trigger] run(initial(req, refs), rel, n);
                &&& w.stage == Stage::Decided(decides_pack(rel, req, refs))
                &&& w.common == common_of(rel, req.haves, refs)
            },
{
    let start = NegV {
        refs: refs,
        haves: req.haves,
        wants: req.wants,
        done: req.done,
        common: seq![],
        stage: Stage::Refs,
        i: 0,
        j: 0,
    };
    lemma_settle_keeps(start);
    law_initial_consistent(req, refs, rel);
    lemma_run_decides(initial(req, refs), rel);
    let n = choose|n: nat|
        {
            let x = #[trigger] run(initial(req, refs), rel, n);
            &&& x.stage is Decided
            &&& consistent(x, rel)
            &&& same_inputs(x, initial(req, refs))
        };
    law_decision(run(initial(req, refs), rel, n), rel, req);
}

/// The indices of a state point into its sequences.
pub open spec fn wf(v: NegV) -> bool {
    match v.stage {
        Stage::Refs => v.i < v.haves.len() && v.j < v.refs.len(),
        Stage::Common => v.i < v.haves.len() && v.j < v.common.len(),
        Stage::Closure => v.i < v.wants.len() && v.j < v.common.len(),
        Stage::Decided(_) => true,
    }
}

proof fn lemma_settle_wf(v: NegV)
    requires
        v.i <= v.haves.len(),
    ensures
        wf(settle_have(v)),
    decreases v.haves.len() - v.i,
{
    if v.i < v.haves.len() && v.refs.len() == 0 {
        lemma_settle_wf(NegV { i: v.i + 1, ..v });
    }
}

proof fn lemma_next_wf(v: NegV, yes: bool)
    requires
        wf(v),
    ensures
        wf(next_state(v, yes)),
{
    match v.stage {
        Stage::Refs => {
            lemma_settle_wf(NegV { common: v.common.push(v.haves[v.i as int]), i: v.i + 1, ..v });
            lemma_settle_wf(NegV { i: v.i + 1, ..v });
        },
        Stage::Common => {
            lemma_settle_wf(NegV { common: v.common.push(v.haves[v.i as int]), i: v.i + 1, ..v });
            lemma_settle_wf(NegV { i: v.i + 1, ..v });
        },
        _ => {},
    }
}

/// A negotiation in progress: the client's request, the repository's
/// reference targets, the common commits found so far, and the question
/// being asked.
pub struct Negotiation {
    refs: Vec<Oid>,
    request: Request,
    common: Vec<Oid>,
    stage: Stage,
    i: usize,
    j: usize,
}

impl View for Negotiation {
    type V = NegV;

    closed spec fn view(&self) -> NegV {
        NegV {
            refs: oid_views(self.refs@),
            haves: self.request@.haves,
            wants: self.request@.wants,
            done: self.request@.done,
            common: oid_views(self.common@),
            stage: self.stage,
            i: self.i as nat,
            j: self.j as nat,
        }
    }
}

impl Negotiation {
    /// The indices point into the sequences.
    pub closed spec fn well_formed(&self) -> bool {
        wf(self@)
    }

    /// The capabilities of the client.
    pub closed spec fn capabilities(&self) -> Seq<CapabilityV> {
        self.request@.capabilities
    }

    fn settle_have(&mut self)
        requires
            old(self)@.i <= old(self)@.haves.len(),
        ensures
            final(self)@ == settle_have(old(self)@),
            final(self).capabilities() == old(self).capabilities(),
    {
        let ghost start = self@;
        while self.i < self.request.haves.len() && self.refs.len() == 0
            invariant
                self.i <= self.request.haves@.len(),
                settle_have(self@) == settle_have(start),
                self.capabilities() == old(self).capabilities(),
            decreases self.request.haves@.len() - self.i,
        {
            let ghost before = self@;
            self.i = self.i + 1;
            assert(self@ == NegV { i: before.i + 1, ..before });
        }
        if self.i >= self.request.haves.len() {
            self.start_closure();
        } else {
            self.stage = Stage::Refs;
            self.j = 0;
        }
    }

    fn start_closure(&mut self)
        ensures
            final(self)@ == start_closure(old(self)@),
            final(self).capabilities() == old(self).capabilities(),
    {
        if self.request.done || self.request.wants.len() == 0 {
            self.stage = Stage::Decided(true);
        } else if self.common.len() == 0 {
            self.stage = Stage::Decided(false);
        } else {
            self.stage = Stage::Closure;
        }
        self.i = 0;
        self.j = 0;
    }

    fn add_common(&mut self, id: Oid)
        ensures
            final(self)@ == (NegV { common: old(self)@.common.push(id.bytes@), ..old(self)@ }),
            final(self).capabilities() == old(self).capabilities(),
    {
        self.common.push(id);
        assert(oid_views(self.common@) =~= oid_views(old(self).common@).push(id.bytes@));
    }

    /// Starts negotiating `request` against the repository's reference
    /// targets `refs`.
    pub fn new(request: Request, refs: Vec<Oid>) -> (r: Negotiation)
        ensures
            r.well_formed(),
            r@ == initial(request@, oid_views(refs@)),
            r.capabilities() == request@.capabilities,
    {
        let mut n = Negotiation { refs, request, common: Vec::new(), stage: Stage::Refs, i: 0, j: 0 };
        assert(oid_views(n.common@) =~= Seq::<Seq<u8>>::empty());
        let ghost pre = n@;
        n.settle_have();
        proof {
            lemma_settle_wf(pre);
        }
        n
    }

    /// The question to answer next, or `None` once decided: does the first
    /// commit descend from the second?
    pub fn query(&self) -> (r: Option<(Oid, Oid)>)
        requires
            self.well_formed(),
        ensures
            match (r, query(self@)) {
                (Some(q), Some(p)) => q.0.bytes@ == p.0 && q.1.bytes@ == p.1,
                (None, None) => true,
                _ => false,
            },
    {
        match self.stage {
            Stage::Refs => Some((self.refs[self.j], self.request.haves[self.i])),
            Stage::Common => Some((self.common[self.j], self.request.haves[self.i])),
            Stage::Closure => Some((self.request.wants[self.i], self.common[self.j])),
            Stage::Decided(_) => None,
        }
    }

    /// Takes the answer to the current question.
    pub fn answer(&mut self, is_descendant: bool)
        requires
            old(self).well_formed(),
        ensures
            final(self).well_formed(),
            final(self)@ == next_state(old(self)@, is_descendant),
            final(self).capabilities() == old(self).capabilities(),
    {
        proof {
            lemma_next_wf(self@, is_descendant);
            assert(self@.haves.len() == self.request.haves@.len());
            assert(self@.wants.len() == self.request.wants@.len());
            assert(self@.refs.len() == self.refs@.len());
            assert(self@.common.len() == self.common@.len());
        }
        let n_haves = self.request.haves.len();
        let n_wants = self.request.wants.len();
        let n_refs = self.refs.len();
        let n_common = self.common.len();
        match self.stage {
            Stage::Refs => {
                if is_descendant {
                    if self.common.len() == 0 {
                        let h = self.request.haves[self.i];
                        self.add_common(h);
                        self.i = self.i + 1;
                        self.settle_have();
                    } else {
                        self.stage = Stage::Common;
                        self.j = 0;
                    }
                } else if self.j + 1 < n_refs {
                    self.j = self.j + 1;
                } else {
                    self.i = self.i + 1;
                    self.settle_have();
                }
            },
            Stage::Common => {
                if is_descendant {
                    self.i = self.i + 1;
                    self.settle_have();
                } else if self.j + 1 < n_common {
                    self.j = self.j + 1;
                } else {
                    let h = self.request.haves[self.i];
                    self.add_common(h);
                    self.i = self.i + 1;
                    self.settle_have();
                }
            },
            Stage::Closure => {
                if is_descendant {
                    if self.i + 1 < n_wants {
                        self.i = self.i + 1;
                        self.j = 0;
                    } else {
                        self.stage = Stage::Decided(true);
                    }
                } else if self.j + 1 < n_common {
                    self.j = self.j + 1;
                } else {
                    self.stage = Stage::Decided(false);
                }
            },
            Stage::Decided(_) => {},
        }
    }

    /// The decision, once made: `true` for a pack.
    pub fn decision(&self) -> (r: Option<bool>)
        ensures
            match self@.stage {
                Stage::Decided(p) => r == Some(p),
                _ => r is None,
            },
    {
        match self.stage {
            Stage::Decided(p) => Some(p),
            _ => None,
        }
    }

    /// The commits the client wants.
    pub fn wants(&self) -> (r: &Vec<Oid>)
        ensures
            oid_views(r@) == self@.wants,
    {
        &self.request.wants
    }

    /// The common commits found so far.
    pub fn common(&self) -> (r: &Vec<Oid>)
        ensures
            oid_views(r@) == self@.common,
    {
        &self.common
    }

    /// The answer once a pack is decided: the pack of `commits`, which the
    /// repository lists for the wants less what the common commits reach.
    pub fn into_pack(self, commits: Vec<Oid>) -> (r: Response)
        requires
            self@.stage == Stage::Decided(true),
        ensures
            r matches Response::Pack(p) && p.commits@ == commits@ && oid_views(p.common@) == self@.common
                && p.capabilities@ == self.capabilities(),
    {
        Response::Pack(Pack { commits, common: self.common, capabilities: self.request.capabilities })
    }

    /// The answer once more haves are needed.
    pub fn into_continue(self) -> (r: Response)
        requires
            self@.stage == Stage::Decided(false),
        ensures
            r matches Response::Continue(c) && oid_views(c.common@) == self@.common
                && c.capabilities@ == self.capabilities(),
    {
        Response::Continue(Continue { common: self.common, capabilities: self.request.capabilities })
    }
}

} // verus!
