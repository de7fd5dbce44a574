//! Laws of the code generator, stated over the specification functions
//! that the executable compiler is proved to compute.

use vstd::prelude::*;

use crate::compiler::{compile_project_m, errors_m};
use crate::lowering::{
    body_size, expr_size, exprs_size, lower_assign_m, lower_body_m, lower_call_inputs_m,
    lower_call_m, lower_operator_m, lower_params_m, lower_say_m, lower_stmt_m, lower_stmts_m,
    lower_value_m, operator_slots, st_alloc, st_push, stmt_size, St,
};
use crate::makefile::TargetData;
use crate::parser::{Expr, Stmt};
use crate::project::{NodeModel, ProjectModel};

verus! {

/// The frame of one lowering step: the id counter only grows, and by
/// at most `w`; the arena is only appended to; and every appended node
/// carries an id minted during the step.
pub open spec fn frame_ok(st: St, st2: St, w: nat) -> bool {
    &&& st.next_id <= st2.next_id
    &&& st2.next_id <= st.next_id + w
    &&& st.blocks.len() <= st2.blocks.len()
    &&& st2.blocks.subrange(0, st.blocks.len() as int) == st.blocks
    &&& forall|k: int|
        st.blocks.len() <= k < st2.blocks.len() ==> st.next_id <= (
        #[trigger] st2.blocks[k]).0 < st2.next_id
    &&& forall|j: int, k: int|
        st.blocks.len() <= j < k < st2.blocks.len() ==> (#[trigger] st2.blocks[j]).0 != (
        #[trigger] st2.blocks[k]).0
    &&& forall|k: int|
        st.blocks.len() <= k < st2.blocks.len() ==> ((#[trigger] st2.blocks[k]).1.top_level
            || st2.blocks[k].1.parent is Some)
}

proof fn lemma_frame_refl(st: St, w: nat)
    ensures
        frame_ok(st, st, w),
{
    assert(st.blocks.subrange(0, st.blocks.len() as int) =~= st.blocks);
}

proof fn lemma_frame_widen(st: St, st2: St, w1: nat, w2: nat)
    requires
        frame_ok(st, st2, w1),
        w1 <= w2,
    ensures
        frame_ok(st, st2, w2),
{
}

proof fn lemma_frame_trans(st0: St, st1: St, st2: St, w1: nat, w2: nat)
    requires
        frame_ok(st0, st1, w1),
        frame_ok(st1, st2, w2),
    ensures
        frame_ok(st0, st2, w1 + w2),
{
    assert(st2.blocks.subrange(0, st0.blocks.len() as int) =~= st1.blocks.subrange(
        0,
        st0.blocks.len() as int,
    ));
    assert forall|k: int|
        st0.blocks.len() <= k < st1.blocks.len() implies st2.blocks[k] == st1.blocks[k] by {
        assert(st2.blocks[k] == st2.blocks.subrange(0, st1.blocks.len() as int)[k]);
        assert(st2.blocks.subrange(0, st1.blocks.len() as int) == st1.blocks);
    }
    assert forall|k: int|
        st0.blocks.len() <= k < st2.blocks.len() implies st0.next_id <= (
    #[trigger] st2.blocks[k]).0 < st2.next_id by {}
    assert forall|j: int, k: int|
        st0.blocks.len() <= j < k < st2.blocks.len() implies (#[trigger] st2.blocks[j]).0 != (
    #[trigger] st2.blocks[k]).0 by {
        if k < st1.blocks.len() {
        } else if j >= st1.blocks.len() {
        } else {
            assert(st2.blocks[j].0 < st1.next_id);
            assert(st1.next_id <= st2.blocks[k].0);
        }
    }
}

proof fn lemma_frame_push(st: St, st2: St, w: nat, id: u64, n: NodeModel)
    requires
        frame_ok(st, st2, w),
        st.next_id <= id < st2.next_id,
        forall|k: int|
            st.blocks.len() <= k < st2.blocks.len() ==> (#[trigger] st2.blocks[k]).0 != id,
        n.top_level || n.parent is Some,
    ensures
        frame_ok(st, st_push(st2, id, n), w),
{
    let st3 = st_push(st2, id, n);
    assert(st3.blocks.subrange(0, st.blocks.len() as int) =~= st2.blocks.subrange(
        0,
        st.blocks.len() as int,
    ));
}

proof fn lemma_frame_alloc(st: St)
    requires
        st.next_id < u64::MAX,
    ensures
        frame_ok(st, st_alloc(st).0, 1),
        st_alloc(st).1 == st.next_id,
        st_alloc(st).0.next_id == st.next_id + 1,
{
    assert(st_alloc(st).0.blocks.subrange(0, st.blocks.len() as int) =~= st.blocks);
}

/// The common shape "allocate an id, lower some pieces, then push the
/// node under the allocated id": the pushed id precedes every id the
/// pieces minted, so the appended segment stays duplicate-free.
proof fn lemma_frame_alloc_then(st: St, st_a: St, w: nat, n: NodeModel)
    requires
        st.next_id < u64::MAX,
        frame_ok(st_alloc(st).0, st_a, w),
        n.top_level || n.parent is Some,
    ensures
        frame_ok(st, st_push(st_a, st.next_id, n), w + 1),
{
    let st1 = st_alloc(st).0;
    lemma_frame_alloc(st);
    lemma_frame_trans(st, st1, st_a, 1, w);
    assert forall|k: int|
        st.blocks.len() <= k < st_a.blocks.len() implies (#[trigger] st_a.blocks[k]).0
        != st.next_id by {
        assert(st1.blocks == st.blocks);
        assert(st1.next_id <= st_a.blocks[k].0);
    }
    lemma_frame_push(st, st_a, (w + 1) as nat, st.next_id, n);
}

/// Frame of expression lowering: at most two ids per expression node.
proof fn lemma_operator_frame(e: Expr, host: u64, st: St)
    requires
        lower_operator_m(e, host, st) is Ok,
        st.next_id + 2 * expr_size(e) <= u64::MAX,
    ensures
        frame_ok(st, lower_operator_m(e, host, st)->Ok_0.0, 2 * expr_size(e)),
    decreases expr_size(e), 0int,
{
    match e {
        Expr::Binary(l, op, r) => {
            match operator_slots(op) {
                Option::Some(_) => {
                    let (st1, id) = st_alloc(st);
                    let (st2, v1) = lower_value_m(*l, id, st1)->Ok_0;
                    lemma_value_frame(*l, id, st1);
                    let (st3, v2) = lower_value_m(*r, id, st2)->Ok_0;
                    lemma_value_frame(*r, id, st2);
                    lemma_frame_trans(st1, st2, st3, 2 * expr_size(*l), 2 * expr_size(*r));
                    lemma_frame_alloc_then(
                        st,
                        st3,
                        (2 * expr_size(*l) + 2 * expr_size(*r)) as nat,
                        lower_operator_m(e, host, st)->Ok_0.0.blocks.last().1,
                    );
                    lemma_frame_widen(
                        st,
                        lower_operator_m(e, host, st)->Ok_0.0,
                        (1 + 2 * expr_size(*l) + 2 * expr_size(*r)) as nat,
                        2 * expr_size(e),
                    );
                },
                Option::None => {
                    let (st1, not_id) = st_alloc(st);
                    lemma_frame_alloc(st);
                    let (st2, eq_id) = st_alloc(st1);
                    lemma_frame_alloc(st1);
                    lemma_frame_trans(st, st1, st2, 1, 1);
                    let not_node = NodeModel {
                        inputs: seq![
                            (
                                crate::project::InputKey::Operand,
                                crate::project::InputValueModel::BareNode(eq_id),
                            ),
                        ],
                        ..crate::lowering::plain_node(
                            crate::project::Opcode::OperatorNot,
                            Option::Some(host),
                        )
                    };
                    let st3 = st_push(st2, not_id, not_node);
                    lemma_frame_push(st, st2, 2, not_id, not_node);
                    let (st4, v1) = lower_value_m(*l, eq_id, st3)->Ok_0;
                    lemma_value_frame(*l, eq_id, st3);
                    lemma_frame_trans(st, st3, st4, 2, 2 * expr_size(*l));
                    let (st5, v2) = lower_value_m(*r, eq_id, st4)->Ok_0;
                    lemma_value_frame(*r, eq_id, st4);
                    lemma_frame_trans(st, st4, st5, 2 + 2 * expr_size(*l), 2 * expr_size(*r));
                    lemma_frame_trans(st3, st4, st5, 2 * expr_size(*l), 2 * expr_size(*r));
                    assert forall|k: int|
                        st.blocks.len() <= k < st5.blocks.len() implies (
                    #[trigger] st5.blocks[k]).0 != eq_id by {
                        if k == st.blocks.len() {
                            assert(st5.blocks[k] == st5.blocks.subrange(
                                0,
                                st3.blocks.len() as int,
                            )[k]);
                            assert(st5.blocks.subrange(0, st3.blocks.len() as int) == st3.blocks);
                            assert(st3.blocks[k].0 == not_id);
                        } else {
                            assert(st3.blocks.len() == st.blocks.len() + 1);
                            assert(st3.next_id <= st5.blocks[k].0);
                        }
                    }
                    lemma_frame_push(
                        st,
                        st5,
                        (2 + 2 * expr_size(*l) + 2 * expr_size(*r)) as nat,
                        eq_id,
                        lower_operator_m(e, host, st)->Ok_0.0.blocks.last().1,
                    );
                    lemma_frame_widen(
                        st,
                        lower_operator_m(e, host, st)->Ok_0.0,
                        (2 + 2 * expr_size(*l) + 2 * expr_size(*r)) as nat,
                        2 * expr_size(e),
                    );
                },
            }
        },
        _ => {},
    }
}

/// Frame of value lowering.
proof fn lemma_value_frame(e: Expr, host: u64, st: St)
    requires
        lower_value_m(e, host, st) is Ok,
        st.next_id + 2 * expr_size(e) <= u64::MAX,
    ensures
        frame_ok(st, lower_value_m(e, host, st)->Ok_0.0, 2 * expr_size(e)),
    decreases expr_size(e), 1int,
{
    match e {
        Expr::Identifier(name) => {
            lemma_frame_refl(st, 2 * expr_size(e));
            if crate::symbols::resolve_model(st.var_table, st.scope_path, name@) is None {
                lemma_frame_alloc(st);
                let (st1, rid) = st_alloc(st);
                lemma_frame_push(
                    st,
                    st1,
                    1,
                    rid,
                    lower_value_m(e, host, st)->Ok_0.0.blocks.last().1,
                );
                lemma_frame_widen(st, lower_value_m(e, host, st)->Ok_0.0, 1, 2 * expr_size(e));
            }
        },
        Expr::Binary(_, _, _) => {
            lemma_operator_frame(e, host, st);
        },
        _ => {
            lemma_frame_refl(st, 2 * expr_size(e));
        },
    }
}

/// A frame whose appended nodes may also use the caller-minted id
/// `current` (the chain node of the statement being lowered).
pub open spec fn frame2_ok(st: St, st2: St, w: nat, current: u64) -> bool {
    &&& current < st.next_id
    &&& st.next_id <= st2.next_id
    &&& st2.next_id <= st.next_id + w
    &&& st.blocks.len() <= st2.blocks.len()
    &&& st2.blocks.subrange(0, st.blocks.len() as int) == st.blocks
    &&& forall|k: int|
        st.blocks.len() <= k < st2.blocks.len() ==> (#[trigger] st2.blocks[k]).0 == current || (
        st.next_id <= st2.blocks[k].0 < st2.next_id)
    &&& forall|j: int, k: int|
        st.blocks.len() <= j < k < st2.blocks.len() ==> (#[trigger] st2.blocks[j]).0 != (
        #[trigger] st2.blocks[k]).0
    &&& forall|k: int|
        st.blocks.len() <= k < st2.blocks.len() ==> ((#[trigger] st2.blocks[k]).1.top_level
            || st2.blocks[k].1.parent is Some)
}

proof fn lemma_frame_push_current(st: St, st2: St, w: nat, current: u64, n: NodeModel)
    requires
        frame_ok(st, st2, w),
        current < st.next_id,
        n.top_level || n.parent is Some,
    ensures
        frame2_ok(st, st_push(st2, current, n), w, current),
{
    let st3 = st_push(st2, current, n);
    assert(st3.blocks.subrange(0, st.blocks.len() as int) =~= st2.blocks.subrange(
        0,
        st.blocks.len() as int,
    ));
}

proof fn lemma_frame2_push_fresh(st: St, st2: St, w: nat, current: u64, id: u64, n: NodeModel)
    requires
        frame2_ok(st, st2, w, current),
        st.next_id <= id < st2.next_id,
        forall|k: int|
            st.blocks.len() <= k < st2.blocks.len() ==> (#[trigger] st2.blocks[k]).0 != id,
        n.top_level || n.parent is Some,
    ensures
        frame2_ok(st, st_push(st2, id, n), w, current),
{
    let st3 = st_push(st2, id, n);
    assert(st3.blocks.subrange(0, st.blocks.len() as int) =~= st2.blocks.subrange(
        0,
        st.blocks.len() as int,
    ));
}

proof fn lemma_frame2_trans(st0: St, st1: St, st2: St, w1: nat, w2: nat, current: u64)
    requires
        frame2_ok(st0, st1, w1, current),
        frame_ok(st1, st2, w2),
    ensures
        frame2_ok(st0, st2, w1 + w2, current),
{
    assert(st2.blocks.subrange(0, st0.blocks.len() as int) =~= st1.blocks.subrange(
        0,
        st0.blocks.len() as int,
    ));
    assert forall|k: int|
        st0.blocks.len() <= k < st1.blocks.len() implies st2.blocks[k] == st1.blocks[k] by {
        assert(st2.blocks[k] == st2.blocks.subrange(0, st1.blocks.len() as int)[k]);
        assert(st2.blocks.subrange(0, st1.blocks.len() as int) == st1.blocks);
    }
    assert forall|k: int|
        st0.blocks.len() <= k < st2.blocks.len() implies (#[trigger] st2.blocks[k]).0 == current
        || (st0.next_id <= st2.blocks[k].0 < st2.next_id) by {}
    assert forall|j: int, k: int|
        st0.blocks.len() <= j < k < st2.blocks.len() implies (#[trigger] st2.blocks[j]).0 != (
    #[trigger] st2.blocks[k]).0 by {
        if k < st1.blocks.len() {
        } else if j >= st1.blocks.len() {
        } else {
            assert(st2.blocks[j].0 == current || st2.blocks[j].0 < st1.next_id);
            assert(st1.next_id <= st2.blocks[k].0);
            assert(current < st0.next_id);
        }
    }
}

/// Frame of call-argument lowering.
proof fn lemma_inputs_frame(args: Seq<Expr>, params: Seq<(u64, crate::token::Type)>, host: u64, st: St)
    requires
        lower_call_inputs_m(args, params, host, st) is Ok,
        st.next_id + 2 * exprs_size(args) <= u64::MAX,
    ensures
        frame_ok(st, lower_call_inputs_m(args, params, host, st)->Ok_0.0, 2 * exprs_size(args)),
    decreases args, 0int,
{
    if args.len() == 0 || params.len() == 0 {
        lemma_frame_refl(st, 2 * exprs_size(args));
    } else {
        match args[0] {
            Expr::Bool(_) | Expr::FunctionCall(_, _) => {},
            _ => {
                let (st1, v) = lower_value_m(args[0], host, st)->Ok_0;
                lemma_value_frame(args[0], host, st);
                lemma_inputs_frame(args.drop_first(), params.drop_first(), host, st1);
                lemma_frame_trans(
                    st,
                    st1,
                    lower_call_inputs_m(args, params, host, st)->Ok_0.0,
                    2 * expr_size(args[0]),
                    2 * exprs_size(args.drop_first()),
                );
                lemma_frame_widen(
                    st,
                    lower_call_inputs_m(args, params, host, st)->Ok_0.0,
                    (2 * expr_size(args[0]) + 2 * exprs_size(args.drop_first())) as nat,
                    2 * exprs_size(args),
                );
            },
        }
    }
}

/// The chain shape of a statement's node: it stands at the end of the
/// arena under the caller-minted id, is parented to the enclosing
/// node, and its `next` pointer is absent exactly at the end of the
/// body, else names the id minted right after the statement.
pub open spec fn chain_shape(st2: St, current: u64, parent: u64, is_last: bool) -> bool {
    &&& st2.blocks.len() > 0
    &&& st2.blocks.last().0 == current
    &&& st2.blocks.last().1.parent == Option::Some(parent)
    &&& st2.blocks.last().1.next == (if is_last {
        Option::<u64>::None
    } else {
        Option::Some(st2.next_id)
    })
}

/// Frame and chain shape of a `say` call.
proof fn lemma_say_frame(args: Seq<Expr>, current: u64, parent: u64, tail: bool, st: St)
    requires
        lower_say_m(args, current, parent, tail, st) is Ok,
        st.next_id + 2 * exprs_size(args) <= u64::MAX,
        current < st.next_id,
    ensures
        frame2_ok(st, lower_say_m(args, current, parent, tail, st)->Ok_0, 2 * exprs_size(args), current),
        chain_shape(lower_say_m(args, current, parent, tail, st)->Ok_0, current, parent, tail),
    decreases args, 1int,
{
    let (st1, v) = lower_value_m(args[0], current, st)->Ok_0;
    lemma_value_frame(args[0], current, st);
    lemma_frame_widen(st, st1, 2 * expr_size(args[0]), 2 * exprs_size(args));
    let st2 = lower_say_m(args, current, parent, tail, st)->Ok_0;
    lemma_frame_push_current(st, st1, 2 * exprs_size(args), current, st2.blocks.last().1);
}

/// Frame and chain shape of a generic procedure call.
proof fn lemma_call_frame(f: String, args: Seq<Expr>, current: u64, parent: u64, tail: bool, st: St)
    requires
        lower_call_m(f, args, current, parent, tail, st) is Ok,
        st.next_id + 2 * exprs_size(args) <= u64::MAX,
        current < st.next_id,
    ensures
        frame2_ok(st, lower_call_m(f, args, current, parent, tail, st)->Ok_0, 2 * exprs_size(args), current),
        chain_shape(lower_call_m(f, args, current, parent, tail, st)->Ok_0, current, parent, tail),
    decreases args, 1int,
{
    let fm = crate::symbols::find_func(st.funcs, f@)->Some_0;
    let params = fm.params.map_values(|p: crate::symbols::ParamModel| (p.id, p.ty));
    let (st1, ins) = lower_call_inputs_m(args, params, current, st)->Ok_0;
    lemma_inputs_frame(args, params, current, st);
    let st2 = lower_call_m(f, args, current, parent, tail, st)->Ok_0;
    lemma_frame_push_current(st, st1, 2 * exprs_size(args), current, st2.blocks.last().1);
}

/// Frame and chain shape of the store step of a declaration or
/// assignment.
proof fn lemma_assign_frame(
    name: String,
    var_id: u64,
    e: Expr,
    current: u64,
    parent: u64,
    is_last: bool,
    st: St,
)
    requires
        lower_assign_m(name, var_id, e, current, parent, is_last, st) is Ok,
        st.next_id + 2 * expr_size(e) <= u64::MAX,
        current < st.next_id,
    ensures
        frame2_ok(
            st,
            lower_assign_m(name, var_id, e, current, parent, is_last, st)->Ok_0,
            2 * expr_size(e),
            current,
        ),
        !(e is FunctionCall) ==> chain_shape(
            lower_assign_m(name, var_id, e, current, parent, is_last, st)->Ok_0,
            current,
            parent,
            is_last,
        ),
    decreases e, 2int,
{
    let stf = lower_assign_m(name, var_id, e, current, parent, is_last, st)->Ok_0;
    match e {
        Expr::FunctionCall(f, cargs) => {
            let st1 = lower_call_m(f, cargs@, current, parent, false, st)->Ok_0;
            lemma_call_frame(f, cargs@, current, parent, false, st);
            let (st2, sv_id) = st_alloc(st1);
            assert(st1.next_id < u64::MAX);
            lemma_frame_alloc(st1);
            lemma_frame2_trans(st, st1, st2, 2 * exprs_size(cargs@), 1, current);
            assert(st.next_id <= sv_id < st2.next_id);
            assert forall|k: int|
                st.blocks.len() <= k < st2.blocks.len() implies (#[trigger] st2.blocks[k]).0
                != sv_id by {
                assert(st2.blocks == st1.blocks);
                assert(st1.blocks[k].0 == current || st1.blocks[k].0 < st1.next_id);
            }
            lemma_frame2_push_fresh(
                st,
                st2,
                (2 * exprs_size(cargs@) + 1) as nat,
                current,
                sv_id,
                stf.blocks.last().1,
            );
        },
        _ => {
            let (st1, v) = lower_value_m(e, current, st)->Ok_0;
            lemma_value_frame(e, current, st);
            lemma_frame_push_current(st, st1, 2 * expr_size(e), current, stf.blocks.last().1);
        },
    }
}

proof fn lemma_frame_then_frame2(st0: St, st1: St, st2: St, w1: nat, w2: nat, current: u64)
    requires
        frame_ok(st0, st1, w1),
        frame2_ok(st1, st2, w2, current),
        current < st0.next_id,
    ensures
        frame2_ok(st0, st2, w1 + w2, current),
{
    assert(st2.blocks.subrange(0, st0.blocks.len() as int) =~= st1.blocks.subrange(
        0,
        st0.blocks.len() as int,
    ));
    assert forall|k: int|
        st0.blocks.len() <= k < st1.blocks.len() implies st2.blocks[k] == st1.blocks[k] by {
        assert(st2.blocks[k] == st2.blocks.subrange(0, st1.blocks.len() as int)[k]);
        assert(st2.blocks.subrange(0, st1.blocks.len() as int) == st1.blocks);
    }
    assert forall|k: int|
        st0.blocks.len() <= k < st2.blocks.len() implies (#[trigger] st2.blocks[k]).0 == current
        || (st0.next_id <= st2.blocks[k].0 < st2.next_id) by {}
    assert forall|j: int, k: int|
        st0.blocks.len() <= j < k < st2.blocks.len() implies (#[trigger] st2.blocks[j]).0 != (
    #[trigger] st2.blocks[k]).0 by {
        if k < st1.blocks.len() {
        } else if j >= st1.blocks.len() {
        } else {
            assert(st0.next_id <= st2.blocks[j].0 < st1.next_id);
            assert(st2.blocks[k].0 == current || st1.next_id <= st2.blocks[k].0);
        }
    }
}

/// A statement is plain when it lowers to exactly one chain node:
/// every supported statement except `return` (which chains a
/// terminator node behind its store) and a declaration or assignment
/// whose right-hand side is a call (which chains the call node in
/// front of the store).
pub open spec fn plain_stmt(s: Stmt) -> bool {
    match s {
        Stmt::FunctionCall(_, _) => true,
        Stmt::VariableDeclaration(_, _, e) => !(e is FunctionCall),
        Stmt::VariableAssignment(_, e) => !(e is FunctionCall),
        Stmt::VariableMutation(_, _, _) => true,
        Stmt::If(_, _, _) => true,
        Stmt::While(_, _) => true,
        _ => false,
    }
}

/// Frame of one statement's lowering, and — for a plain statement —
/// the chain shape of its node.
#[verifier::rlimit(100)]
proof fn lemma_stmt_chain(
    s: Stmt,
    current: u64,
    parent: u64,
    is_last: bool,
    rv: Option<(Seq<char>, u64)>,
    st: St,
)
    requires
        lower_stmt_m(s, current, parent, is_last, rv, st) is Ok,
        st.next_id + 2 * stmt_size(s) <= u64::MAX,
        current < st.next_id,
    ensures
        frame2_ok(
            st,
            lower_stmt_m(s, current, parent, is_last, rv, st)->Ok_0,
            2 * stmt_size(s),
            current,
        ),
        plain_stmt(s) ==> chain_shape(
            lower_stmt_m(s, current, parent, is_last, rv, st)->Ok_0,
            current,
            parent,
            is_last,
        ),
    decreases s, 3int,
{
    let stf = lower_stmt_m(s, current, parent, is_last, rv, st)->Ok_0;
    match s {
        Stmt::FunctionCall(f, args) => {
            if f@ == "say"@ {
                lemma_say_frame(args@, current, parent, is_last, st);
            } else {
                lemma_call_frame(f, args@, current, parent, is_last, st);
            }
        },
        Stmt::VariableDeclaration(name, ty, e) => {
            let (st1, var_id) = st_alloc(st);
            lemma_frame_alloc(st);
            let t2 = crate::symbols::declare_model(
                st1.var_table,
                st1.scope_path,
                name@,
                var_id,
                ty,
            )->Some_0;
            let st2 = St { var_table: t2, vars: st1.vars.push((var_id, name@)), ..st1 };
            assert(frame_ok(st1, st2, 0)) by {
                assert(st2.blocks.subrange(0, st1.blocks.len() as int) =~= st1.blocks);
            }
            lemma_frame_trans(st, st1, st2, 1, 0);
            lemma_assign_frame(name, var_id, e, current, parent, is_last, st2);
            lemma_frame_then_frame2(st, st2, stf, 1, 2 * expr_size(e), current);
        },
        Stmt::VariableAssignment(name, e) => {
            let b = crate::symbols::resolve_model(st.var_table, st.scope_path, name@)->Some_0;
            lemma_assign_frame(name, b.id, e, current, parent, is_last, st);
        },
        Stmt::VariableMutation(name, mop, e) => {
            let b = crate::symbols::resolve_model(st.var_table, st.scope_path, name@)->Some_0;
            let (st1, op_id) = st_alloc(st);
            lemma_frame_alloc(st);
            let (st2, v2) = lower_value_m(e, op_id, st1)->Ok_0;
            lemma_value_frame(e, op_id, st1);
            lemma_frame_trans(st, st1, st2, 1, 2 * expr_size(e));
            let op_node = NodeModel {
                inputs: seq![
                    (
                        crate::project::InputKey::Num1,
                        crate::project::InputValueModel::VarRef(name@, b.id),
                    ),
                    (crate::project::InputKey::Num2, v2),
                ],
                ..crate::lowering::plain_node(
                    crate::lowering::mutation_opcode(mop),
                    Option::Some(current),
                )
            };
            let st3 = st_push(st2, op_id, op_node);
            lemma_frame_alloc_then(st, st2, 2 * expr_size(e), op_node);
            lemma_frame_push_current(
                st,
                st3,
                (1 + 2 * expr_size(e)) as nat,
                current,
                stf.blocks.last().1,
            );
        },
        Stmt::If(c, tb, fb) => {
            let (st1, cond_id) = lower_operator_m(c, current, st)->Ok_0;
            lemma_operator_frame(c, current, st);
            let st2 = if tb@.len() > 0 {
                let r = lower_body_m(tb@, current, rv, st1);
                lemma_body_frame(tb@, current, rv, st1);
                lemma_frame_trans(
                    st,
                    st1,
                    r->Ok_0,
                    2 * expr_size(c),
                    2 * body_size(tb@),
                );
                r->Ok_0
            } else {
                st1
            };
            let w2: nat = (2 * expr_size(c) + 2 * body_size(tb@)) as nat;
            lemma_frame_widen(st, st2, if tb@.len() > 0 { w2 } else { 2 * expr_size(c) }, w2);
            let st3 = match fb {
                Option::Some(fbv) => {
                    if fbv@.len() > 0 {
                        let r = lower_body_m(fbv@, current, rv, st2);
                        lemma_body_frame(fbv@, current, rv, st2);
                        lemma_frame_trans(st, st2, r->Ok_0, w2, 2 * body_size(fbv@));
                        r->Ok_0
                    } else {
                        st2
                    }
                },
                Option::None => st2,
            };
            let w3: nat = (w2 + (match fb {
                Option::Some(fbv) => 2 * body_size(fbv@),
                Option::None => 0nat,
            })) as nat;
            lemma_frame_widen(
                st,
                st3,
                (match fb {
                    Option::Some(fbv) => if fbv@.len() > 0 {
                        w3
                    } else {
                        w2
                    },
                    Option::None => w2,
                }),
                w3,
            );
            lemma_frame_push_current(st, st3, w3, current, stf.blocks.last().1);
        },
        Stmt::While(c, tb) => {
            let (st1, cond_id) = lower_operator_m(c, current, st)->Ok_0;
            lemma_operator_frame(c, current, st);
            let st2 = if tb@.len() > 0 {
                let r = lower_body_m(tb@, current, rv, st1);
                lemma_body_frame(tb@, current, rv, st1);
                lemma_frame_trans(
                    st,
                    st1,
                    r->Ok_0,
                    2 * expr_size(c),
                    2 * body_size(tb@),
                );
                r->Ok_0
            } else {
                st1
            };
            let w2: nat = (2 * expr_size(c) + 2 * body_size(tb@)) as nat;
            lemma_frame_widen(st, st2, if tb@.len() > 0 { w2 } else { 2 * expr_size(c) }, w2);
            lemma_frame_push_current(st, st2, w2, current, stf.blocks.last().1);
        },
        Stmt::Return(e) => {
            let (rn, rid) = rv->Some_0;
            let (st1, v) = lower_value_m(e, current, st)->Ok_0;
            lemma_value_frame(e, current, st);
            let (st2, stop_id) = st_alloc(st1);
            lemma_frame_alloc(st1);
            lemma_frame_trans(st, st1, st2, 2 * expr_size(e), 1);
            let st3 = st_push(
                st2,
                current,
                crate::lowering::setvar_node(rn, rid, v, parent, Option::Some(stop_id)),
            );
            lemma_frame_push_current(
                st,
                st2,
                (2 * expr_size(e) + 1) as nat,
                current,
                crate::lowering::setvar_node(rn, rid, v, parent, Option::Some(stop_id)),
            );
            assert forall|k: int|
                st.blocks.len() <= k < st3.blocks.len() implies (#[trigger] st3.blocks[k]).0
                != stop_id by {
                if k < st2.blocks.len() {
                    assert(st3.blocks[k] == st2.blocks[k]);
                    assert(st2.blocks == st1.blocks);
                    assert(st1.blocks[k].0 < st1.next_id);
                } else {
                    assert(st3.blocks[k].0 == current);
                }
            }
            lemma_frame2_push_fresh(
                st,
                st3,
                (2 * expr_size(e) + 1) as nat,
                current,
                stop_id,
                stf.blocks.last().1,
            );
        },
        _ => {},
    }
}

/// Frame of one body's lowering: entering and leaving the scope does
/// not touch the arena or the id counter.
proof fn lemma_body_frame(ss: Seq<Stmt>, parent: u64, rv: Option<(Seq<char>, u64)>, st: St)
    requires
        lower_body_m(ss, parent, rv, st) is Ok,
        st.next_id + 2 * body_size(ss) <= u64::MAX,
    ensures
        frame_ok(st, lower_body_m(ss, parent, rv, st)->Ok_0, 2 * body_size(ss)),
    decreases ss, 1int,
{
    let entered = St { scope_path: st.scope_path.push(parent), ..st };
    lemma_stmts_chain(ss, parent, rv, entered);
    let st2 = lower_stmts_m(ss, parent, rv, entered)->Ok_0;
    assert(frame_ok(st, lower_body_m(ss, parent, rv, st)->Ok_0, 2 * body_size(ss))) by {
        assert(entered.blocks == st.blocks && entered.next_id == st.next_id);
        assert(lower_body_m(ss, parent, rv, st)->Ok_0.blocks == st2.blocks);
        assert(lower_body_m(ss, parent, rv, st)->Ok_0.next_id == st2.next_id);
    }
}

/// The node stored under an id: the last entry of the arena with that
/// id, mirroring insertion into a map.
pub open spec fn block_at(bs: Seq<(u64, NodeModel)>, id: u64) -> Option<NodeModel>
    decreases bs.len(),
{
    if bs.len() == 0 {
        Option::None
    } else if bs.last().0 == id {
        Option::Some(bs.last().1)
    } else {
        block_at(bs.drop_last(), id)
    }
}

proof fn lemma_block_at_extend(b1: Seq<(u64, NodeModel)>, b2: Seq<(u64, NodeModel)>, id: u64)
    requires
        b1.len() <= b2.len(),
        b2.subrange(0, b1.len() as int) == b1,
        forall|k: int| b1.len() <= k < b2.len() ==> (#[trigger] b2[k]).0 != id,
    ensures
        block_at(b2, id) == block_at(b1, id),
    decreases b2.len(),
{
    if b2.len() > b1.len() {
        assert(b2.last().0 != id);
        assert(b2.drop_last().subrange(0, b1.len() as int) =~= b2.subrange(0, b1.len() as int));
        lemma_block_at_extend(b1, b2.drop_last(), id);
    } else {
        assert(b2 =~= b1);
    }
}

/// The chain node ids a body's statements receive: the id minted at
/// each statement's turn, in order.
pub open spec fn chain_ids(
    ss: Seq<Stmt>,
    parent: u64,
    rv: Option<(Seq<char>, u64)>,
    st: St,
) -> Seq<u64>
    decreases ss.len(),
{
    if ss.len() == 0 {
        Seq::empty()
    } else {
        let (st1, current) = st_alloc(st);
        match lower_stmt_m(ss[0], current, parent, ss.len() == 1, rv, st1) {
            Result::Ok(st2) => seq![current] + chain_ids(ss.drop_first(), parent, rv, st2),
            Result::Err(_) => seq![current],
        }
    }
}

/// The whole chain property of a statement list, together with its
/// frame.
#[verifier::rlimit(100)]
proof fn lemma_stmts_chain(ss: Seq<Stmt>, parent: u64, rv: Option<(Seq<char>, u64)>, st: St)
    requires
        lower_stmts_m(ss, parent, rv, st) is Ok,
        st.next_id + 2 * body_size(ss) <= u64::MAX,
    ensures
        frame_ok(st, lower_stmts_m(ss, parent, rv, st)->Ok_0, 2 * body_size(ss)),
        (forall|i: int| 0 <= i < ss.len() ==> plain_stmt(#[trigger] ss[i])) ==> ({
            let stf = lower_stmts_m(ss, parent, rv, st)->Ok_0;
            let ids = chain_ids(ss, parent, rv, st);
            &&& ids.len() == ss.len()
            &&& (ss.len() > 0 ==> ids[0] == st.next_id)
            &&& forall|i: int| 0 <= i < ids.len() ==> st.next_id <= #[trigger] ids[i] < stf.next_id
            &&& forall|i: int| 0 <= i < ids.len() - 1 ==> #[trigger] ids[i] < ids[i + 1]
            &&& forall|i: int| 0 <= i < ids.len() ==> block_at(stf.blocks, #[trigger] ids[i]) is Some
            &&& forall|i: int|
                0 <= i < ids.len() ==> block_at(stf.blocks, #[trigger] ids[i])->Some_0.parent
                    == Option::Some(parent)
            &&& forall|i: int|
                0 <= i < ids.len() - 1 ==> block_at(stf.blocks, #[trigger] ids[i])->Some_0.next
                    == Option::Some(ids[i + 1])
            &&& (ids.len() > 0 ==> block_at(stf.blocks, ids.last())->Some_0.next is None)
        }),
    decreases ss, 0int,
{
    if ss.len() == 0 {
        lemma_frame_refl(st, 2 * body_size(ss));
    } else {
        let (st1, current) = st_alloc(st);
        lemma_frame_alloc(st);
        let st_mid = lower_stmt_m(ss[0], current, parent, ss.len() == 1, rv, st1)->Ok_0;
        lemma_stmt_chain(ss[0], current, parent, ss.len() == 1, rv, st1);
        lemma_stmts_chain(ss.drop_first(), parent, rv, st_mid);
        let stf = lower_stmts_m(ss, parent, rv, st)->Ok_0;
        assert(stf == lower_stmts_m(ss.drop_first(), parent, rv, st_mid)->Ok_0);
        // Frame composition.
        assert(frame2_ok(st1, st_mid, 2 * stmt_size(ss[0]), current));
        assert(frame_ok(st_mid, stf, 2 * body_size(ss.drop_first())));
        assert forall|k: int|
            st.blocks.len() <= k < stf.blocks.len() implies st.next_id <= (
        #[trigger] stf.blocks[k]).0 < stf.next_id by {
            if k < st1.blocks.len() {
                assert(false);
            } else if k < st_mid.blocks.len() {
                assert(stf.blocks[k] == stf.blocks.subrange(0, st_mid.blocks.len() as int)[k]);
                assert(stf.blocks.subrange(0, st_mid.blocks.len() as int) == st_mid.blocks);
                assert(st_mid.blocks[k].0 == current || st1.next_id <= st_mid.blocks[k].0
                    < st_mid.next_id);
            }
        }
        assert(stf.blocks.subrange(0, st.blocks.len() as int) =~= st_mid.blocks.subrange(
            0,
            st.blocks.len() as int,
        ));
        assert forall|j: int|
            st.blocks.len() <= j < st_mid.blocks.len() implies stf.blocks[j]
            == st_mid.blocks[j] by {
            assert(stf.blocks[j] == stf.blocks.subrange(0, st_mid.blocks.len() as int)[j]);
            assert(stf.blocks.subrange(0, st_mid.blocks.len() as int) == st_mid.blocks);
        }
        assert forall|j: int, k: int|
            st.blocks.len() <= j < k < stf.blocks.len() implies (#[trigger] stf.blocks[j]).0 != (
        #[trigger] stf.blocks[k]).0 by {
            if k < st_mid.blocks.len() {
            } else if j >= st_mid.blocks.len() {
            } else {
                assert(stf.blocks[j].0 == current || stf.blocks[j].0 < st_mid.next_id);
                assert(st_mid.next_id <= stf.blocks[k].0);
                assert(current < st1.next_id);
            }
        }
        assert(frame_ok(st, stf, 2 * body_size(ss)));
        // Chain composition, when every statement is plain.
        if forall|i: int| 0 <= i < ss.len() ==> plain_stmt(#[trigger] ss[i]) {
            assert(plain_stmt(ss[0]));
            assert forall|i: int|
                0 <= i < ss.drop_first().len() implies plain_stmt(
                #[trigger] ss.drop_first()[i]) by {
                assert(ss.drop_first()[i] == ss[i + 1]);
            }
            let ids_rest = chain_ids(ss.drop_first(), parent, rv, st_mid);
            let ids = chain_ids(ss, parent, rv, st);
            assert(ids == seq![current] + ids_rest);
            assert(ids.len() == ss.len());
            assert(ids[0] == current);
            assert forall|i: int| 1 <= i < ids.len() implies #[trigger] ids[i] == ids_rest[i
                - 1] by {
                assert((seq![current] + ids_rest)[i] == ids_rest[i - 1]);
            }
            // The head node survives the rest of the lowering.
            assert(chain_shape(st_mid, current, parent, ss.len() == 1));
            assert(block_at(st_mid.blocks, current) == Option::Some(st_mid.blocks.last().1));
            assert forall|k: int|
                st_mid.blocks.len() <= k < stf.blocks.len() implies (
            #[trigger] stf.blocks[k]).0 != current by {
                assert(st_mid.next_id <= stf.blocks[k].0 < stf.next_id);
                assert(current < st1.next_id);
            }
            lemma_block_at_extend(st_mid.blocks, stf.blocks, current);
            let n0 = block_at(stf.blocks, current)->Some_0;
            assert(n0.parent == Option::Some(parent));
            if ss.len() == 1 {
                assert(ids_rest.len() == 0);
                assert(n0.next is None);
                assert(ids.last() == current);
            } else {
                assert(ids_rest.len() > 0);
                assert(ids_rest[0] == st_mid.next_id);
                assert(n0.next == Option::Some(st_mid.next_id));
                assert(ids[1] == ids_rest[0]);
                assert(ids.last() == ids_rest.last()) by {
                    assert(ids[ids.len() - 1] == ids_rest[ids.len() - 2]);
                }
            }
        }
    }
}

/// The body chain law: lowering a body of `n` plain statements
/// produces exactly `n` chain node ids, strictly increasing; the node
/// of each is parented to the enclosing node; each points by `next` to
/// the next statement's id; and the last has no `next`.
pub proof fn lemma_body_chain(ss: Seq<Stmt>, parent: u64, rv: Option<(Seq<char>, u64)>, st: St)
    requires
        lower_body_m(ss, parent, rv, st) is Ok,
        st.next_id + 2 * body_size(ss) <= u64::MAX,
        forall|i: int| 0 <= i < ss.len() ==> plain_stmt(#[trigger] ss[i]),
    ensures
        ({
            let entered = St { scope_path: st.scope_path.push(parent), ..st };
            let stf = lower_body_m(ss, parent, rv, st)->Ok_0;
            let ids = chain_ids(ss, parent, rv, entered);
            &&& ids.len() == ss.len()
            &&& (ss.len() > 0 ==> ids[0] == st.next_id)
            &&& forall|i: int| 0 <= i < ids.len() - 1 ==> #[trigger] ids[i] < ids[i + 1]
            &&& forall|i: int| 0 <= i < ids.len() ==> block_at(stf.blocks, #[trigger] ids[i]) is Some
            &&& forall|i: int|
                0 <= i < ids.len() ==> block_at(stf.blocks, #[trigger] ids[i])->Some_0.parent
                    == Option::Some(parent)
            &&& forall|i: int|
                0 <= i < ids.len() - 1 ==> block_at(stf.blocks, #[trigger] ids[i])->Some_0.next
                    == Option::Some(ids[i + 1])
            &&& (ids.len() > 0 ==> block_at(stf.blocks, ids.last())->Some_0.next is None)
        }),
{
    let entered = St { scope_path: st.scope_path.push(parent), ..st };
    lemma_stmts_chain(ss, parent, rv, entered);
    let st2 = lower_stmts_m(ss, parent, rv, entered)->Ok_0;
    assert(lower_body_m(ss, parent, rv, st)->Ok_0.blocks == st2.blocks);
}

/// Frame of parameter lowering: two ids per parameter, no nodes
/// pushed; the collected reporter nodes carry fresh, pairwise distinct
/// ids.
proof fn lemma_params_frame(ps: Seq<(String, crate::token::Type)>, proto_id: u64, st: St)
    requires
        lower_params_m(ps, proto_id, st) is Ok,
        st.next_id + 2 * ps.len() <= u64::MAX,
    ensures
        ({
            let (st2, pm, im, bm) = lower_params_m(ps, proto_id, st)->Ok_0;
            &&& st.next_id <= st2.next_id
            &&& st2.next_id <= st.next_id + 2 * ps.len()
            &&& st2.blocks == st.blocks
            &&& forall|k: int| 0 <= k < bm.len() ==> st.next_id <= (#[trigger] bm[k]).0 < st2.next_id
            &&& forall|j: int, k: int|
                0 <= j < k < bm.len() ==> (#[trigger] bm[j]).0 != (#[trigger] bm[k]).0
            &&& forall|k: int| 0 <= k < bm.len() ==> (#[trigger] bm[k]).1.parent is Some
        }),
    decreases ps.len(),
{
    if ps.len() > 0 {
        let (name, ty) = ps[0];
        let (st1, arg_id) = st_alloc(st);
        let (st2, blk_id) = st_alloc(st1);
        lemma_params_frame(ps.drop_first(), proto_id, st2);
        let (st3, pm_r, im_r, bm_r) = lower_params_m(ps.drop_first(), proto_id, st2)->Ok_0;
        let bm = lower_params_m(ps, proto_id, st)->Ok_0.3;
        assert(bm == seq![(blk_id, lower_params_m(ps, proto_id, st)->Ok_0.3[0].1)] + bm_r);
        assert(bm[0].0 == blk_id);
        assert forall|k: int| 1 <= k < bm.len() implies #[trigger] bm[k] == bm_r[k - 1] by {}
    }
}

/// Frame of one top-level statement's lowering: at most three ids per
/// tree node, the arena only appended to with fresh, distinct ids.
#[verifier::rlimit(100)]
proof fn lemma_top_frame(s: Stmt, st: St)
    requires
        crate::lowering::lower_top_m(s, st) is Ok,
        st.next_id + 3 * stmt_size(s) <= u64::MAX,
    ensures
        frame_ok(st, crate::lowering::lower_top_m(s, st)->Ok_0, 3 * stmt_size(s)),
    decreases s, 4int,
{
    let stf = crate::lowering::lower_top_m(s, st)->Ok_0;
    match s {
        Stmt::EventHandler(ev, body) => {
            match ev {
                crate::parser::Event::FlagClicked => {
                    let (st1, flag_id) = st_alloc(st);
                    lemma_frame_alloc(st);
                    let node = NodeModel {
                        next: if body@.len() > 0 {
                            Option::Some(st1.next_id)
                        } else {
                            Option::<u64>::None
                        },
                        top_level: true,
                        ..crate::lowering::plain_node(
                            crate::project::Opcode::EventWhenFlagClicked,
                            Option::None,
                        )
                    };
                    lemma_frame_push(st, st1, 1, flag_id, node);
                    let st2b = st_push(st1, flag_id, node);
                    lemma_body_frame(body@, flag_id, Option::None, st2b);
                    lemma_frame_trans(
                        st,
                        st2b,
                        crate::lowering::lower_body_m(body@, flag_id, Option::None, st2b)->Ok_0,
                        1,
                        2 * body_size(body@),
                    );
                    lemma_frame_widen(st, stf, (1 + 2 * body_size(body@)) as nat, 3 * stmt_size(s));
                },
                crate::parser::Event::KeyPressed(_) => {},
            }
        },
        Stmt::FunctionDeclaration(name, args, body, ret) => {
            let (st2c, rv) = crate::lowering::carrier_step(name@, ret, st)->Ok_0;
            assert(frame_ok(st, st2c, 1)) by {
                assert(st2c.blocks.subrange(0, st.blocks.len() as int) =~= st.blocks);
            }
            let (st3, proto_id) = st_alloc(st2c);
            let (st4, def_id) = st_alloc(st3);
            assert(frame_ok(st2c, st4, 2)) by {
                assert(st4.blocks.subrange(0, st2c.blocks.len() as int) =~= st2c.blocks);
            }
            lemma_frame_trans(st, st2c, st4, 1, 2);
            lemma_params_frame(args@, proto_id, st4);
            let (st5, pm, im, bm) = lower_params_m(args@, proto_id, st4)->Ok_0;
            assert(frame_ok(st, st5, (3 + 2 * args@.len()) as nat)) by {
                assert(st5.blocks.subrange(0, st.blocks.len() as int) =~= st.blocks);
            }
            let st6 = St {
                funcs: st5.funcs.push(crate::symbols::FuncModel { name: name@, params: pm }),
                ..st5
            };
            assert(frame_ok(st, st6, (3 + 2 * args@.len()) as nat)) by {
                assert(st6.blocks.subrange(0, st.blocks.len() as int) =~= st.blocks);
            }
            let w6: nat = (3 + 2 * args@.len()) as nat;
            let st7 = st_push(st6, def_id, st7_node(s, st));
            lemma_frame_push(st, st6, w6, def_id, st7_node(s, st));
            let st8 = st_push(st7, proto_id, st8_node(s, st));
            assert forall|k: int|
                st.blocks.len() <= k < st7.blocks.len() implies (#[trigger] st7.blocks[k]).0
                != proto_id by {
                assert(st7.blocks[k].0 == def_id);
            }
            lemma_frame_push(st, st7, w6, proto_id, st8_node(s, st));
            let st9 = St { blocks: st8.blocks + bm, ..st8 };
            assert(frame_ok(st, st9, w6)) by {
                assert(st9.blocks.subrange(0, st.blocks.len() as int) =~= st8.blocks.subrange(
                    0,
                    st.blocks.len() as int,
                ));
                assert forall|k: int|
                    st.blocks.len() <= k < st9.blocks.len() implies st.next_id <= (
                #[trigger] st9.blocks[k]).0 < st9.next_id by {
                    if k < st8.blocks.len() {
                        assert(st9.blocks[k] == st8.blocks[k]);
                    } else {
                        assert(st9.blocks[k] == bm[k - st8.blocks.len()]);
                        assert(st4.next_id <= bm[k - st8.blocks.len()].0 < st5.next_id);
                    }
                }
                assert forall|j: int, k: int|
                    st.blocks.len() <= j < k < st9.blocks.len() implies (
                #[trigger] st9.blocks[j]).0 != (#[trigger] st9.blocks[k]).0 by {
                    if k < st8.blocks.len() {
                        assert(st9.blocks[j] == st8.blocks[j]);
                        assert(st9.blocks[k] == st8.blocks[k]);
                    } else if j >= st8.blocks.len() {
                        assert(st9.blocks[j] == bm[j - st8.blocks.len()]);
                        assert(st9.blocks[k] == bm[k - st8.blocks.len()]);
                    } else {
                        assert(st9.blocks[j] == st8.blocks[j]);
                        assert(st9.blocks[k] == bm[k - st8.blocks.len()]);
                        assert(st8.blocks[j].0 == def_id || st8.blocks[j].0 == proto_id);
                        assert(st4.next_id <= bm[k - st8.blocks.len()].0);
                    }
                }
            }
            lemma_body_frame(body@, def_id, rv, st9);
            lemma_frame_trans(
                st,
                st9,
                crate::lowering::lower_body_m(body@, def_id, rv, st9)->Ok_0,
                w6,
                2 * body_size(body@),
            );
            lemma_frame_widen(
                st,
                stf,
                (w6 + 2 * body_size(body@)) as nat,
                3 * stmt_size(s),
            );
        },
        _ => {},
    }
}

/// The definition node a function declaration pushes.
spec fn st7_node(s: Stmt, st: St) -> NodeModel {
    match s {
        Stmt::FunctionDeclaration(name, args, body, ret) => {
            let (st2c, rv) = crate::lowering::carrier_step(name@, ret, st)->Ok_0;
            let (st3, proto_id) = st_alloc(st2c);
            let (st4, def_id) = st_alloc(st3);
            let (st5, pm, im, bm) = lower_params_m(args@, proto_id, st4)->Ok_0;
            NodeModel {
                next: if body@.len() > 0 {
                    Option::Some(st5.next_id)
                } else {
                    Option::<u64>::None
                },
                inputs: seq![
                    (
                        crate::project::InputKey::CustomBlock,
                        crate::project::InputValueModel::ShadowNode(proto_id),
                    ),
                ],
                top_level: true,
                ..crate::lowering::plain_node(
                    crate::project::Opcode::ProceduresDefinition,
                    Option::None,
                )
            }
        },
        _ => arbitrary(),
    }
}

/// The prototype node a function declaration pushes.
spec fn st8_node(s: Stmt, st: St) -> NodeModel {
    match s {
        Stmt::FunctionDeclaration(name, args, body, ret) => {
            let (st2c, rv) = crate::lowering::carrier_step(name@, ret, st)->Ok_0;
            let (st3, proto_id) = st_alloc(st2c);
            let (st4, def_id) = st_alloc(st3);
            let (st5, pm, im, bm) = lower_params_m(args@, proto_id, st4)->Ok_0;
            NodeModel {
                inputs: im,
                shadow: true,
                mutation: Option::Some(
                    crate::project::MutationModel {
                        hasnext: Option::None,
                        proccode: Option::Some(crate::lowering::proccode_of(name@, pm)),
                        argumentids: Option::Some(
                            pm.map_values(|p: crate::symbols::ParamModel| p.id),
                        ),
                        argumentnames: Option::Some(
                            pm.map_values(|p: crate::symbols::ParamModel| p.name),
                        ),
                        argumentdefaults: Option::Some(
                            pm.map_values(
                                |p: crate::symbols::ParamModel| crate::lowering::default_of(p.ty),
                            ),
                        ),
                        warp: Option::Some(false),
                    },
                ),
                ..crate::lowering::plain_node(
                    crate::project::Opcode::ProceduresPrototype,
                    Option::Some(def_id),
                )
            }
        },
        _ => arbitrary(),
    }
}

/// Frame of a whole target's top-level statements.
proof fn lemma_tops_frame(ss: Seq<Stmt>, st: St)
    requires
        crate::lowering::lower_tops_m(ss, st) is Ok,
        st.next_id + 3 * body_size(ss) <= u64::MAX,
    ensures
        frame_ok(st, crate::lowering::lower_tops_m(ss, st)->Ok_0, 3 * body_size(ss)),
    decreases ss, 5int,
{
    if ss.len() == 0 {
        lemma_frame_refl(st, 3 * body_size(ss));
    } else {
        let st1 = crate::lowering::lower_top_m(ss[0], st)->Ok_0;
        lemma_top_frame(ss[0], st);
        lemma_tops_frame(ss.drop_first(), st1);
        lemma_frame_trans(
            st,
            st1,
            crate::lowering::lower_tops_m(ss, st)->Ok_0,
            3 * stmt_size(ss[0]),
            3 * body_size(ss.drop_first()),
        );
        lemma_frame_widen(
            st,
            crate::lowering::lower_tops_m(ss, st)->Ok_0,
            (3 * stmt_size(ss[0]) + 3 * body_size(ss.drop_first())) as nat,
            3 * body_size(ss),
        );
    }
}

/// Node ids are unique within a target: lowering a target's statements
/// from the initial state yields an arena whose entries carry pairwise
/// distinct ids.
pub proof fn lemma_target_ids_unique(ss: Seq<Stmt>)
    requires
        crate::lowering::lower_tops_m(ss, crate::lowering::st_init()) is Ok,
        3 * body_size(ss) <= u64::MAX,
    ensures
        ({
            let stf = crate::lowering::lower_tops_m(ss, crate::lowering::st_init())->Ok_0;
            forall|j: int, k: int|
                0 <= j < k < stf.blocks.len() ==> (#[trigger] stf.blocks[j]).0 != (
                #[trigger] stf.blocks[k]).0
        }),
{
    lemma_tops_frame(ss, crate::lowering::st_init());
}

/// Node ids are unique within a compiled target: when a target's
/// lowering succeeds, the node arena of the target the compiler
/// returns holds no id twice.
pub proof fn lemma_compiled_target_ids_unique(meta: TargetData, ast: Vec<Stmt>)
    requires
        crate::compiler::compile_target_m(meta, ast).1 is None,
        3 * body_size(ast@) <= u64::MAX,
    ensures
        ({
            let t = crate::compiler::compile_target_m(meta, ast).0;
            forall|j: int, k: int|
                0 <= j < k < t.blocks.len() ==> (#[trigger] t.blocks[j]).0 != (
                #[trigger] t.blocks[k]).0
        }),
{
    lemma_target_ids_unique(ast@);
}

/// Every node that is not a top-level entry node has a parent: when a
/// target's lowering succeeds, each node of the returned target either
/// carries the top-level flag or names its enclosing node.
pub proof fn lemma_compiled_target_parents(meta: TargetData, ast: Vec<Stmt>)
    requires
        crate::compiler::compile_target_m(meta, ast).1 is None,
        3 * body_size(ast@) <= u64::MAX,
    ensures
        ({
            let t = crate::compiler::compile_target_m(meta, ast).0;
            forall|k: int|
                0 <= k < t.blocks.len() ==> ((#[trigger] t.blocks[k]).1.top_level
                    || t.blocks[k].1.parent is Some)
        }),
{
    lemma_tops_frame(ast@, crate::lowering::st_init());
}

/// The signature encoding is aligned: the argument id, name and
/// default arrays a prototype mutation carries all have one entry per
/// declared parameter, and the signature string holds exactly one
/// three-character placeholder per parameter after the name.
pub proof fn lemma_signature_encoding(name: Seq<char>, params: Seq<crate::symbols::ParamModel>)
    ensures
        crate::lowering::proccode_of(name, params).len() == name.len() + 3 * params.len(),
        params.map_values(|p: crate::symbols::ParamModel| p.id).len() == params.len(),
        params.map_values(|p: crate::symbols::ParamModel| p.name).len() == params.len(),
        params.map_values(
            |p: crate::symbols::ParamModel| crate::lowering::default_of(p.ty),
        ).len() == params.len(),
    decreases params.len(),
{
    reveal_strlit(" %s");
    reveal_strlit(" %b");
    if params.len() > 0 {
        lemma_signature_encoding(name, params.drop_last());
    }
}

/// Compilation is deterministic: every run on the same targets yields
/// the one specified project and the one specified error list, so two
/// runs with fresh allocators and tables produce graphs that are equal
/// in every part — the same ids, nodes and links, never divergent
/// structure.
pub proof fn lemma_compile_deterministic(
    ts: Seq<(TargetData, Vec<Stmt>)>,
    p1: ProjectModel,
    e1: Seq<(int, crate::error::CompileErrorModel)>,
    p2: ProjectModel,
    e2: Seq<(int, crate::error::CompileErrorModel)>,
)
    requires
        p1 == compile_project_m(ts),
        e1 == errors_m(ts),
        p2 == compile_project_m(ts),
        e2 == errors_m(ts),
    ensures
        p1 == p2,
        e1 == e2,
{
}

} // verus!
