//! The mathematical specification of the code generator.
//!
//! Each lowering step of the compiler is specified here as a total
//! function from the abstract lowering state to the next state. The
//! executable compiler is proved to compute exactly these functions, so
//! every run on the same input produces the same graph.

use vstd::prelude::*;

use crate::error::{CompileErrorModel, ResolutionErrorModel, ShapeError};
use crate::parser::{Expr, MutationOperator, Stmt};
use crate::project::{
    FieldModel, InputKey, InputValueModel, LiteralModel, MutationModel, NodeModel, Opcode,
};
use crate::symbols::{
    declare_model, find_func, resolve_model, BindModel, FuncModel, ParamModel, ScopeModel,
};
use crate::token::{Operator, Type};

verus! {

/// The abstract state of one target's lowering: the node arena and
/// variable list built so far, the allocator counter, both symbol
/// tables, and the current scope path.
#[verifier::ext_equal]
pub ghost struct St {
    pub blocks: Seq<(u64, NodeModel)>,
    pub vars: Seq<(u64, Seq<char>)>,
    pub next_id: u64,
    pub var_table: Seq<ScopeModel>,
    pub funcs: Seq<FuncModel>,
    pub scope_path: Seq<u64>,
}

/// The size of an expression: the number of tree nodes, at least one.
pub open spec fn expr_size(e: Expr) -> nat
    decreases e,
{
    match e {
        Expr::Number(_) => 1,
        Expr::String(_) => 1,
        Expr::Identifier(_) => 1,
        Expr::Bool(_) => 1,
        Expr::Binary(l, _, r) => 1 + expr_size(*l) + expr_size(*r),
        Expr::FunctionCall(_, args) => 1 + exprs_size(args@),
    }
}

/// The combined size of a sequence of expressions.
pub open spec fn exprs_size(es: Seq<Expr>) -> nat
    decreases es,
{
    if es.len() == 0 {
        0
    } else {
        1 + expr_size(es[0]) + exprs_size(es.drop_first())
    }
}

/// The size of a statement: the number of tree nodes, at least one.
pub open spec fn stmt_size(s: Stmt) -> nat
    decreases s,
{
    match s {
        Stmt::Expression(e) => 1 + expr_size(e),
        Stmt::VariableDeclaration(_, _, e) => 1 + expr_size(e),
        Stmt::VariableAssignment(_, e) => 1 + expr_size(e),
        Stmt::VariableMutation(_, _, e) => 1 + expr_size(e),
        Stmt::FunctionDeclaration(_, args, body, _) => 1 + args@.len() + body_size(body@),
        Stmt::EventHandler(_, body) => 1 + body_size(body@),
        Stmt::FunctionCall(_, args) => 1 + exprs_size(args@),
        Stmt::If(c, tb, fb) => 1 + expr_size(c) + body_size(tb@) + (match fb {
            Option::Some(f) => 1 + body_size(f@),
            Option::None => 0,
        }),
        Stmt::While(c, tb) => 1 + expr_size(c) + body_size(tb@),
        Stmt::Return(e) => 1 + expr_size(e),
    }
}

/// The combined size of a sequence of statements.
pub open spec fn body_size(ss: Seq<Stmt>) -> nat
    decreases ss,
{
    if ss.len() == 0 {
        0
    } else {
        1 + stmt_size(ss[0]) + body_size(ss.drop_first())
    }
}

/// The initial state of a target's lowering.
pub open spec fn st_init() -> St {
    St {
        blocks: Seq::empty(),
        vars: Seq::empty(),
        next_id: 0,
        var_table: Seq::empty(),
        funcs: Seq::empty(),
        scope_path: Seq::empty(),
    }
}

/// Allocate the next identifier.
pub open spec fn st_alloc(st: St) -> (St, u64) {
    (St { next_id: crate::allocator::sat_next(st.next_id), ..st }, st.next_id)
}

/// Append one node to the arena.
pub open spec fn st_push(st: St, id: u64, n: NodeModel) -> St {
    St { blocks: st.blocks.push((id, n)), ..st }
}

/// A node with every optional part absent; lowering fills in what each
/// node carries.
pub open spec fn plain_node(opcode: Opcode, parent: Option<u64>) -> NodeModel {
    NodeModel {
        opcode,
        next: Option::None,
        parent,
        inputs: Seq::empty(),
        fields: Option::None,
        shadow: false,
        top_level: false,
        mutation: Option::None,
    }
}

/// The opcode and input slot pair of a binary operator, where one
/// exists.
pub open spec fn operator_slots(op: Operator) -> Option<(Opcode, InputKey, InputKey)> {
    match op {
        Operator::Plus => Option::Some((Opcode::OperatorAdd, InputKey::Num1, InputKey::Num2)),
        Operator::Minus => Option::Some(
            (Opcode::OperatorSubtract, InputKey::Num1, InputKey::Num2),
        ),
        Operator::Star => Option::Some(
            (Opcode::OperatorMultiply, InputKey::Num1, InputKey::Num2),
        ),
        Operator::Slash => Option::Some(
            (Opcode::OperatorDivide, InputKey::Num1, InputKey::Num2),
        ),
        Operator::Ampersand => Option::Some(
            (Opcode::OperatorJoin, InputKey::String1, InputKey::String2),
        ),
        Operator::EqualEqual => Option::Some(
            (Opcode::OperatorEquals, InputKey::Operand1, InputKey::Operand2),
        ),
        Operator::And => Option::Some(
            (Opcode::OperatorAnd, InputKey::Operand1, InputKey::Operand2),
        ),
        Operator::Or => Option::Some(
            (Opcode::OperatorOr, InputKey::Operand1, InputKey::Operand2),
        ),
        _ => Option::None,
    }
}

/// Lower a binary expression into a newly allocated operator node
/// parented to `host`; the result is the node's id.
pub open spec fn lower_operator_m(e: Expr, host: u64, st: St) -> Result<
    (St, u64),
    CompileErrorModel,
>
    decreases e, 0int,
{
    match e {
        Expr::Binary(l, op, r) => {
            match operator_slots(op) {
                Option::Some((opcode, k1, k2)) => {
                    let (st1, id) = st_alloc(st);
                    match lower_value_m(*l, id, st1) {
                        Result::Ok((st2, v1)) => match lower_value_m(*r, id, st2) {
                            Result::Ok((st3, v2)) => {
                                let node = NodeModel {
                                    inputs: seq![(k1, v1), (k2, v2)],
                                    ..plain_node(opcode, Option::Some(host))
                                };
                                Result::Ok((st_push(st3, id, node), id))
                            },
                            Result::Err(er) => Result::Err(er),
                        },
                        Result::Err(er) => Result::Err(er),
                    }
                },
                Option::None => {
                    if op is BangEqual {
                        // `!=` desugars to a logical not wrapping an
                        // equality node.
                        let (st1, not_id) = st_alloc(st);
                        let (st2, eq_id) = st_alloc(st1);
                        let not_node = NodeModel {
                            inputs: seq![(InputKey::Operand, InputValueModel::BareNode(eq_id))],
                            ..plain_node(Opcode::OperatorNot, Option::Some(host))
                        };
                        let st3 = st_push(st2, not_id, not_node);
                        match lower_value_m(*l, eq_id, st3) {
                            Result::Ok((st4, v1)) => match lower_value_m(*r, eq_id, st4) {
                                Result::Ok((st5, v2)) => {
                                    let eq_node = NodeModel {
                                        inputs: seq![
                                            (InputKey::Operand1, v1),
                                            (InputKey::Operand2, v2),
                                        ],
                                        ..plain_node(Opcode::OperatorEquals, Option::Some(not_id))
                                    };
                                    Result::Ok((st_push(st5, eq_id, eq_node), not_id))
                                },
                                Result::Err(er) => Result::Err(er),
                            },
                            Result::Err(er) => Result::Err(er),
                        }
                    } else {
                        Result::Err(CompileErrorModel::Shape(ShapeError::Unsupported))
                    }
                },
            }
        },
        _ => Result::Err(CompileErrorModel::Shape(ShapeError::Unsupported)),
    }
}

/// Lower an expression into an input value usable in the slot of the
/// node `host`: an inline literal, a variable reference, or a reference
/// to a newly lowered reporter node.
pub open spec fn lower_value_m(e: Expr, host: u64, st: St) -> Result<
    (St, InputValueModel),
    CompileErrorModel,
>
    decreases e, 1int,
{
    match e {
        Expr::Number(s) => Result::Ok((st, InputValueModel::Literal(LiteralModel::Num(s@)))),
        Expr::String(s) => Result::Ok((st, InputValueModel::Literal(LiteralModel::Str(s@)))),
        Expr::Bool(b) => Result::Ok((st, InputValueModel::Literal(LiteralModel::Bool(b)))),
        Expr::Identifier(name) => {
            match resolve_model(st.var_table, st.scope_path, name@) {
                Option::Some(b) => Result::Ok((st, InputValueModel::VarRef(name@, b.id))),
                Option::None => {
                    // Treated as an implicit function parameter: a
                    // synthetic argument reporter parented to `host`.
                    let (st1, rid) = st_alloc(st);
                    let node = NodeModel {
                        fields: Option::Some(FieldModel::Value(name@)),
                        ..plain_node(Opcode::ArgumentReporterStringNumber, Option::Some(host))
                    };
                    Result::Ok((st_push(st1, rid, node), InputValueModel::NodeRef(rid)))
                },
            }
        },
        Expr::Binary(_, _, _) => {
            match lower_operator_m(e, host, st) {
                Result::Ok((st1, id)) => Result::Ok((st1, InputValueModel::NodeRef(id))),
                Result::Err(er) => Result::Err(er),
            }
        },
        Expr::FunctionCall(_, _) => Result::Err(
            CompileErrorModel::Shape(ShapeError::Unsupported),
        ),
    }
}

/// The name of the synthetic return-carrier variable of a function: a
/// reserved prefix followed by the function name.
pub open spec fn carrier_name(f: Seq<char>) -> Seq<char> {
    "!func_var_"@ + f
}

/// The placeholder a parameter type contributes to a signature string.
pub open spec fn placeholder(ty: Type) -> Seq<char> {
    if ty is Bool {
        " %b"@
    } else {
        " %s"@
    }
}

/// The signature string of a function: its name interleaved with one
/// typed placeholder per parameter, in order.
pub open spec fn proccode_of(name: Seq<char>, params: Seq<ParamModel>) -> Seq<char>
    decreases params.len(),
{
    if params.len() == 0 {
        name
    } else {
        proccode_of(name, params.drop_last()) + placeholder(params.last().ty)
    }
}

/// The default value of a parameter in the prototype's mutation.
pub open spec fn default_of(ty: Type) -> Seq<char> {
    if ty is Bool {
        "false"@
    } else {
        ""@
    }
}

/// A "set variable" node: the one shape used by declarations,
/// assignments, compound assignments and return-carrier stores.
pub open spec fn setvar_node(
    name: Seq<char>,
    var_id: u64,
    v: InputValueModel,
    parent: u64,
    next: Option<u64>,
) -> NodeModel {
    NodeModel {
        next,
        inputs: seq![(InputKey::Value, v)],
        fields: Option::Some(FieldModel::Variable(name, var_id)),
        ..plain_node(Opcode::DataSetVariableTo, Option::Some(parent))
    }
}

/// The arithmetic opcode a compound assignment desugars to.
pub open spec fn mutation_opcode(mop: MutationOperator) -> Opcode {
    match mop {
        MutationOperator::AddEqual => Opcode::OperatorAdd,
        MutationOperator::SubEqual => Opcode::OperatorSubtract,
        MutationOperator::MultEqual => Opcode::OperatorMultiply,
        MutationOperator::DivEqual => Opcode::OperatorDivide,
    }
}

/// Why an expression may not stand at the root of a condition, if it
/// may not: the root must be a comparison or logical operator, and of
/// those only the supported ones lower.
pub open spec fn cond_root_check(e: Expr) -> Option<ShapeError> {
    match e {
        Expr::Binary(_, op, _) => match op {
            Operator::EqualEqual | Operator::BangEqual | Operator::And | Operator::Or
                => Option::None,
            Operator::Greater | Operator::Less | Operator::GreaterEqual | Operator::LessEqual
                | Operator::Bang => Option::Some(ShapeError::Unsupported),
            _ => Option::Some(ShapeError::ConditionNotComparison),
        },
        _ => Option::Some(ShapeError::ConditionNotComparison),
    }
}

/// Lower the arguments of a generic procedure call into the input list
/// of the call node, one slot per declared argument id, in order.
pub open spec fn lower_call_inputs_m(
    args: Seq<Expr>,
    params: Seq<(u64, Type)>,
    host: u64,
    st: St,
) -> Result<(St, Seq<(InputKey, InputValueModel)>), CompileErrorModel>
    decreases args, 0int,
{
    if args.len() == 0 || params.len() == 0 {
        Result::Ok((st, Seq::empty()))
    } else {
        match args[0] {
            Expr::Bool(_) | Expr::FunctionCall(_, _) => Result::Err(
                CompileErrorModel::Shape(ShapeError::Unsupported),
            ),
            _ => match lower_value_m(args[0], host, st) {
                Result::Ok((st1, v)) => {
                    match lower_call_inputs_m(args.drop_first(), params.drop_first(), host, st1) {
                        Result::Ok((st2, rest)) => Result::Ok(
                            (
                                st2,
                                seq![(InputKey::Arg(params[0].0), v)] + rest,
                            ),
                        ),
                        Result::Err(er) => Result::Err(er),
                    }
                },
                Result::Err(er) => Result::Err(er),
            },
        }
    }
}

/// Lower a call to the built-in `say`: a single-argument display node.
/// If `tail` the node ends its chain, else its `next` is the id minted
/// right after it is pushed.
pub open spec fn lower_say_m(
    args: Seq<Expr>,
    current: u64,
    parent: u64,
    tail: bool,
    st: St,
) -> Result<St, CompileErrorModel>
    decreases args, 1int,
{
    if args.len() != 1 {
        Result::Err(CompileErrorModel::Shape(ShapeError::WrongArgumentCount))
    } else {
        match args[0] {
            Expr::String(_) | Expr::Identifier(_) | Expr::Binary(_, _, _) => {
                match lower_value_m(args[0], current, st) {
                    Result::Ok((st1, v)) => {
                        let next = if tail {
                            Option::None
                        } else {
                            Option::Some(st1.next_id)
                        };
                        let node = NodeModel {
                            next,
                            inputs: seq![(InputKey::Message, v)],
                            ..plain_node(Opcode::LooksSay, Option::Some(parent))
                        };
                        Result::Ok(st_push(st1, current, node))
                    },
                    Result::Err(er) => Result::Err(er),
                }
            },
            _ => Result::Err(CompileErrorModel::Shape(ShapeError::Unsupported)),
        }
    }
}

/// Lower a generic procedure call. The signature string and argument
/// ids are rebuilt from the function signature table, never re-derived
/// from the call site.
pub open spec fn lower_call_m(
    f: String,
    args: Seq<Expr>,
    current: u64,
    parent: u64,
    tail: bool,
    st: St,
) -> Result<St, CompileErrorModel>
    decreases args, 1int,
{
    match find_func(st.funcs, f@) {
        Option::None => Result::Err(
            CompileErrorModel::Resolution(ResolutionErrorModel::UnboundFunction(f@)),
        ),
        Option::Some(fm) => {
            if args.len() != fm.params.len() {
                Result::Err(CompileErrorModel::Shape(ShapeError::WrongArgumentCount))
            } else {
                let params = fm.params.map_values(|p: ParamModel| (p.id, p.ty));
                match lower_call_inputs_m(args, params, current, st) {
                    Result::Ok((st1, inputs)) => {
                        let mutation = MutationModel {
                            hasnext: Option::None,
                            proccode: Option::Some(proccode_of(f@, fm.params)),
                            argumentids: Option::Some(
                                fm.params.map_values(|p: ParamModel| p.id),
                            ),
                            argumentnames: Option::None,
                            argumentdefaults: Option::None,
                            warp: Option::Some(false),
                        };
                        let next = if tail {
                            Option::None
                        } else {
                            Option::Some(st1.next_id)
                        };
                        let node = NodeModel {
                            next,
                            inputs,
                            mutation: Option::Some(mutation),
                            ..plain_node(Opcode::ProceduresCall, Option::Some(parent))
                        };
                        Result::Ok(st_push(st1, current, node))
                    },
                    Result::Err(er) => Result::Err(er),
                }
            }
        },
    }
}

/// Lower the right-hand side of a declaration or assignment and emit
/// the "set variable" node. A function call at the root of the
/// right-hand side lowers to a call node chained in front of the store
/// of its return carrier.
pub open spec fn lower_assign_m(
    name: String,
    var_id: u64,
    e: Expr,
    current: u64,
    parent: u64,
    is_last: bool,
    st: St,
) -> Result<St, CompileErrorModel>
    decreases e, 2int,
{
    match e {
        Expr::FunctionCall(f, cargs) => {
            if f@ == "say"@ {
                Result::Err(CompileErrorModel::Shape(ShapeError::Unsupported))
            } else {
                match lower_call_m(f, cargs@, current, parent, false, st) {
                    Result::Ok(st1) => {
                        match resolve_model(st1.var_table, st1.scope_path, carrier_name(f@)) {
                            Option::None => Result::Err(
                                CompileErrorModel::Resolution(
                                    ResolutionErrorModel::UnboundVariable(carrier_name(f@)),
                                ),
                            ),
                            Option::Some(b) => {
                                let (st2, sv_id) = st_alloc(st1);
                                let v = InputValueModel::VarRef(carrier_name(f@), b.id);
                                let next = if is_last {
                                    Option::None
                                } else {
                                    Option::Some(st2.next_id)
                                };
                                Result::Ok(
                                    st_push(st2, sv_id, setvar_node(name@, var_id, v, parent, next)),
                                )
                            },
                        }
                    },
                    Result::Err(er) => Result::Err(er),
                }
            }
        },
        _ => match lower_value_m(e, current, st) {
            Result::Ok((st1, v)) => {
                let next = if is_last {
                    Option::None
                } else {
                    Option::Some(st1.next_id)
                };
                Result::Ok(st_push(st1, current, setvar_node(name@, var_id, v, parent, next)))
            },
            Result::Err(er) => Result::Err(er),
        },
    }
}

/// Lower one statement of a body. `current` is the id the body loop
/// allocated for the statement's chain node, `is_last` whether it is
/// the final statement of its body, `ret_var` the return carrier of
/// the enclosing function, if one exists.
pub open spec fn lower_stmt_m(
    s: Stmt,
    current: u64,
    parent: u64,
    is_last: bool,
    ret_var: Option<(Seq<char>, u64)>,
    st: St,
) -> Result<St, CompileErrorModel>
    decreases s, 3int,
{
    match s {
        Stmt::FunctionCall(f, args) => {
            if f@ == "say"@ {
                lower_say_m(args@, current, parent, is_last, st)
            } else {
                lower_call_m(f, args@, current, parent, is_last, st)
            }
        },
        Stmt::VariableDeclaration(name, ty, e) => {
            let (st1, var_id) = st_alloc(st);
            match declare_model(st1.var_table, st1.scope_path, name@, var_id, ty) {
                Option::None => Result::Err(
                    CompileErrorModel::Resolution(ResolutionErrorModel::Redeclaration(name@)),
                ),
                Option::Some(t2) => {
                    let st2 = St {
                        var_table: t2,
                        vars: st1.vars.push((var_id, name@)),
                        ..st1
                    };
                    lower_assign_m(name, var_id, e, current, parent, is_last, st2)
                },
            }
        },
        Stmt::VariableAssignment(name, e) => {
            match resolve_model(st.var_table, st.scope_path, name@) {
                Option::None => Result::Err(
                    CompileErrorModel::Resolution(ResolutionErrorModel::UnboundVariable(name@)),
                ),
                Option::Some(b) => lower_assign_m(name, b.id, e, current, parent, is_last, st),
            }
        },
        Stmt::VariableMutation(name, mop, e) => {
            match resolve_model(st.var_table, st.scope_path, name@) {
                Option::None => Result::Err(
                    CompileErrorModel::Resolution(ResolutionErrorModel::UnboundVariable(name@)),
                ),
                Option::Some(b) => {
                    let (st1, op_id) = st_alloc(st);
                    match lower_value_m(e, op_id, st1) {
                        Result::Ok((st2, v2)) => {
                            let op_node = NodeModel {
                                inputs: seq![
                                    (InputKey::Num1, InputValueModel::VarRef(name@, b.id)),
                                    (InputKey::Num2, v2),
                                ],
                                ..plain_node(mutation_opcode(mop), Option::Some(current))
                            };
                            let st3 = st_push(st2, op_id, op_node);
                            let next = if is_last {
                                Option::None
                            } else {
                                Option::Some(st3.next_id)
                            };
                            Result::Ok(
                                st_push(
                                    st3,
                                    current,
                                    setvar_node(
                                        name@,
                                        b.id,
                                        InputValueModel::NodeRef(op_id),
                                        parent,
                                        next,
                                    ),
                                ),
                            )
                        },
                        Result::Err(er) => Result::Err(er),
                    }
                },
            }
        },
        Stmt::If(c, tb, fb) => {
            let opcode = if fb is Some {
                Opcode::ControlIfElse
            } else {
                Opcode::ControlIf
            };
            match cond_root_check(c) {
                Option::Some(se) => Result::Err(CompileErrorModel::Shape(se)),
                Option::None => match lower_operator_m(c, current, st) {
                    Result::Ok((st1, cond_id)) => {
                        let inputs0 = seq![
                            (InputKey::Condition, InputValueModel::BareNode(cond_id)),
                        ];
                        let r1 = if tb@.len() > 0 {
                            let sub = st1.next_id;
                            match lower_body_m(tb@, current, ret_var, st1) {
                                Result::Ok(st2) => Result::Ok(
                                    (
                                        st2,
                                        inputs0.push(
                                            (InputKey::Substack, InputValueModel::BareNode(sub)),
                                        ),
                                    ),
                                ),
                                Result::Err(er) => Result::Err(er),
                            }
                        } else {
                            Result::Ok((st1, inputs0))
                        };
                        match r1 {
                            Result::Ok((st2, inputs1)) => {
                                let r2 = match fb {
                                    Option::Some(fbv) => if fbv@.len() > 0 {
                                        let sub2 = st2.next_id;
                                        match lower_body_m(fbv@, current, ret_var, st2) {
                                            Result::Ok(st3) => Result::Ok(
                                                (
                                                    st3,
                                                    inputs1.push(
                                                        (
                                                            InputKey::Substack2,
                                                            InputValueModel::BareNode(sub2),
                                                        ),
                                                    ),
                                                ),
                                            ),
                                            Result::Err(er) => Result::Err(er),
                                        }
                                    } else {
                                        Result::Ok((st2, inputs1))
                                    },
                                    Option::None => Result::Ok((st2, inputs1)),
                                };
                                match r2 {
                                    Result::Ok((st3, inputs2)) => {
                                        let next = if is_last {
                                            Option::None
                                        } else {
                                            Option::Some(st3.next_id)
                                        };
                                        let node = NodeModel {
                                            next,
                                            inputs: inputs2,
                                            ..plain_node(opcode, Option::Some(parent))
                                        };
                                        Result::Ok(st_push(st3, current, node))
                                    },
                                    Result::Err(er) => Result::Err(er),
                                }
                            },
                            Result::Err(er) => Result::Err(er),
                        }
                    },
                    Result::Err(er) => Result::Err(er),
                },
            }
        },
        Stmt::While(c, tb) => {
            match cond_root_check(c) {
                Option::Some(se) => Result::Err(CompileErrorModel::Shape(se)),
                Option::None => match lower_operator_m(c, current, st) {
                    Result::Ok((st1, cond_id)) => {
                        let inputs0 = seq![
                            (InputKey::Condition, InputValueModel::BareNode(cond_id)),
                        ];
                        let r1 = if tb@.len() > 0 {
                            let sub = st1.next_id;
                            match lower_body_m(tb@, current, ret_var, st1) {
                                Result::Ok(st2) => Result::Ok(
                                    (
                                        st2,
                                        inputs0.push(
                                            (InputKey::Substack, InputValueModel::BareNode(sub)),
                                        ),
                                    ),
                                ),
                                Result::Err(er) => Result::Err(er),
                            }
                        } else {
                            Result::Ok((st1, inputs0))
                        };
                        match r1 {
                            Result::Ok((st2, inputs1)) => {
                                let next = if is_last {
                                    Option::None
                                } else {
                                    Option::Some(st2.next_id)
                                };
                                let node = NodeModel {
                                    next,
                                    inputs: inputs1,
                                    ..plain_node(Opcode::ControlWhile, Option::Some(parent))
                                };
                                Result::Ok(st_push(st2, current, node))
                            },
                            Result::Err(er) => Result::Err(er),
                        }
                    },
                    Result::Err(er) => Result::Err(er),
                },
            }
        },
        Stmt::Return(e) => {
            if !is_last {
                Result::Err(CompileErrorModel::Shape(ShapeError::ReturnNotFinal))
            } else {
                match ret_var {
                    Option::None => Result::Err(
                        CompileErrorModel::Shape(ShapeError::ReturnInVoidFunction),
                    ),
                    Option::Some((rn, rid)) => {
                        match lower_value_m(e, current, st) {
                            Result::Ok((st1, v)) => {
                                let (st2, stop_id) = st_alloc(st1);
                                let st3 = st_push(
                                    st2,
                                    current,
                                    setvar_node(rn, rid, v, parent, Option::Some(stop_id)),
                                );
                                let stop = NodeModel {
                                    fields: Option::Some(FieldModel::StopOption),
                                    mutation: Option::Some(
                                        MutationModel {
                                            hasnext: Option::Some(false),
                                            proccode: Option::None,
                                            argumentids: Option::None,
                                            argumentnames: Option::None,
                                            argumentdefaults: Option::None,
                                            warp: Option::None,
                                        },
                                    ),
                                    ..plain_node(Opcode::ControlStop, Option::Some(parent))
                                };
                                Result::Ok(st_push(st3, stop_id, stop))
                            },
                            Result::Err(er) => Result::Err(er),
                        }
                    },
                }
            }
        },
        _ => Result::Err(CompileErrorModel::Shape(ShapeError::Unsupported)),
    }
}

/// The compound-assignment step of `lower_stmt_m`, by itself: resolve
/// the variable, lower `name <op> rhs` into an operator node, and emit
/// the "set variable" node.
pub open spec fn lower_mutation_m(
    name: String,
    mop: MutationOperator,
    e: Expr,
    current: u64,
    parent: u64,
    is_last: bool,
    st: St,
) -> Result<St, CompileErrorModel> {
    match resolve_model(st.var_table, st.scope_path, name@) {
        Option::None => Result::Err(
            CompileErrorModel::Resolution(ResolutionErrorModel::UnboundVariable(name@)),
        ),
        Option::Some(b) => {
            let (st1, op_id) = st_alloc(st);
            match lower_value_m(e, op_id, st1) {
                Result::Ok((st2, v2)) => {
                    let op_node = NodeModel {
                        inputs: seq![
                            (InputKey::Num1, InputValueModel::VarRef(name@, b.id)),
                            (InputKey::Num2, v2),
                        ],
                        ..plain_node(mutation_opcode(mop), Option::Some(current))
                    };
                    let st3 = st_push(st2, op_id, op_node);
                    let next = if is_last {
                        Option::None
                    } else {
                        Option::Some(st3.next_id)
                    };
                    Result::Ok(
                        st_push(
                            st3,
                            current,
                            setvar_node(
                                name@,
                                b.id,
                                InputValueModel::NodeRef(op_id),
                                parent,
                                next,
                            ),
                        ),
                    )
                },
                Result::Err(er) => Result::Err(er),
            }
        },
    }
}

/// The conditional step of `lower_stmt_m`, by itself.
pub open spec fn lower_if_m(
    c: Expr,
    tb: Vec<Stmt>,
    fb: Option<Vec<Stmt>>,
    current: u64,
    parent: u64,
    is_last: bool,
    ret_var: Option<(Seq<char>, u64)>,
    st: St,
) -> Result<St, CompileErrorModel> {
    let opcode = if fb is Some {
        Opcode::ControlIfElse
    } else {
        Opcode::ControlIf
    };
    match cond_root_check(c) {
        Option::Some(se) => Result::Err(CompileErrorModel::Shape(se)),
        Option::None => match lower_operator_m(c, current, st) {
            Result::Ok((st1, cond_id)) => {
                let inputs0 = seq![(InputKey::Condition, InputValueModel::BareNode(cond_id))];
                let r1 = if tb@.len() > 0 {
                    let sub = st1.next_id;
                    match lower_body_m(tb@, current, ret_var, st1) {
                        Result::Ok(st2) => Result::Ok(
                            (
                                st2,
                                inputs0.push((InputKey::Substack, InputValueModel::BareNode(sub))),
                            ),
                        ),
                        Result::Err(er) => Result::Err(er),
                    }
                } else {
                    Result::Ok((st1, inputs0))
                };
                match r1 {
                    Result::Ok((st2, inputs1)) => {
                        let r2 = match fb {
                            Option::Some(fbv) => if fbv@.len() > 0 {
                                let sub2 = st2.next_id;
                                match lower_body_m(fbv@, current, ret_var, st2) {
                                    Result::Ok(st3) => Result::Ok(
                                        (
                                            st3,
                                            inputs1.push(
                                                (
                                                    InputKey::Substack2,
                                                    InputValueModel::BareNode(sub2),
                                                ),
                                            ),
                                        ),
                                    ),
                                    Result::Err(er) => Result::Err(er),
                                }
                            } else {
                                Result::Ok((st2, inputs1))
                            },
                            Option::None => Result::Ok((st2, inputs1)),
                        };
                        match r2 {
                            Result::Ok((st3, inputs2)) => {
                                let next = if is_last {
                                    Option::None
                                } else {
                                    Option::Some(st3.next_id)
                                };
                                let node = NodeModel {
                                    next,
                                    inputs: inputs2,
                                    ..plain_node(opcode, Option::Some(parent))
                                };
                                Result::Ok(st_push(st3, current, node))
                            },
                            Result::Err(er) => Result::Err(er),
                        }
                    },
                    Result::Err(er) => Result::Err(er),
                }
            },
            Result::Err(er) => Result::Err(er),
        },
    }
}

/// The loop step of `lower_stmt_m`, by itself.
pub open spec fn lower_while_m(
    c: Expr,
    tb: Vec<Stmt>,
    current: u64,
    parent: u64,
    is_last: bool,
    ret_var: Option<(Seq<char>, u64)>,
    st: St,
) -> Result<St, CompileErrorModel> {
    match cond_root_check(c) {
        Option::Some(se) => Result::Err(CompileErrorModel::Shape(se)),
        Option::None => match lower_operator_m(c, current, st) {
            Result::Ok((st1, cond_id)) => {
                let inputs0 = seq![(InputKey::Condition, InputValueModel::BareNode(cond_id))];
                let r1 = if tb@.len() > 0 {
                    let sub = st1.next_id;
                    match lower_body_m(tb@, current, ret_var, st1) {
                        Result::Ok(st2) => Result::Ok(
                            (
                                st2,
                                inputs0.push((InputKey::Substack, InputValueModel::BareNode(sub))),
                            ),
                        ),
                        Result::Err(er) => Result::Err(er),
                    }
                } else {
                    Result::Ok((st1, inputs0))
                };
                match r1 {
                    Result::Ok((st2, inputs1)) => {
                        let next = if is_last {
                            Option::None
                        } else {
                            Option::Some(st2.next_id)
                        };
                        let node = NodeModel {
                            next,
                            inputs: inputs1,
                            ..plain_node(Opcode::ControlWhile, Option::Some(parent))
                        };
                        Result::Ok(st_push(st2, current, node))
                    },
                    Result::Err(er) => Result::Err(er),
                }
            },
            Result::Err(er) => Result::Err(er),
        },
    }
}

/// The return step of `lower_stmt_m`, by itself: store the value into
/// the return carrier and chain a terminator node behind the store.
pub open spec fn lower_return_m(
    e: Expr,
    current: u64,
    parent: u64,
    is_last: bool,
    ret_var: Option<(Seq<char>, u64)>,
    st: St,
) -> Result<St, CompileErrorModel> {
    if !is_last {
        Result::Err(CompileErrorModel::Shape(ShapeError::ReturnNotFinal))
    } else {
        match ret_var {
            Option::None => Result::Err(
                CompileErrorModel::Shape(ShapeError::ReturnInVoidFunction),
            ),
            Option::Some((rn, rid)) => {
                match lower_value_m(e, current, st) {
                    Result::Ok((st1, v)) => {
                        let (st2, stop_id) = st_alloc(st1);
                        let st3 = st_push(
                            st2,
                            current,
                            setvar_node(rn, rid, v, parent, Option::Some(stop_id)),
                        );
                        let stop = NodeModel {
                            fields: Option::Some(FieldModel::StopOption),
                            mutation: Option::Some(
                                MutationModel {
                                    hasnext: Option::Some(false),
                                    proccode: Option::None,
                                    argumentids: Option::None,
                                    argumentnames: Option::None,
                                    argumentdefaults: Option::None,
                                    warp: Option::None,
                                },
                            ),
                            ..plain_node(Opcode::ControlStop, Option::Some(parent))
                        };
                        Result::Ok(st_push(st3, stop_id, stop))
                    },
                    Result::Err(er) => Result::Err(er),
                }
            },
        }
    }
}

/// Lower the statements of a body in order. Each statement's chain
/// node id is allocated at the statement's turn; the statement lowers
/// with `is_last` exactly on the final statement.
pub open spec fn lower_stmts_m(
    ss: Seq<Stmt>,
    parent: u64,
    ret_var: Option<(Seq<char>, u64)>,
    st: St,
) -> Result<St, CompileErrorModel>
    decreases ss, 0int,
{
    if ss.len() == 0 {
        Result::Ok(st)
    } else {
        let (st1, current) = st_alloc(st);
        match lower_stmt_m(ss[0], current, parent, ss.len() == 1, ret_var, st1) {
            Result::Ok(st2) => lower_stmts_m(ss.drop_first(), parent, ret_var, st2),
            Result::Err(er) => Result::Err(er),
        }
    }
}

/// Lower one body: push its parent onto the scope path, lower the
/// statements, and restore the scope path.
pub open spec fn lower_body_m(
    ss: Seq<Stmt>,
    parent: u64,
    ret_var: Option<(Seq<char>, u64)>,
    st: St,
) -> Result<St, CompileErrorModel>
    decreases ss, 1int,
{
    let entered = St { scope_path: st.scope_path.push(parent), ..st };
    match lower_stmts_m(ss, parent, ret_var, entered) {
        Result::Ok(st2) => Result::Ok(
            St {
                scope_path: if st2.scope_path.len() > 0 {
                    st2.scope_path.drop_last()
                } else {
                    st2.scope_path
                },
                ..st2
            },
        ),
        Result::Err(er) => Result::Err(er),
    }
}

/// Lower the parameters of a function declaration: allocate each
/// argument's id and reporter node id, collect the prototype inputs and
/// the reporter nodes, and record the parameters in order.
pub open spec fn lower_params_m(ps: Seq<(String, Type)>, proto_id: u64, st: St) -> Result<
    (St, Seq<ParamModel>, Seq<(InputKey, InputValueModel)>, Seq<(u64, NodeModel)>),
    CompileErrorModel,
>
    decreases ps.len(),
{
    if ps.len() == 0 {
        Result::Ok((st, Seq::empty(), Seq::empty(), Seq::empty()))
    } else {
        let (name, ty) = ps[0];
        if ty is Table || ty is Void {
            Result::Err(CompileErrorModel::Shape(ShapeError::Unsupported))
        } else {
            let (st1, arg_id) = st_alloc(st);
            let (st2, blk_id) = st_alloc(st1);
            let opcode = if ty is Bool {
                Opcode::ArgumentReporterBoolean
            } else {
                Opcode::ArgumentReporterStringNumber
            };
            let blk = NodeModel {
                fields: Option::Some(FieldModel::Value(name@)),
                shadow: true,
                ..plain_node(opcode, Option::Some(proto_id))
            };
            match lower_params_m(ps.drop_first(), proto_id, st2) {
                Result::Ok((st3, params_r, inputs_r, blks_r)) => Result::Ok(
                    (
                        st3,
                        seq![ParamModel { id: arg_id, name: name@, ty }] + params_r,
                        seq![
                            (
                                InputKey::Arg(arg_id),
                                InputValueModel::ShadowNode(blk_id),
                            ),
                        ] + inputs_r,
                        seq![(blk_id, blk)] + blks_r,
                    ),
                ),
                Result::Err(er) => Result::Err(er),
            }
        }
    }
}

/// Parameter lowering only allocates ids and collects nodes: it leaves
/// the arena, the symbol tables and the scope path untouched.
pub proof fn lemma_params_preserve(ps: Seq<(String, Type)>, proto_id: u64, st: St)
    requires
        lower_params_m(ps, proto_id, st) is Ok,
    ensures
        ({
            let st2 = lower_params_m(ps, proto_id, st)->Ok_0.0;
            st2.funcs == st.funcs && st2.var_table == st.var_table && st2.scope_path
                == st.scope_path && st2.blocks == st.blocks && st2.vars == st.vars
        }),
    decreases ps.len(),
{
    if ps.len() > 0 {
        let (name, ty) = ps[0];
        if !(ty is Table || ty is Void) {
            let (st1, _) = st_alloc(st);
            let (st2, _) = st_alloc(st1);
            lemma_params_preserve(ps.drop_first(), proto_id, st2);
        }
    }
}

/// The return-carrier step of a function declaration: for a value
/// return type, declare the carrier variable in the enclosing scope.
pub open spec fn carrier_step(name: Seq<char>, ret: Type, st: St) -> Result<
    (St, Option<(Seq<char>, u64)>),
    CompileErrorModel,
> {
    match ret {
        Type::Number | Type::String => {
            let (st1, vid) = st_alloc(st);
            let cn = carrier_name(name);
            match declare_model(st1.var_table, st1.scope_path, cn, vid, ret) {
                Option::None => Result::Err(
                    CompileErrorModel::Resolution(ResolutionErrorModel::Redeclaration(cn)),
                ),
                Option::Some(t2) => Result::Ok(
                    (
                        St { var_table: t2, vars: st1.vars.push((vid, cn)), ..st1 },
                        Option::Some((cn, vid)),
                    ),
                ),
            }
        },
        Type::Void => Result::Ok((st, Option::None)),
        Type::Bool | Type::Table => Result::Err(
            CompileErrorModel::Shape(ShapeError::Unsupported),
        ),
    }
}

/// Lower one top-level statement: an event handler or a function
/// declaration.
pub open spec fn lower_top_m(s: Stmt, st: St) -> Result<St, CompileErrorModel>
    decreases s, 4int,
{
    match s {
        Stmt::EventHandler(ev, body) => {
            match ev {
                crate::parser::Event::FlagClicked => {
                    let (st1, flag_id) = st_alloc(st);
                    let next = if body@.len() > 0 {
                        Option::Some(st1.next_id)
                    } else {
                        Option::None
                    };
                    let node = NodeModel {
                        next,
                        top_level: true,
                        ..plain_node(Opcode::EventWhenFlagClicked, Option::None)
                    };
                    let st2 = st_push(st1, flag_id, node);
                    lower_body_m(body@, flag_id, Option::None, st2)
                },
                crate::parser::Event::KeyPressed(_) => Result::Err(
                    CompileErrorModel::Shape(ShapeError::Unsupported),
                ),
            }
        },
        Stmt::FunctionDeclaration(name, args, body, ret) => {
            if find_func(st.funcs, name@) is Some {
                Result::Err(
                    CompileErrorModel::Resolution(ResolutionErrorModel::Redeclaration(name@)),
                )
            } else {
                match carrier_step(name@, ret, st) {
                    Result::Err(er) => Result::Err(er),
                    Result::Ok((st2, ret_var)) => {
                        let (st3, proto_id) = st_alloc(st2);
                        let (st4, def_id) = st_alloc(st3);
                        match lower_params_m(args@, proto_id, st4) {
                            Result::Err(er) => Result::Err(er),
                            Result::Ok((st5, params, proto_inputs, arg_blks)) => {
                                let st6 = St {
                                    funcs: st5.funcs.push(
                                        FuncModel { name: name@, params },
                                    ),
                                    ..st5
                                };
                                let def_next = if body@.len() > 0 {
                                    Option::Some(st6.next_id)
                                } else {
                                    Option::None
                                };
                                let def_node = NodeModel {
                                    next: def_next,
                                    inputs: seq![
                                        (
                                            InputKey::CustomBlock,
                                            InputValueModel::ShadowNode(proto_id),
                                        ),
                                    ],
                                    top_level: true,
                                    ..plain_node(Opcode::ProceduresDefinition, Option::None)
                                };
                                let proto_node = NodeModel {
                                    inputs: proto_inputs,
                                    shadow: true,
                                    mutation: Option::Some(
                                        MutationModel {
                                            hasnext: Option::None,
                                            proccode: Option::Some(proccode_of(name@, params)),
                                            argumentids: Option::Some(
                                                params.map_values(|p: ParamModel| p.id),
                                            ),
                                            argumentnames: Option::Some(
                                                params.map_values(|p: ParamModel| p.name),
                                            ),
                                            argumentdefaults: Option::Some(
                                                params.map_values(
                                                    |p: ParamModel| default_of(p.ty),
                                                ),
                                            ),
                                            warp: Option::Some(false),
                                        },
                                    ),
                                    ..plain_node(
                                        Opcode::ProceduresPrototype,
                                        Option::Some(def_id),
                                    )
                                };
                                let st7 = st_push(st6, def_id, def_node);
                                let st8 = st_push(st7, proto_id, proto_node);
                                let st9 = St { blocks: st8.blocks + arg_blks, ..st8 };
                                lower_body_m(body@, def_id, ret_var, st9)
                            },
                        }
                    },
                }
            }
        },
        _ => Result::Err(CompileErrorModel::Shape(ShapeError::Unsupported)),
    }
}

/// Lower every top-level statement of one target, in order.
pub open spec fn lower_tops_m(ss: Seq<Stmt>, st: St) -> Result<St, CompileErrorModel>
    decreases ss, 5int,
{
    if ss.len() == 0 {
        Result::Ok(st)
    } else {
        match lower_top_m(ss[0], st) {
            Result::Ok(st1) => lower_tops_m(ss.drop_first(), st1),
            Result::Err(er) => Result::Err(er),
        }
    }
}

} // verus!
