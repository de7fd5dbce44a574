//! The code generator: lowers the statement/expression tree of each
//! target into its node graph.
//!
//! Every lowering method is proved to compute exactly the corresponding
//! specification function of `crate::lowering`, so the whole compilation
//! is a mathematical function of its input.

use vstd::prelude::*;

use crate::allocator::Allocator;
use crate::error::{CompileError, ResolutionError, ShapeError};
use crate::lowering::{
    body_size, carrier_name, carrier_step, cond_root_check, default_of, expr_size, exprs_size,
    lower_assign_m, lower_body_m, lower_call_inputs_m, lower_call_m, lower_if_m,
    lower_mutation_m, lower_operator_m, lower_params_m, lower_return_m, lower_say_m,
    lower_stmt_m, lower_stmts_m, lower_top_m, lower_tops_m, lower_value_m, lower_while_m,
    mutation_opcode, operator_slots, proccode_of, setvar_node, st_alloc, st_push, stmt_size, St,
};
use crate::parser::{Event, Expr, MutationOperator, Stmt};
use crate::assets::{costume_of, costume_record};
use crate::makefile::{AssetData, TargetData};
use crate::project::{
    view_blocks, view_vars, Block, Costume, Field, InputKey, InputValue, Literal, Mutation,
    NodeModel, Opcode, Project, ProjectModel, Target, TargetModel,
};
use crate::symbols::{FuncSig, FuncTable, Param, ParamModel, VarTable};
use crate::token::{Operator, Type};

verus! {

/// The mutable unit owned by the compilation of one target: the node
/// arena and variable list being built, the identifier allocator, both
/// symbol tables, and the current scope path.
pub struct Lowerer {
    pub blocks: Vec<(u64, Block)>,
    pub vars: Vec<(u64, String)>,
    pub alloc: Allocator,
    pub var_table: VarTable,
    pub funcs: FuncTable,
    pub scope_path: Vec<u64>,
}

impl View for Lowerer {
    type V = St;

    open spec fn view(&self) -> St {
        St {
            blocks: view_blocks(self.blocks@),
            vars: view_vars(self.vars@),
            next_id: self.alloc.next,
            var_table: self.var_table@,
            funcs: self.funcs@,
            scope_path: self.scope_path@,
        }
    }
}

impl Lowerer {
    /// A fresh lowering state for one target.
    pub fn new() -> (l: Lowerer)
        ensures
            l@ == crate::lowering::st_init(),
    {
        let l = Lowerer {
            blocks: Vec::new(),
            vars: Vec::new(),
            alloc: Allocator::new(),
            var_table: VarTable::new(),
            funcs: FuncTable::new(),
            scope_path: Vec::new(),
        };
        proof {
            assert(l@ =~~= crate::lowering::st_init());
        }
        l
    }

    /// Append one node to the arena.
    fn push_block(&mut self, id: u64, b: Block)
        ensures
            final(self)@ == st_push(old(self)@, id, b@),
    {
        let ghost bv = b@;
        self.blocks.push((id, b));
        proof {
            assert(view_blocks(self.blocks@) =~= view_blocks(old(self).blocks@).push((id, bv)));
            assert(self@ =~~= st_push(old(self)@, id, bv));
        }
    }

    /// The opcode and input slots of a directly supported binary
    /// operator.
    fn op_slots(&self, op: Operator) -> (r: Option<(Opcode, InputKey, InputKey)>)
        ensures
            r == operator_slots(op),
    {
        match op {
            Operator::Plus => Option::Some((Opcode::OperatorAdd, InputKey::Num1, InputKey::Num2)),
            Operator::Minus => Option::Some(
                (Opcode::OperatorSubtract, InputKey::Num1, InputKey::Num2),
            ),
            Operator::Star => Option::Some(
                (Opcode::OperatorMultiply, InputKey::Num1, InputKey::Num2),
            ),
            Operator::Slash => Option::Some(
                (Opcode::OperatorDivide, InputKey::Num1, InputKey::Num2),
            ),
            Operator::Ampersand => Option::Some(
                (Opcode::OperatorJoin, InputKey::String1, InputKey::String2),
            ),
            Operator::EqualEqual => Option::Some(
                (Opcode::OperatorEquals, InputKey::Operand1, InputKey::Operand2),
            ),
            Operator::And => Option::Some(
                (Opcode::OperatorAnd, InputKey::Operand1, InputKey::Operand2),
            ),
            Operator::Or => Option::Some(
                (Opcode::OperatorOr, InputKey::Operand1, InputKey::Operand2),
            ),
            _ => Option::None,
        }
    }

    /// Lower a binary expression into a newly allocated operator node
    /// parented to `host`, returning the node's id.
    pub fn lower_operator(&mut self, e: &Expr, host: u64) -> (r: Result<u64, CompileError>)
        ensures
            match lower_operator_m(*e, host, old(self)@) {
                Result::Ok((st2, id)) => r == Result::<u64, CompileError>::Ok(id) && final(self)@
                    == st2,
                Result::Err(em) => r is Err && r->Err_0@ == em,
            },
        decreases expr_size(*e), 0int,
    {
        match e {
            Expr::Binary(l, op, r) => {
                match self.op_slots(*op) {
                    Option::Some((opcode, k1, k2)) => {
                        let id = self.alloc.allocate();
                        let v1 = match self.lower_value(&**l, id) {
                            Result::Ok(v) => v,
                            Result::Err(er) => {
                                return Result::Err(er);
                            },
                        };
                        let v2 = match self.lower_value(&**r, id) {
                            Result::Ok(v) => v,
                            Result::Err(er) => {
                                return Result::Err(er);
                            },
                        };
                        let ghost v1m = v1@;
                        let ghost v2m = v2@;
                        let mut inputs: Vec<(InputKey, InputValue)> = Vec::new();
                        inputs.push((k1, v1));
                        inputs.push((k2, v2));
                        let node = Block {
                            opcode,
                            next: Option::None,
                            parent: Option::Some(host),
                            inputs,
                            fields: Option::None,
                            shadow: false,
                            top_level: false,
                            mutation: Option::None,
                        };
                        proof {
                            assert(node@ =~~= NodeModel {
                                inputs: seq![(k1, v1m), (k2, v2m)],
                                ..crate::lowering::plain_node(opcode, Option::Some(host))
                            });
                        }
                        self.push_block(id, node);
                        Result::Ok(id)
                    },
                    Option::None => {
                        if matches!(op, Operator::BangEqual) {
                            let not_id = self.alloc.allocate();
                            let eq_id = self.alloc.allocate();
                            let mut not_inputs: Vec<(InputKey, InputValue)> = Vec::new();
                            not_inputs.push((InputKey::Operand, InputValue::BareNode(eq_id)));
                            let not_node = Block {
                                opcode: Opcode::OperatorNot,
                                next: Option::None,
                                parent: Option::Some(host),
                                inputs: not_inputs,
                                fields: Option::None,
                                shadow: false,
                                top_level: false,
                                mutation: Option::None,
                            };
                            proof {
                                assert(not_node@ =~~= NodeModel {
                                    inputs: seq![
                                        (
                                            InputKey::Operand,
                                            crate::project::InputValueModel::BareNode(eq_id),
                                        ),
                                    ],
                                    ..crate::lowering::plain_node(
                                        Opcode::OperatorNot,
                                        Option::Some(host),
                                    )
                                });
                            }
                            self.push_block(not_id, not_node);
                            let v1 = match self.lower_value(&**l, eq_id) {
                                Result::Ok(v) => v,
                                Result::Err(er) => {
                                    return Result::Err(er);
                                },
                            };
                            let v2 = match self.lower_value(&**r, eq_id) {
                                Result::Ok(v) => v,
                                Result::Err(er) => {
                                    return Result::Err(er);
                                },
                            };
                            let ghost v1m = v1@;
                            let ghost v2m = v2@;
                            let mut eq_inputs: Vec<(InputKey, InputValue)> = Vec::new();
                            eq_inputs.push((InputKey::Operand1, v1));
                            eq_inputs.push((InputKey::Operand2, v2));
                            let eq_node = Block {
                                opcode: Opcode::OperatorEquals,
                                next: Option::None,
                                parent: Option::Some(not_id),
                                inputs: eq_inputs,
                                fields: Option::None,
                                shadow: false,
                                top_level: false,
                                mutation: Option::None,
                            };
                            proof {
                                assert(eq_node@ =~~= NodeModel {
                                    inputs: seq![
                                        (InputKey::Operand1, v1m),
                                        (InputKey::Operand2, v2m),
                                    ],
                                    ..crate::lowering::plain_node(
                                        Opcode::OperatorEquals,
                                        Option::Some(not_id),
                                    )
                                });
                            }
                            self.push_block(eq_id, eq_node);
                            Result::Ok(not_id)
                        } else {
                            Result::Err(CompileError::Shape(ShapeError::Unsupported))
                        }
                    },
                }
            },
            _ => Result::Err(CompileError::Shape(ShapeError::Unsupported)),
        }
    }

    /// Lower an expression into the value of an input slot of the node
    /// `host`: an inline literal, a variable reference, or a reference
    /// to a newly lowered reporter node.
    pub fn lower_value(&mut self, e: &Expr, host: u64) -> (r: Result<InputValue, CompileError>)
        ensures
            match lower_value_m(*e, host, old(self)@) {
                Result::Ok((st2, v)) => r is Ok && r->Ok_0@ == v && final(self)@ == st2,
                Result::Err(em) => r is Err && r->Err_0@ == em,
            },
        decreases expr_size(*e), 1int,
    {
        match e {
            Expr::Number(s) => Result::Ok(InputValue::Literal(Literal::Num(s.clone()))),
            Expr::String(s) => Result::Ok(InputValue::Literal(Literal::Str(s.clone()))),
            Expr::Bool(b) => Result::Ok(InputValue::Literal(Literal::Bool(*b))),
            Expr::Identifier(name) => {
                match self.var_table.resolve(&self.scope_path, name) {
                    Option::Some((id, _ty)) => Result::Ok(InputValue::VarRef(name.clone(), id)),
                    Option::None => {
                        let rid = self.alloc.allocate();
                        let node = Block {
                            opcode: Opcode::ArgumentReporterStringNumber,
                            next: Option::None,
                            parent: Option::Some(host),
                            inputs: Vec::new(),
                            fields: Option::Some(Field::Value(name.clone())),
                            shadow: false,
                            top_level: false,
                            mutation: Option::None,
                        };
                        proof {
                            assert(node@ =~~= NodeModel {
                                fields: Option::Some(
                                    crate::project::FieldModel::Value(name@),
                                ),
                                ..crate::lowering::plain_node(
                                    Opcode::ArgumentReporterStringNumber,
                                    Option::Some(host),
                                )
                            });
                        }
                        self.push_block(rid, node);
                        Result::Ok(InputValue::NodeRef(rid))
                    },
                }
            },
            Expr::Binary(_, _, _) => {
                match self.lower_operator(e, host) {
                    Result::Ok(id) => Result::Ok(InputValue::NodeRef(id)),
                    Result::Err(er) => Result::Err(er),
                }
            },
            Expr::FunctionCall(_, _) => Result::Err(CompileError::Shape(ShapeError::Unsupported)),
        }
    }
}

/// The view of a return-carrier handle.
pub open spec fn ret_view(rv: Option<(String, u64)>) -> Option<(Seq<char>, u64)> {
    match rv {
        Option::Some((n, i)) => Option::Some((n@, i)),
        Option::None => Option::None,
    }
}

/// Whether a call names the built-in display procedure.
fn is_say(f: &String) -> (r: bool)
    ensures
        r == (f@ == "say"@),
{
    *f == String::from_str("say")
}

/// The name of the return carrier of the function `f`.
fn carrier_of(f: &String) -> (r: String)
    ensures
        r@ == carrier_name(f@),
{
    String::from_str("!func_var_").concat(f.as_str())
}

/// A "set variable" node.
fn setvar_block(name: &String, var_id: u64, v: InputValue, parent: u64, next: Option<u64>) -> (b:
    Block)
    ensures
        b@ == setvar_node(name@, var_id, v@, parent, next),
{
    let ghost vm = v@;
    let mut inputs: Vec<(InputKey, InputValue)> = Vec::new();
    inputs.push((InputKey::Value, v));
    let b = Block {
        opcode: Opcode::DataSetVariableTo,
        next,
        parent: Option::Some(parent),
        inputs,
        fields: Option::Some(Field::Variable(name.clone(), var_id)),
        shadow: false,
        top_level: false,
        mutation: Option::None,
    };
    proof {
        assert(b@ =~~= setvar_node(name@, var_id, vm, parent, next));
    }
    b
}

impl Lowerer {
    /// Lower the arguments of a generic call, from position `i` on,
    /// into input slots keyed by the declared argument ids.
    fn lower_inputs_from(
        &mut self,
        args: &Vec<Expr>,
        params: &Vec<(u64, Type)>,
        i: usize,
        host: u64,
    ) -> (r: Result<Vec<(InputKey, InputValue)>, CompileError>)
        requires
            i <= args@.len(),
            args@.len() == params@.len(),
        ensures
            match lower_call_inputs_m(args@.skip(i as int), params@.skip(i as int), host, old(
                self,
            )@) {
                Result::Ok((st2, ins)) => r is Ok && r->Ok_0@.map_values(
                    |p: (InputKey, InputValue)| (p.0, p.1@),
                ) == ins && final(self)@ == st2,
                Result::Err(em) => r is Err && r->Err_0@ == em,
            },
        decreases exprs_size(args@.skip(i as int)), 2int,
    {
        proof {
            assert(args@.skip(i as int).len() == args@.len() - i);
        }
        if i == args.len() {
            let r: Vec<(InputKey, InputValue)> = Vec::new();
            proof {
                assert(r@.map_values(|p: (InputKey, InputValue)| (p.0, p.1@)) =~= Seq::<
                    (InputKey, crate::project::InputValueModel),
                >::empty());
            }
            return Result::Ok(r);
        }
        proof {
            assert(args@.skip(i as int)[0] == args@[i as int]);
            assert(params@.skip(i as int)[0] == params@[i as int]);
            assert(args@.skip(i as int).drop_first() =~= args@.skip(i as int + 1));
            assert(params@.skip(i as int).drop_first() =~= params@.skip(i as int + 1));
        }
        match &args[i] {
            Expr::Bool(_) | Expr::FunctionCall(_, _) => Result::Err(
                CompileError::Shape(ShapeError::Unsupported),
            ),
            _ => {
                let v = match self.lower_value(&args[i], host) {
                    Result::Ok(v) => v,
                    Result::Err(er) => {
                        return Result::Err(er);
                    },
                };
                let key = InputKey::Arg(params[i].0);
                let ghost vm = v@;
                match self.lower_inputs_from(args, params, i + 1, host) {
                    Result::Ok(mut rest) => {
                        let ghost rest_m = rest@.map_values(
                            |p: (InputKey, InputValue)| (p.0, p.1@),
                        );
                        rest.insert(0, (key, v));
                        proof {
                            assert(rest@.map_values(|p: (InputKey, InputValue)| (p.0, p.1@)) =~= seq![
                                (key, vm),
                            ] + rest_m);
                        }
                        Result::Ok(rest)
                    },
                    Result::Err(er) => Result::Err(er),
                }
            },
        }
    }

    /// Lower a call to the built-in `say` into a single-argument
    /// display node.
    fn lower_say(&mut self, args: &Vec<Expr>, current: u64, parent: u64, tail: bool) -> (r: Result<
        (),
        CompileError,
    >)
        ensures
            match lower_say_m(args@, current, parent, tail, old(self)@) {
                Result::Ok(st2) => r is Ok && final(self)@ == st2,
                Result::Err(em) => r is Err && r->Err_0@ == em,
            },
        decreases exprs_size(args@), 3int,
    {
        if args.len() != 1 {
            return Result::Err(CompileError::Shape(ShapeError::WrongArgumentCount));
        }
        match &args[0] {
            Expr::String(_) | Expr::Identifier(_) | Expr::Binary(_, _, _) => {
                let v = match self.lower_value(&args[0], current) {
                    Result::Ok(v) => v,
                    Result::Err(er) => {
                        return Result::Err(er);
                    },
                };
                let ghost vm = v@;
                let next = if tail {
                    Option::None
                } else {
                    Option::Some(self.alloc.peek())
                };
                let mut inputs: Vec<(InputKey, InputValue)> = Vec::new();
                inputs.push((InputKey::Message, v));
                let node = Block {
                    opcode: Opcode::LooksSay,
                    next,
                    parent: Option::Some(parent),
                    inputs,
                    fields: Option::None,
                    shadow: false,
                    top_level: false,
                    mutation: Option::None,
                };
                proof {
                    assert(node@ =~~= NodeModel {
                        next,
                        inputs: seq![(InputKey::Message, vm)],
                        ..crate::lowering::plain_node(Opcode::LooksSay, Option::Some(parent))
                    });
                }
                self.push_block(current, node);
                Result::Ok(())
            },
            _ => Result::Err(CompileError::Shape(ShapeError::Unsupported)),
        }
    }

    /// Lower a generic procedure call, rebuilding the signature string
    /// and argument ids from the function signature table.
    fn lower_call(&mut self, f: &String, args: &Vec<Expr>, current: u64, parent: u64, tail: bool)
        -> (r: Result<(), CompileError>)
        ensures
            match lower_call_m(*f, args@, current, parent, tail, old(self)@) {
                Result::Ok(st2) => r is Ok && final(self)@ == st2,
                Result::Err(em) => r is Err && r->Err_0@ == em,
            },
        decreases exprs_size(args@), 3int,
    {
        let params = match self.funcs.lookup_params(f) {
            Option::Some(p) => p,
            Option::None => {
                return Result::Err(
                    CompileError::Resolution(ResolutionError::UnboundFunction(f.clone())),
                );
            },
        };
        let ghost fm = crate::symbols::find_func(self@.funcs, f@)->Some_0;
        if args.len() != params.len() {
            return Result::Err(CompileError::Shape(ShapeError::WrongArgumentCount));
        }
        proof {
            assert(args@.skip(0) =~= args@);
            assert(params@.skip(0) =~= params@);
        }
        let inputs = match self.lower_inputs_from(args, &params, 0, current) {
            Result::Ok(ins) => ins,
            Result::Err(er) => {
                return Result::Err(er);
            },
        };
        // Rebuild the signature string and argument id array from the
        // recorded parameters.
        let mut pc = f.clone();
        let mut ids: Vec<u64> = Vec::new();
        let mut i: usize = 0;
        proof {
            assert(fm.params.take(0) =~= Seq::<crate::symbols::ParamModel>::empty());
            assert(ids@ =~= fm.params.map_values(|p: crate::symbols::ParamModel| p.id).take(0));
        }
        while i < params.len()
            invariant
                i <= params@.len(),
                params@ == fm.params.map_values(
                    |p: crate::symbols::ParamModel| (p.id, p.ty),
                ),
                pc@ == proccode_of(f@, fm.params.take(i as int)),
                ids@ == fm.params.map_values(|p: crate::symbols::ParamModel| p.id).take(
                    i as int,
                ),
            decreases params@.len() - i,
        {
            proof {
                assert(params@[i as int] == (fm.params[i as int].id, fm.params[i as int].ty));
                assert(fm.params.take(i as int + 1).drop_last() =~= fm.params.take(i as int));
                assert(fm.params.take(i as int + 1).last() == fm.params[i as int]);
            }
            match params[i].1 {
                Type::Bool => pc.append(" %b"),
                _ => pc.append(" %s"),
            }
            ids.push(params[i].0);
            proof {
                assert(ids@ =~= fm.params.map_values(|p: crate::symbols::ParamModel| p.id).take(
                    i as int + 1,
                ));
            }
            i = i + 1;
        }
        proof {
            assert(fm.params.take(fm.params.len() as int) =~= fm.params);
        }
        let mutation = Mutation {
            hasnext: Option::None,
            proccode: Option::Some(pc),
            argumentids: Option::Some(ids),
            argumentnames: Option::None,
            argumentdefaults: Option::None,
            warp: Option::Some(false),
        };
        let next = if tail {
            Option::None
        } else {
            Option::Some(self.alloc.peek())
        };
        let ghost ins_m = inputs@.map_values(|p: (InputKey, InputValue)| (p.0, p.1@));
        let node = Block {
            opcode: Opcode::ProceduresCall,
            next,
            parent: Option::Some(parent),
            inputs,
            fields: Option::None,
            shadow: false,
            top_level: false,
            mutation: Option::Some(mutation),
        };
        proof {
            assert(node@ =~~= NodeModel {
                next,
                inputs: ins_m,
                mutation: Option::Some(
                    crate::project::MutationModel {
                        hasnext: Option::None,
                        proccode: Option::Some(proccode_of(f@, fm.params)),
                        argumentids: Option::Some(
                            fm.params.map_values(|p: crate::symbols::ParamModel| p.id),
                        ),
                        argumentnames: Option::None,
                        argumentdefaults: Option::None,
                        warp: Option::Some(false),
                    },
                ),
                ..crate::lowering::plain_node(Opcode::ProceduresCall, Option::Some(parent))
            });
        }
        self.push_block(current, node);
        Result::Ok(())
    }

    /// Lower the right-hand side of a declaration or assignment and
    /// emit the "set variable" node.
    fn lower_assign(
        &mut self,
        name: &String,
        var_id: u64,
        e: &Expr,
        current: u64,
        parent: u64,
        is_last: bool,
    ) -> (r: Result<(), CompileError>)
        ensures
            match lower_assign_m(*name, var_id, *e, current, parent, is_last, old(self)@) {
                Result::Ok(st2) => r is Ok && final(self)@ == st2,
                Result::Err(em) => r is Err && r->Err_0@ == em,
            },
        decreases expr_size(*e), 4int,
    {
        match e {
            Expr::FunctionCall(f, cargs) => {
                if is_say(f) {
                    return Result::Err(CompileError::Shape(ShapeError::Unsupported));
                }
                match self.lower_call(f, cargs, current, parent, false) {
                    Result::Ok(()) => {},
                    Result::Err(er) => {
                        return Result::Err(er);
                    },
                }
                let cn = carrier_of(f);
                match self.var_table.resolve(&self.scope_path, &cn) {
                    Option::None => Result::Err(
                        CompileError::Resolution(ResolutionError::UnboundVariable(cn)),
                    ),
                    Option::Some((cid, _ty)) => {
                        let sv_id = self.alloc.allocate();
                        let next = if is_last {
                            Option::None
                        } else {
                            Option::Some(self.alloc.peek())
                        };
                        let node = setvar_block(
                            name,
                            var_id,
                            InputValue::VarRef(cn, cid),
                            parent,
                            next,
                        );
                        self.push_block(sv_id, node);
                        Result::Ok(())
                    },
                }
            },
            _ => {
                let v = match self.lower_value(e, current) {
                    Result::Ok(v) => v,
                    Result::Err(er) => {
                        return Result::Err(er);
                    },
                };
                let next = if is_last {
                    Option::None
                } else {
                    Option::Some(self.alloc.peek())
                };
                let node = setvar_block(name, var_id, v, parent, next);
                self.push_block(current, node);
                Result::Ok(())
            },
        }
    }

    /// The arithmetic opcode a compound assignment desugars to.
    fn mut_op(&self, mop: MutationOperator) -> (r: Opcode)
        ensures
            r == mutation_opcode(mop),
    {
        match mop {
            MutationOperator::AddEqual => Opcode::OperatorAdd,
            MutationOperator::SubEqual => Opcode::OperatorSubtract,
            MutationOperator::MultEqual => Opcode::OperatorMultiply,
            MutationOperator::DivEqual => Opcode::OperatorDivide,
        }
    }

    /// Why an expression may not stand at the root of a condition, if
    /// it may not.
    fn cond_check(&self, e: &Expr) -> (r: Option<ShapeError>)
        ensures
            r == cond_root_check(*e),
    {
        match e {
            Expr::Binary(_, op, _) => match op {
                Operator::EqualEqual | Operator::BangEqual | Operator::And | Operator::Or
                    => Option::None,
                Operator::Greater | Operator::Less | Operator::GreaterEqual
                    | Operator::LessEqual | Operator::Bang => Option::Some(
                    ShapeError::Unsupported,
                ),
                _ => Option::Some(ShapeError::ConditionNotComparison),
            },
            _ => Option::Some(ShapeError::ConditionNotComparison),
        }
    }

    /// Lower one statement of a body.
    #[verifier::rlimit(100)]
    pub fn lower_stmt(
        &mut self,
        s: &Stmt,
        current: u64,
        parent: u64,
        is_last: bool,
        ret_var: &Option<(String, u64)>,
    ) -> (r: Result<(), CompileError>)
        ensures
            match lower_stmt_m(*s, current, parent, is_last, ret_view(*ret_var), old(self)@) {
                Result::Ok(st2) => r is Ok && final(self)@ == st2,
                Result::Err(em) => r is Err && r->Err_0@ == em,
            },
        decreases stmt_size(*s), 9int,
    {
        match s {
            Stmt::FunctionCall(f, args) => {
                if is_say(f) {
                    self.lower_say(args, current, parent, is_last)
                } else {
                    self.lower_call(f, args, current, parent, is_last)
                }
            },
            Stmt::VariableDeclaration(name, ty, e) => {
                let var_id = self.alloc.allocate();
                match self.var_table.declare(&self.scope_path, name, var_id, *ty) {
                    Result::Ok(()) => {},
                    Result::Err(re) => {
                        return Result::Err(CompileError::Resolution(re));
                    },
                }
                self.vars.push((var_id, name.clone()));
                proof {
                    assert(view_vars(self.vars@) =~= view_vars(old(self).vars@).push(
                        (var_id, name@),
                    ));
                }
                self.lower_assign(name, var_id, e, current, parent, is_last)
            },
            Stmt::VariableAssignment(name, e) => {
                match self.var_table.resolve(&self.scope_path, name) {
                    Option::None => Result::Err(
                        CompileError::Resolution(ResolutionError::UnboundVariable(name.clone())),
                    ),
                    Option::Some((vid, _ty)) => self.lower_assign(
                        name,
                        vid,
                        e,
                        current,
                        parent,
                        is_last,
                    ),
                }
            },
            Stmt::VariableMutation(name, mop, e) => self.lower_mutation(
                name,
                *mop,
                e,
                current,
                parent,
                is_last,
            ),
            Stmt::If(c, tb, fb) => self.lower_if_stmt(c, tb, fb, current, parent, is_last, ret_var),
            Stmt::While(c, tb) => self.lower_while_stmt(c, tb, current, parent, is_last, ret_var),
            Stmt::Return(e) => self.lower_return(e, current, parent, is_last, ret_var),
            _ => Result::Err(CompileError::Shape(ShapeError::Unsupported)),
        }
    }


    /// Lower a compound assignment: desugar `name <op> rhs` into an
    /// operator node and store its value back into the variable.
    fn lower_mutation(
        &mut self,
        name: &String,
        mop: MutationOperator,
        e: &Expr,
        current: u64,
        parent: u64,
        is_last: bool,
    ) -> (r: Result<(), CompileError>)
        ensures
            match lower_mutation_m(*name, mop, *e, current, parent, is_last, old(self)@) {
                Result::Ok(st2) => r is Ok && final(self)@ == st2,
                Result::Err(em) => r is Err && r->Err_0@ == em,
            },
        decreases expr_size(*e), 4int,
    {

                match self.var_table.resolve(&self.scope_path, name) {
                    Option::None => Result::Err(
                        CompileError::Resolution(ResolutionError::UnboundVariable(name.clone())),
                    ),
                    Option::Some((vid, _ty)) => {
                        let op_id = self.alloc.allocate();
                        let v2 = match self.lower_value(e, op_id) {
                            Result::Ok(v) => v,
                            Result::Err(er) => {
                                return Result::Err(er);
                            },
                        };
                        let ghost v2m = v2@;
                        let opcode = self.mut_op(mop);
                        let mut inputs: Vec<(InputKey, InputValue)> = Vec::new();
                        inputs.push((InputKey::Num1, InputValue::VarRef(name.clone(), vid)));
                        inputs.push((InputKey::Num2, v2));
                        let op_node = Block {
                            opcode,
                            next: Option::None,
                            parent: Option::Some(current),
                            inputs,
                            fields: Option::None,
                            shadow: false,
                            top_level: false,
                            mutation: Option::None,
                        };
                        proof {
                            assert(op_node@ =~~= NodeModel {
                                inputs: seq![
                                    (
                                        InputKey::Num1,
                                        crate::project::InputValueModel::VarRef(name@, vid),
                                    ),
                                    (InputKey::Num2, v2m),
                                ],
                                ..crate::lowering::plain_node(opcode, Option::Some(current))
                            });
                        }
                        self.push_block(op_id, op_node);
                        let next = if is_last {
                            Option::None
                        } else {
                            Option::Some(self.alloc.peek())
                        };
                        let node = setvar_block(
                            name,
                            vid,
                            InputValue::NodeRef(op_id),
                            parent,
                            next,
                        );
                        self.push_block(current, node);
                        Result::Ok(())
                    },
                }
            
    }

    /// Lower a conditional statement.
    fn lower_if_stmt(
        &mut self,
        c: &Expr,
        tb: &Vec<Stmt>,
        fb: &Option<Vec<Stmt>>,
        current: u64,
        parent: u64,
        is_last: bool,
        ret_var: &Option<(String, u64)>,
    ) -> (r: Result<(), CompileError>)
        ensures
            match lower_if_m(*c, *tb, *fb, current, parent, is_last, ret_view(*ret_var), old(
                self,
            )@) {
                Result::Ok(st2) => r is Ok && final(self)@ == st2,
                Result::Err(em) => r is Err && r->Err_0@ == em,
            },
        decreases expr_size(*c) + body_size(tb@) + (match *fb {
            Option::Some(f) => 1nat + body_size(f@),
            Option::None => 0nat,
        }), 8int,
    {

                let opcode = if fb.is_some() {
                    Opcode::ControlIfElse
                } else {
                    Opcode::ControlIf
                };
                match self.cond_check(c) {
                    Option::Some(se) => {
                        return Result::Err(CompileError::Shape(se));
                    },
                    Option::None => {},
                }
                let cond_id = match self.lower_operator(c, current) {
                    Result::Ok(id) => id,
                    Result::Err(er) => {
                        return Result::Err(er);
                    },
                };
                let ghost i0 = seq![
                    (
                        InputKey::Condition,
                        crate::project::InputValueModel::BareNode(cond_id),
                    ),
                ];
                let mut inputs: Vec<(InputKey, InputValue)> = Vec::new();
                inputs.push((InputKey::Condition, InputValue::BareNode(cond_id)));
                proof {
                    assert(inputs@.map_values(|p: (InputKey, InputValue)| (p.0, p.1@)) =~= i0);
                }
                if tb.len() > 0 {
                    let sub = self.alloc.peek();
                    match self.lower_body(tb, current, ret_var) {
                        Result::Ok(()) => {},
                        Result::Err(er) => {
                            return Result::Err(er);
                        },
                    }
                    inputs.push((InputKey::Substack, InputValue::BareNode(sub)));
                    proof {
                        assert(inputs@.map_values(|p: (InputKey, InputValue)| (p.0, p.1@)) =~= i0
                            .push(
                            (
                                InputKey::Substack,
                                crate::project::InputValueModel::BareNode(sub),
                            ),
                        ));
                    }
                }
                let ghost i1 = inputs@.map_values(|p: (InputKey, InputValue)| (p.0, p.1@));
                match fb {
                    Option::Some(fbv) => {
                        if fbv.len() > 0 {
                            let sub2 = self.alloc.peek();
                            match self.lower_body(fbv, current, ret_var) {
                                Result::Ok(()) => {},
                                Result::Err(er) => {
                                    return Result::Err(er);
                                },
                            }
                            inputs.push((InputKey::Substack2, InputValue::BareNode(sub2)));
                            proof {
                                assert(inputs@.map_values(
                                    |p: (InputKey, InputValue)| (p.0, p.1@),
                                ) =~= i1.push(
                                    (
                                        InputKey::Substack2,
                                        crate::project::InputValueModel::BareNode(sub2),
                                    ),
                                ));
                            }
                        }
                    },
                    Option::None => {},
                }
                let next = if is_last {
                    Option::None
                } else {
                    Option::Some(self.alloc.peek())
                };
                let ghost ins_m = inputs@.map_values(|p: (InputKey, InputValue)| (p.0, p.1@));
                let node = Block {
                    opcode,
                    next,
                    parent: Option::Some(parent),
                    inputs,
                    fields: Option::None,
                    shadow: false,
                    top_level: false,
                    mutation: Option::None,
                };
                proof {
                    assert(node@ =~~= NodeModel {
                        next,
                        inputs: ins_m,
                        ..crate::lowering::plain_node(opcode, Option::Some(parent))
                    });
                }
                self.push_block(current, node);
                Result::Ok(())
            
    }

    /// Lower a loop statement.
    fn lower_while_stmt(
        &mut self,
        c: &Expr,
        tb: &Vec<Stmt>,
        current: u64,
        parent: u64,
        is_last: bool,
        ret_var: &Option<(String, u64)>,
    ) -> (r: Result<(), CompileError>)
        ensures
            match lower_while_m(*c, *tb, current, parent, is_last, ret_view(*ret_var), old(
                self,
            )@) {
                Result::Ok(st2) => r is Ok && final(self)@ == st2,
                Result::Err(em) => r is Err && r->Err_0@ == em,
            },
        decreases expr_size(*c) + body_size(tb@), 8int,
    {

                match self.cond_check(c) {
                    Option::Some(se) => {
                        return Result::Err(CompileError::Shape(se));
                    },
                    Option::None => {},
                }
                let cond_id = match self.lower_operator(c, current) {
                    Result::Ok(id) => id,
                    Result::Err(er) => {
                        return Result::Err(er);
                    },
                };
                let ghost i0 = seq![
                    (
                        InputKey::Condition,
                        crate::project::InputValueModel::BareNode(cond_id),
                    ),
                ];
                let mut inputs: Vec<(InputKey, InputValue)> = Vec::new();
                inputs.push((InputKey::Condition, InputValue::BareNode(cond_id)));
                proof {
                    assert(inputs@.map_values(|p: (InputKey, InputValue)| (p.0, p.1@)) =~= i0);
                }
                if tb.len() > 0 {
                    let sub = self.alloc.peek();
                    match self.lower_body(tb, current, ret_var) {
                        Result::Ok(()) => {},
                        Result::Err(er) => {
                            return Result::Err(er);
                        },
                    }
                    inputs.push((InputKey::Substack, InputValue::BareNode(sub)));
                    proof {
                        assert(inputs@.map_values(|p: (InputKey, InputValue)| (p.0, p.1@)) =~= i0
                            .push(
                            (
                                InputKey::Substack,
                                crate::project::InputValueModel::BareNode(sub),
                            ),
                        ));
                    }
                }
                let next = if is_last {
                    Option::None
                } else {
                    Option::Some(self.alloc.peek())
                };
                let ghost ins_m = inputs@.map_values(|p: (InputKey, InputValue)| (p.0, p.1@));
                let node = Block {
                    opcode: Opcode::ControlWhile,
                    next,
                    parent: Option::Some(parent),
                    inputs,
                    fields: Option::None,
                    shadow: false,
                    top_level: false,
                    mutation: Option::None,
                };
                proof {
                    assert(node@ =~~= NodeModel {
                        next,
                        inputs: ins_m,
                        ..crate::lowering::plain_node(Opcode::ControlWhile, Option::Some(parent))
                    });
                }
                self.push_block(current, node);
                Result::Ok(())
            
    }

    /// Lower a return statement.
    fn lower_return(
        &mut self,
        e: &Expr,
        current: u64,
        parent: u64,
        is_last: bool,
        ret_var: &Option<(String, u64)>,
    ) -> (r: Result<(), CompileError>)
        ensures
            match lower_return_m(*e, current, parent, is_last, ret_view(*ret_var), old(self)@) {
                Result::Ok(st2) => r is Ok && final(self)@ == st2,
                Result::Err(em) => r is Err && r->Err_0@ == em,
            },
        decreases expr_size(*e), 4int,
    {

                if !is_last {
                    return Result::Err(CompileError::Shape(ShapeError::ReturnNotFinal));
                }
                match ret_var {
                    Option::None => Result::Err(
                        CompileError::Shape(ShapeError::ReturnInVoidFunction),
                    ),
                    Option::Some((rn, rid)) => {
                        let v = match self.lower_value(e, current) {
                            Result::Ok(v) => v,
                            Result::Err(er) => {
                                return Result::Err(er);
                            },
                        };
                        let stop_id = self.alloc.allocate();
                        let node = setvar_block(rn, *rid, v, parent, Option::Some(stop_id));
                        self.push_block(current, node);
                        let stop = Block {
                            opcode: Opcode::ControlStop,
                            next: Option::None,
                            parent: Option::Some(parent),
                            inputs: Vec::new(),
                            fields: Option::Some(Field::StopOption),
                            shadow: false,
                            top_level: false,
                            mutation: Option::Some(
                                Mutation {
                                    hasnext: Option::Some(false),
                                    proccode: Option::None,
                                    argumentids: Option::None,
                                    argumentnames: Option::None,
                                    argumentdefaults: Option::None,
                                    warp: Option::None,
                                },
                            ),
                        };
                        proof {
                            assert(stop@ =~~= NodeModel {
                                fields: Option::Some(crate::project::FieldModel::StopOption),
                                mutation: Option::Some(
                                    crate::project::MutationModel {
                                        hasnext: Option::Some(false),
                                        proccode: Option::None,
                                        argumentids: Option::None,
                                        argumentnames: Option::None,
                                        argumentdefaults: Option::None,
                                        warp: Option::None,
                                    },
                                ),
                                ..crate::lowering::plain_node(
                                    Opcode::ControlStop,
                                    Option::Some(parent),
                                )
                            });
                        }
                        self.push_block(stop_id, stop);
                        Result::Ok(())
                    },
                }
            
    }

    /// Lower the statements of a body from position `i` on.
    fn lower_stmts_from(
        &mut self,
        body: &Vec<Stmt>,
        i: usize,
        parent: u64,
        ret_var: &Option<(String, u64)>,
    ) -> (r: Result<(), CompileError>)
        requires
            i <= body@.len(),
        ensures
            match lower_stmts_m(body@.skip(i as int), parent, ret_view(*ret_var), old(self)@) {
                Result::Ok(st2) => r is Ok && final(self)@ == st2,
                Result::Err(em) => r is Err && r->Err_0@ == em,
            },
        decreases body_size(body@.skip(i as int)), 5int,
    {
        proof {
            assert(body@.skip(i as int).len() == body@.len() - i);
        }
        if i == body.len() {
            return Result::Ok(());
        }
        proof {
            assert(body@.skip(i as int)[0] == body@[i as int]);
            assert(body@.skip(i as int).drop_first() =~= body@.skip(i as int + 1));
        }
        let current = self.alloc.allocate();
        let is_last = i + 1 == body.len();
        match self.lower_stmt(&body[i], current, parent, is_last, ret_var) {
            Result::Ok(()) => self.lower_stmts_from(body, i + 1, parent, ret_var),
            Result::Err(er) => Result::Err(er),
        }
    }

    /// Lower one body: push its parent onto the scope path, lower the
    /// statements in order, and pop the scope path.
    pub fn lower_body(
        &mut self,
        body: &Vec<Stmt>,
        parent: u64,
        ret_var: &Option<(String, u64)>,
    ) -> (r: Result<(), CompileError>)
        ensures
            match lower_body_m(body@, parent, ret_view(*ret_var), old(self)@) {
                Result::Ok(st2) => r is Ok && final(self)@ == st2,
                Result::Err(em) => r is Err && r->Err_0@ == em,
            },
        decreases body_size(body@), 6int,
    {
        self.scope_path.push(parent);
        proof {
            assert(self@ =~~= St {
                scope_path: old(self)@.scope_path.push(parent),
                ..old(self)@
            });
            assert(body@.skip(0) =~= body@);
        }
        match self.lower_stmts_from(body, 0, parent, ret_var) {
            Result::Ok(()) => {
                let ghost mid = self@;
                self.scope_path.pop();
                proof {
                    if mid.scope_path.len() > 0 {
                        assert(self@ =~~= St {
                            scope_path: mid.scope_path.drop_last(),
                            ..mid
                        });
                    } else {
                        assert(self@ =~~= mid);
                    }
                }
                Result::Ok(())
            },
            Result::Err(er) => Result::Err(er),
        }
    }
}

impl Lowerer {
    /// Lower the parameters of a function declaration from position
    /// `i` on: allocate argument and reporter ids, and collect the
    /// recorded parameters, the prototype inputs, and the reporter
    /// nodes.
    fn lower_params_from(&mut self, ps: &Vec<(String, Type)>, i: usize, proto_id: u64) -> (r:
        Result<(Vec<Param>, Vec<(InputKey, InputValue)>, Vec<(u64, Block)>), CompileError>)
        requires
            i <= ps@.len(),
        ensures
            match lower_params_m(ps@.skip(i as int), proto_id, old(self)@) {
                Result::Ok((st2, pm, im, bm)) => r is Ok && final(self)@ == st2 && r->Ok_0.0@
                    .map_values(|p: Param| p@) == pm && r->Ok_0.1@.map_values(
                    |p: (InputKey, InputValue)| (p.0, p.1@),
                ) == im && view_blocks(r->Ok_0.2@) == bm,
                Result::Err(em) => r is Err && r->Err_0@ == em,
            },
        decreases ps@.len() - i, 0int,
    {
        proof {
            assert(ps@.skip(i as int).len() == ps@.len() - i);
        }
        if i == ps.len() {
            let pv: Vec<Param> = Vec::new();
            let iv: Vec<(InputKey, InputValue)> = Vec::new();
            let bv: Vec<(u64, Block)> = Vec::new();
            proof {
                assert(pv@.map_values(|p: Param| p@) =~= Seq::<ParamModel>::empty());
                assert(iv@.map_values(|p: (InputKey, InputValue)| (p.0, p.1@)) =~= Seq::<
                    (InputKey, crate::project::InputValueModel),
                >::empty());
                assert(view_blocks(bv@) =~= Seq::<(u64, NodeModel)>::empty());
            }
            return Result::Ok((pv, iv, bv));
        }
        proof {
            assert(ps@.skip(i as int)[0] == ps@[i as int]);
            assert(ps@.skip(i as int).drop_first() =~= ps@.skip(i as int + 1));
        }
        let ty = ps[i].1;
        match ty {
            Type::Table | Type::Void => {
                return Result::Err(CompileError::Shape(ShapeError::Unsupported));
            },
            _ => {},
        }
        let arg_id = self.alloc.allocate();
        let blk_id = self.alloc.allocate();
        let opcode = match ty {
            Type::Bool => Opcode::ArgumentReporterBoolean,
            _ => Opcode::ArgumentReporterStringNumber,
        };
        let blk = Block {
            opcode,
            next: Option::None,
            parent: Option::Some(proto_id),
            inputs: Vec::new(),
            fields: Option::Some(Field::Value(ps[i].0.clone())),
            shadow: true,
            top_level: false,
            mutation: Option::None,
        };
        proof {
            assert(blk@ =~~= NodeModel {
                fields: Option::Some(crate::project::FieldModel::Value(ps@[i as int].0@)),
                shadow: true,
                ..crate::lowering::plain_node(opcode, Option::Some(proto_id))
            });
        }
        let param = Param { id: arg_id, name: ps[i].0.clone(), ty };
        match self.lower_params_from(ps, i + 1, proto_id) {
            Result::Ok((mut pv, mut iv, mut bv)) => {
                let ghost pm_r = pv@.map_values(|p: Param| p@);
                let ghost im_r = iv@.map_values(|p: (InputKey, InputValue)| (p.0, p.1@));
                let ghost bm_r = view_blocks(bv@);
                let ghost blk_m = blk@;
                let ghost param_m = param@;
                pv.insert(0, param);
                iv.insert(0, (InputKey::Arg(arg_id), InputValue::ShadowNode(blk_id)));
                bv.insert(0, (blk_id, blk));
                proof {
                    assert(pv@.map_values(|p: Param| p@) =~= seq![param_m] + pm_r);
                    assert(iv@.map_values(|p: (InputKey, InputValue)| (p.0, p.1@)) =~= seq![
                        (
                            InputKey::Arg(arg_id),
                            crate::project::InputValueModel::ShadowNode(blk_id),
                        ),
                    ] + im_r);
                    assert(view_blocks(bv@) =~= seq![(blk_id, blk_m)] + bm_r);
                }
                Result::Ok((pv, iv, bv))
            },
            Result::Err(er) => Result::Err(er),
        }
    }

    /// Lower one top-level statement: an event handler or a function
    /// declaration.
    #[verifier::rlimit(100)]
    pub fn lower_top(&mut self, s: &Stmt) -> (r: Result<(), CompileError>)
        ensures
            match lower_top_m(*s, old(self)@) {
                Result::Ok(st2) => r is Ok && final(self)@ == st2,
                Result::Err(em) => r is Err && r->Err_0@ == em,
            },
        decreases stmt_size(*s), 9int,
    {
        match s {
            Stmt::EventHandler(ev, body) => {
                match ev {
                    Event::FlagClicked => {
                        let flag_id = self.alloc.allocate();
                        let next = if body.len() > 0 {
                            Option::Some(self.alloc.peek())
                        } else {
                            Option::None
                        };
                        let node = Block {
                            opcode: Opcode::EventWhenFlagClicked,
                            next,
                            parent: Option::None,
                            inputs: Vec::new(),
                            fields: Option::None,
                            shadow: false,
                            top_level: true,
                            mutation: Option::None,
                        };
                        proof {
                            assert(node@ =~~= NodeModel {
                                next,
                                top_level: true,
                                ..crate::lowering::plain_node(
                                    Opcode::EventWhenFlagClicked,
                                    Option::None,
                                )
                            });
                        }
                        self.push_block(flag_id, node);
                        let rv: Option<(String, u64)> = Option::None;
                        self.lower_body(body, flag_id, &rv)
                    },
                    Event::KeyPressed(_) => Result::Err(
                        CompileError::Shape(ShapeError::Unsupported),
                    ),
                }
            },
            Stmt::FunctionDeclaration(name, args, body, ret) => {
                if self.funcs.lookup_params(name).is_some() {
                    return Result::Err(
                        CompileError::Resolution(ResolutionError::Redeclaration(name.clone())),
                    );
                }
                let rv: Option<(String, u64)>;
                match ret {
                    Type::Number | Type::String => {
                        let vid = self.alloc.allocate();
                        let cn = carrier_of(name);
                        match self.var_table.declare(&self.scope_path, &cn, vid, *ret) {
                            Result::Ok(()) => {},
                            Result::Err(re) => {
                                return Result::Err(CompileError::Resolution(re));
                            },
                        }
                        self.vars.push((vid, cn.clone()));
                        proof {
                            assert(view_vars(self.vars@) =~= view_vars(old(self).vars@).push(
                                (vid, cn@),
                            ));
                        }
                        rv = Option::Some((cn, vid));
                    },
                    Type::Void => {
                        rv = Option::None;
                    },
                    Type::Bool | Type::Table => {
                        return Result::Err(CompileError::Shape(ShapeError::Unsupported));
                    },
                }
                let ghost st2_g = carrier_step(name@, *ret, old(self)@)->Ok_0.0;
                proof {
                    assert(self@ =~~= st2_g);
                }
                let proto_id = self.alloc.allocate();
                let def_id = self.alloc.allocate();
                let ghost st4_g = self@;
                proof {
                    assert(args@.skip(0) =~= args@);
                }
                let (params, proto_inputs, arg_blks) = match self.lower_params_from(
                    args,
                    0,
                    proto_id,
                ) {
                    Result::Ok(t) => t,
                    Result::Err(er) => {
                        return Result::Err(er);
                    },
                };
                let ghost pm = params@.map_values(|p: Param| p@);
                // Rebuild the signature material in declaration order.
                let mut pc = name.clone();
                let mut ids: Vec<u64> = Vec::new();
                let mut names: Vec<String> = Vec::new();
                let mut defaults: Vec<String> = Vec::new();
                let mut j: usize = 0;
                proof {
                    assert(pm.take(0) =~= Seq::<ParamModel>::empty());
                    assert(ids@ =~= pm.map_values(|p: ParamModel| p.id).take(0));
                }
                while j < params.len()
                    invariant
                        j <= params@.len(),
                        pm == params@.map_values(|p: Param| p@),
                        pc@ == proccode_of(name@, pm.take(j as int)),
                        ids@ == pm.map_values(|p: ParamModel| p.id).take(j as int),
                        names@.len() == j,
                        forall|k: int| 0 <= k < j ==> names@[k]@ == pm[k].name,
                        defaults@.len() == j,
                        forall|k: int| 0 <= k < j ==> defaults@[k]@ == default_of(pm[k].ty),
                    decreases params@.len() - j,
                {
                    proof {
                        assert(pm[j as int] == params@[j as int]@);
                        assert(pm.take(j as int + 1).drop_last() =~= pm.take(j as int));
                        assert(pm.take(j as int + 1).last() == pm[j as int]);
                    }
                    match params[j].ty {
                        Type::Bool => {
                            pc.append(" %b");
                            defaults.push(String::from_str("false"));
                        },
                        _ => {
                            pc.append(" %s");
                            defaults.push(String::from_str(""));
                        },
                    }
                    ids.push(params[j].id);
                    names.push(params[j].name.clone());
                    proof {
                        assert(ids@ =~= pm.map_values(|p: ParamModel| p.id).take(j as int + 1));
                    }
                    j = j + 1;
                }
                proof {
                    assert(pm.take(pm.len() as int) =~= pm);
                    assert(pm.map_values(|p: ParamModel| p.id).take(pm.len() as int) =~= pm
                        .map_values(|p: ParamModel| p.id));
                    assert(names@.map_values(|s2: String| s2@) =~= pm.map_values(
                        |p: ParamModel| p.name,
                    ));
                    assert(defaults@.map_values(|s2: String| s2@) =~= pm.map_values(
                        |p: ParamModel| default_of(p.ty),
                    ));
                }
                let ghost fsig_m = crate::symbols::FuncModel { name: name@, params: pm };
                proof {
                    crate::lowering::lemma_params_preserve(args@, proto_id, st4_g);
                }
                match self.funcs.insert(FuncSig { name: name.clone(), params }) {
                    Result::Ok(()) => {},
                    Result::Err(_) => {
                        // Unreachable: the duplicate check above ran on the
                        // same table, which nothing since has touched.
                        proof {
                            assert(false);
                        }
                        return Result::Err(CompileError::Shape(ShapeError::Unsupported));
                    },
                }
                let def_next = if body.len() > 0 {
                    Option::Some(self.alloc.peek())
                } else {
                    Option::None
                };
                let mut def_inputs: Vec<(InputKey, InputValue)> = Vec::new();
                def_inputs.push((InputKey::CustomBlock, InputValue::ShadowNode(proto_id)));
                let def_node = Block {
                    opcode: Opcode::ProceduresDefinition,
                    next: def_next,
                    parent: Option::None,
                    inputs: def_inputs,
                    fields: Option::None,
                    shadow: false,
                    top_level: true,
                    mutation: Option::None,
                };
                proof {
                    assert(def_node@ =~~= NodeModel {
                        next: def_next,
                        inputs: seq![
                            (
                                InputKey::CustomBlock,
                                crate::project::InputValueModel::ShadowNode(proto_id),
                            ),
                        ],
                        top_level: true,
                        ..crate::lowering::plain_node(
                            Opcode::ProceduresDefinition,
                            Option::None,
                        )
                    });
                }
                self.push_block(def_id, def_node);
                let ghost pi_m = proto_inputs@.map_values(
                    |p: (InputKey, InputValue)| (p.0, p.1@),
                );
                let proto_node = Block {
                    opcode: Opcode::ProceduresPrototype,
                    next: Option::None,
                    parent: Option::Some(def_id),
                    inputs: proto_inputs,
                    fields: Option::None,
                    shadow: true,
                    top_level: false,
                    mutation: Option::Some(
                        Mutation {
                            hasnext: Option::None,
                            proccode: Option::Some(pc),
                            argumentids: Option::Some(ids),
                            argumentnames: Option::Some(names),
                            argumentdefaults: Option::Some(defaults),
                            warp: Option::Some(false),
                        },
                    ),
                };
                proof {
                    assert(proto_node@ =~~= NodeModel {
                        inputs: pi_m,
                        shadow: true,
                        mutation: Option::Some(
                            crate::project::MutationModel {
                                hasnext: Option::None,
                                proccode: Option::Some(proccode_of(name@, pm)),
                                argumentids: Option::Some(
                                    pm.map_values(|p: ParamModel| p.id),
                                ),
                                argumentnames: Option::Some(
                                    pm.map_values(|p: ParamModel| p.name),
                                ),
                                argumentdefaults: Option::Some(
                                    pm.map_values(|p: ParamModel| default_of(p.ty)),
                                ),
                                warp: Option::Some(false),
                            },
                        ),
                        ..crate::lowering::plain_node(
                            Opcode::ProceduresPrototype,
                            Option::Some(def_id),
                        )
                    });
                }
                self.push_block(proto_id, proto_node);
                let ghost pre_append = self@;
                let ghost blks_m = view_blocks(arg_blks@);
                let mut arg_blks_v = arg_blks;
                self.blocks.append(&mut arg_blks_v);
                proof {
                    assert(view_blocks(self.blocks@) =~= pre_append.blocks + blks_m);
                    assert(self@ =~~= St { blocks: pre_append.blocks + blks_m, ..pre_append });
                }
                self.lower_body(body, def_id, &rv)
            },
            _ => Result::Err(CompileError::Shape(ShapeError::Unsupported)),
        }
    }

    /// Lower every top-level statement from position `i` on.
    pub fn lower_tops_from(&mut self, ss: &Vec<Stmt>, i: usize) -> (r: Result<(), CompileError>)
        requires
            i <= ss@.len(),
        ensures
            match lower_tops_m(ss@.skip(i as int), old(self)@) {
                Result::Ok(st2) => r is Ok && final(self)@ == st2,
                Result::Err(em) => r is Err && r->Err_0@ == em,
            },
        decreases body_size(ss@.skip(i as int)), 10int,
    {
        proof {
            assert(ss@.skip(i as int).len() == ss@.len() - i);
        }
        if i == ss.len() {
            return Result::Ok(());
        }
        proof {
            assert(ss@.skip(i as int)[0] == ss@[i as int]);
            assert(ss@.skip(i as int).drop_first() =~= ss@.skip(i as int + 1));
        }
        match self.lower_top(&ss[i]) {
            Result::Ok(()) => self.lower_tops_from(ss, i + 1),
            Result::Err(er) => Result::Err(er),
        }
    }
}

/// The target a manifest entry yields before any statement is lowered:
/// name, stage flag and content-addressed costume records.
pub open spec fn base_target_m(meta: TargetData) -> TargetModel {
    TargetModel {
        is_stage: meta.is_stage,
        name: meta.name@,
        variables: Seq::empty(),
        lists: Seq::empty(),
        broadcasts: Seq::empty(),
        blocks: Seq::empty(),
        comments: Seq::empty(),
        current_costume: Option::None,
        costumes: meta.costumes@.map_values(|a: AssetData| costume_of(a@)),
        sounds: Seq::empty(),
        layer_order: Option::None,
        volume: Option::None,
    }
}

/// The outcome of compiling one target: its graph and variables when
/// the lowering succeeds, its bare metadata and the error otherwise.
pub open spec fn compile_target_m(meta: TargetData, ast: Vec<Stmt>) -> (
    TargetModel,
    Option<crate::error::CompileErrorModel>,
) {
    let base = base_target_m(meta);
    match lower_tops_m(ast@, crate::lowering::st_init()) {
        Result::Ok(st) => (
            TargetModel { variables: st.vars, blocks: st.blocks, ..base },
            Option::None,
        ),
        Result::Err(e) => (base, Option::Some(e)),
    }
}

/// The targets of a whole compilation, in order.
pub open spec fn targets_m(ts: Seq<(TargetData, Vec<Stmt>)>) -> Seq<TargetModel> {
    ts.map_values(|t: (TargetData, Vec<Stmt>)| compile_target_m(t.0, t.1).0)
}

/// The accumulated per-target errors of a whole compilation, each with
/// the index of the target it arose in.
pub open spec fn errors_m(ts: Seq<(TargetData, Vec<Stmt>)>) -> Seq<
    (int, crate::error::CompileErrorModel),
>
    decreases ts.len(),
{
    if ts.len() == 0 {
        Seq::empty()
    } else {
        let rest = errors_m(ts.drop_last());
        match compile_target_m(ts.last().0, ts.last().1).1 {
            Option::Some(e) => rest.push((ts.len() - 1, e)),
            Option::None => rest,
        }
    }
}

/// The project a whole compilation produces.
pub open spec fn compile_project_m(ts: Seq<(TargetData, Vec<Stmt>)>) -> ProjectModel {
    ProjectModel {
        targets: targets_m(ts),
        monitors: Seq::empty(),
        extensions: Seq::empty(),
        meta: crate::project::meta_model(),
    }
}

/// The result of a compilation: the project, and every error that was
/// recorded, paired with the index of the target it arose in. Targets
/// whose lowering failed keep their metadata and costumes but carry no
/// graph.
pub struct CompileOutput {
    pub project: Project,
    pub errors: Vec<(usize, CompileError)>,
}

/// The compiler driver: it owns the parsed targets and lowers each in
/// turn with a fresh allocator and fresh symbol tables, accumulating
/// errors per target rather than stopping at the first.
pub struct Compiler {
    pub targets: Vec<(TargetData, Vec<Stmt>)>,
}

impl Compiler {
    /// A compiler over the given targets.
    pub fn new(targets: Vec<(TargetData, Vec<Stmt>)>) -> (c: Compiler)
        ensures
            c.targets == targets,
    {
        Compiler { targets }
    }

    /// Compile every target. The whole result is a mathematical
    /// function of the targets: the project equals the specified
    /// compilation, and the error list records exactly the targets
    /// whose lowering failed.
    pub fn compile(&self) -> (r: CompileOutput)
        ensures
            r.project@ == compile_project_m(self.targets@),
            r.errors@.map_values(|p: (usize, CompileError)| (p.0 as int, p.1@)) == errors_m(
                self.targets@,
            ),
    {
        let mut project = Project::new();
        let mut errors: Vec<(usize, CompileError)> = Vec::new();
        let mut i: usize = 0;
        proof {
            assert(self.targets@.take(0) =~= Seq::<(TargetData, Vec<Stmt>)>::empty());
            assert(targets_m(self.targets@.take(0)) =~= Seq::<TargetModel>::empty());
            assert(errors@.map_values(|p: (usize, CompileError)| (p.0 as int, p.1@)) =~= Seq::<
                (int, crate::error::CompileErrorModel),
            >::empty());
            assert(project@ =~~= (ProjectModel {
                targets: targets_m(self.targets@.take(0)),
                ..crate::project::project_new_model()
            }));
        }
        while i < self.targets.len()
            invariant
                i <= self.targets@.len(),
                project@ == (ProjectModel {
                    targets: targets_m(self.targets@.take(i as int)),
                    ..crate::project::project_new_model()
                }),
                errors@.map_values(|p: (usize, CompileError)| (p.0 as int, p.1@)) == errors_m(
                    self.targets@.take(i as int),
                ),
            decreases self.targets@.len() - i,
        {
            let meta = &self.targets[i].0;
            let ast = &self.targets[i].1;
            let ghost pair = self.targets@[i as int];
            let mut costumes: Vec<Costume> = Vec::new();
            let mut j: usize = 0;
            while j < meta.costumes.len()
                invariant
                    j <= meta.costumes@.len(),
                    i < self.targets@.len(),
                    meta == &self.targets@[i as int].0,
                    costumes@.len() == j,
                    forall|k: int|
                        0 <= k < j ==> (#[trigger] costumes@[k])@ == costume_of(
                            meta.costumes@[k]@,
                        ),
                decreases meta.costumes@.len() - j,
            {
                let c = costume_record(&meta.costumes[j]);
                costumes.push(c);
                j = j + 1;
            }
            proof {
                assert(costumes@.map_values(|c2: Costume| c2@) =~= meta.costumes@.map_values(
                    |a: AssetData| costume_of(a@),
                ));
            }
            let mut tgt = Target {
                is_stage: meta.is_stage,
                name: meta.name.clone(),
                variables: Vec::new(),
                lists: Vec::new(),
                broadcasts: Vec::new(),
                blocks: Vec::new(),
                comments: Vec::new(),
                current_costume: Option::None,
                costumes,
                sounds: Vec::new(),
                layer_order: Option::None,
                volume: Option::None,
            };
            proof {
                assert(tgt@ =~~= base_target_m(pair.0));
            }
            let mut low = Lowerer::new();
            proof {
                assert(ast@.skip(0) =~= ast@);
            }
            match low.lower_tops_from(ast, 0) {
                Result::Ok(()) => {
                    let lvars = low.vars;
                    let lblocks = low.blocks;
                    tgt.variables = lvars;
                    tgt.blocks = lblocks;
                    proof {
                        assert(tgt@ =~~= compile_target_m(pair.0, pair.1).0);
                    }
                },
                Result::Err(e) => {
                    let ghost em = e@;
                    errors.push((i, e));
                    proof {
                        assert(errors@.map_values(|p: (usize, CompileError)| (p.0 as int, p.1@))
                            =~= errors_m(self.targets@.take(i as int)).push((i as int, em)));
                        assert(tgt@ =~~= compile_target_m(pair.0, pair.1).0);
                    }
                },
            }
            let ghost tgt_m = tgt@;
            project.targets.push(tgt);
            proof {
                let pref1 = self.targets@.take(i as int + 1);
                assert(pref1.drop_last() =~= self.targets@.take(i as int));
                assert(pref1.last() == pair);
                assert(targets_m(pref1) =~= targets_m(self.targets@.take(i as int)).push(
                    compile_target_m(pair.0, pair.1).0,
                ));
                assert(project@ =~~= (ProjectModel {
                    targets: targets_m(pref1),
                    ..crate::project::project_new_model()
                }));
            }
            i = i + 1;
        }
        proof {
            assert(self.targets@.take(self.targets@.len() as int) =~= self.targets@);
        }
        CompileOutput { project, errors }
    }
}

} // verus!
