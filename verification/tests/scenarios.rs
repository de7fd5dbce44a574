//! End-to-end scenarios: source text through the lexer, parser and
//! code generator, checked against the expected graph shapes.

use scuff::compiler::Compiler;
use scuff::error::CompileError;
use scuff::lexer::Lexer;
use scuff::makefile::TargetData;
use scuff::parser::Parser;
use scuff::project::{Block, InputKey, InputValue, Literal, Opcode, Target};

fn compile_single(src: &str) -> (Target, Vec<(usize, CompileError)>) {
    let mut lx = Lexer::new(&src.to_string());
    let toks = lx.lex().expect("lexing failed");
    let mut p = Parser::new(toks);
    let ast = p.parse().expect("parsing failed");
    let meta = TargetData {
        name: "Stage".to_string(),
        is_stage: true,
        script: src.to_string(),
        costumes: vec![],
        sounds: vec![],
    };
    let c = Compiler::new(vec![(meta, ast)]);
    let out = c.compile();
    let mut targets = out.project.targets;
    (targets.remove(0), out.errors)
}

fn block(t: &Target, id: u64) -> &Block {
    for (bid, b) in t.blocks.iter() {
        if *bid == id {
            return b;
        }
    }
    panic!("no block with id {}", id);
}

fn find_by_opcode(t: &Target, op: Opcode) -> (u64, &Block) {
    for (bid, b) in t.blocks.iter() {
        if b.opcode == op {
            return (*bid, b);
        }
    }
    panic!("no block with that opcode");
}

#[test]
fn flag_triggered_say() {
    let (t, errors) = compile_single("event flag_clicked() { say(\"hi\"); }");
    assert!(errors.is_empty());
    assert_eq!(t.blocks.len(), 2);
    let (hat_id, hat) = find_by_opcode(&t, Opcode::EventWhenFlagClicked);
    assert!(hat.top_level);
    assert_eq!(hat.parent, None);
    let say_id = hat.next.expect("hat must chain to the say node");
    let say = block(&t, say_id);
    assert_eq!(say.opcode, Opcode::LooksSay);
    assert_eq!(say.parent, Some(hat_id));
    assert_eq!(say.next, None);
    assert_eq!(
        say.inputs,
        vec![(InputKey::Message, InputValue::Literal(Literal::Str("hi".to_string())))]
    );
}

#[test]
fn two_argument_function() {
    let (t, errors) = compile_single(
        "function add(a: number, b: number) -> number { return (a + b); }\n\
         event flag_clicked() { add(1, 2); }",
    );
    assert!(errors.is_empty());
    let (_pid, proto) = find_by_opcode(&t, Opcode::ProceduresPrototype);
    let pm = proto.mutation.as_ref().expect("prototype mutation");
    assert_eq!(pm.proccode.as_ref().unwrap(), "add %s %s");
    let ids = pm.argumentids.as_ref().unwrap().clone();
    assert_eq!(ids.len(), 2);
    assert_ne!(ids[0], ids[1]);
    assert_eq!(
        pm.argumentnames.as_ref().unwrap(),
        &vec!["a".to_string(), "b".to_string()]
    );
    assert_eq!(
        pm.argumentdefaults.as_ref().unwrap(),
        &vec!["".to_string(), "".to_string()]
    );
    // The call site resolves the same argument ids from the signature
    // table, never recomputed.
    let (_cid, call) = find_by_opcode(&t, Opcode::ProceduresCall);
    let cm = call.mutation.as_ref().expect("call mutation");
    assert_eq!(cm.proccode.as_ref().unwrap(), "add %s %s");
    assert_eq!(cm.argumentids.as_ref().unwrap(), &ids);
    assert_eq!(cm.argumentnames, None);
    let keys: Vec<InputKey> = call.inputs.iter().map(|p| p.0).collect();
    assert_eq!(keys, vec![InputKey::Arg(ids[0]), InputKey::Arg(ids[1])]);
}

#[test]
fn if_else_branch_ids() {
    let (t, errors) = compile_single(
        "event flag_clicked() {\n\
           let x: number = 0;\n\
           let y: number = 0;\n\
           if (x == 1) { y = 1; } else { y = 2; }\n\
         }",
    );
    assert!(errors.is_empty());
    let (if_id, if_node) = find_by_opcode(&t, Opcode::ControlIfElse);
    let mut cond = None;
    let mut sub1 = None;
    let mut sub2 = None;
    for (k, v) in if_node.inputs.iter() {
        match (k, v) {
            (InputKey::Condition, InputValue::BareNode(n)) => cond = Some(*n),
            (InputKey::Substack, InputValue::BareNode(n)) => sub1 = Some(*n),
            (InputKey::Substack2, InputValue::BareNode(n)) => sub2 = Some(*n),
            _ => {}
        }
    }
    let cond_node = block(&t, cond.expect("condition input"));
    assert_eq!(cond_node.opcode, Opcode::OperatorEquals);
    assert_eq!(cond_node.parent, Some(if_id));
    let b1 = block(&t, sub1.expect("true branch input"));
    let b2 = block(&t, sub2.expect("false branch input"));
    assert_eq!(b1.opcode, Opcode::DataSetVariableTo);
    assert_eq!(b2.opcode, Opcode::DataSetVariableTo);
    assert_eq!(b1.parent, Some(if_id));
    assert_eq!(b2.parent, Some(if_id));
    assert_eq!(
        b1.inputs,
        vec![(InputKey::Value, InputValue::Literal(Literal::Num("1".to_string())))]
    );
    assert_eq!(
        b2.inputs,
        vec![(InputKey::Value, InputValue::Literal(Literal::Num("2".to_string())))]
    );
}

#[test]
fn while_loop_shape() {
    let (t, errors) = compile_single(
        "event flag_clicked() { let x: number = 0; while (x == 0) { x = 1; } }",
    );
    assert!(errors.is_empty());
    let (w_id, w) = find_by_opcode(&t, Opcode::ControlWhile);
    let mut cond = None;
    let mut sub = None;
    for (k, v) in w.inputs.iter() {
        match (k, v) {
            (InputKey::Condition, InputValue::BareNode(n)) => cond = Some(*n),
            (InputKey::Substack, InputValue::BareNode(n)) => sub = Some(*n),
            _ => {}
        }
    }
    assert_eq!(block(&t, cond.unwrap()).parent, Some(w_id));
    assert_eq!(block(&t, sub.unwrap()).parent, Some(w_id));
    assert_eq!(w.next, None);
}

#[test]
fn body_chain_next_pointers() {
    let (t, errors) = compile_single(
        "event flag_clicked() { say(\"a\"); say(\"b\"); say(\"c\"); }",
    );
    assert!(errors.is_empty());
    let (_hid, hat) = find_by_opcode(&t, Opcode::EventWhenFlagClicked);
    let a_id = hat.next.unwrap();
    let a = block(&t, a_id);
    let b_id = a.next.unwrap();
    let b = block(&t, b_id);
    let c_id = b.next.unwrap();
    let c = block(&t, c_id);
    assert_eq!(c.next, None);
    assert_eq!(t.blocks.len(), 4);
    let ids: Vec<u64> = t.blocks.iter().map(|p| p.0).collect();
    let mut sorted = ids.clone();
    sorted.sort();
    sorted.dedup();
    assert_eq!(sorted.len(), ids.len(), "node ids are unique in a target");
}

#[test]
fn not_equal_desugars_to_not_of_equals() {
    let (t, errors) = compile_single(
        "event flag_clicked() { let x: number = 0; if (x != 1) { x = 2; } }",
    );
    assert!(errors.is_empty());
    let (not_id, not_node) = find_by_opcode(&t, Opcode::OperatorNot);
    match &not_node.inputs[..] {
        [(InputKey::Operand, InputValue::BareNode(eq_id))] => {
            let eq = block(&t, *eq_id);
            assert_eq!(eq.opcode, Opcode::OperatorEquals);
            assert_eq!(eq.parent, Some(not_id));
        }
        other => panic!("unexpected not inputs: {:?}", other),
    }
}

#[test]
fn compound_assignment_desugars() {
    let (t, errors) = compile_single(
        "event flag_clicked() { let x: number = 0; x += 2; }",
    );
    assert!(errors.is_empty());
    let (add_id, add) = find_by_opcode(&t, Opcode::OperatorAdd);
    match &add.inputs[..] {
        [(InputKey::Num1, InputValue::VarRef(name, _)), (InputKey::Num2, InputValue::Literal(Literal::Num(v)))] => {
            assert_eq!(name, "x");
            assert_eq!(v, "2");
        }
        other => panic!("unexpected operands: {:?}", other),
    }
    let mut found = false;
    for (_, b) in t.blocks.iter() {
        if b.opcode == Opcode::DataSetVariableTo
            && b.inputs == vec![(InputKey::Value, InputValue::NodeRef(add_id))]
        {
            found = true;
        }
    }
    assert!(found, "the compound assignment stores the operator node's value");
}

#[test]
fn call_as_value_chains_before_store() {
    let (t, errors) = compile_single(
        "function two() -> number { return 2; }\n\
         event flag_clicked() { let r: number = two(); }",
    );
    assert!(errors.is_empty());
    let (call_id, call) = find_by_opcode(&t, Opcode::ProceduresCall);
    let store_id = call.next.expect("call chains into the store");
    let store = block(&t, store_id);
    assert_eq!(store.opcode, Opcode::DataSetVariableTo);
    match &store.inputs[..] {
        [(InputKey::Value, InputValue::VarRef(name, _))] => {
            assert_eq!(name, "!func_var_two");
        }
        other => panic!("unexpected store inputs: {:?}", other),
    }
    assert!(call_id < store_id);
}

#[test]
fn relowering_is_identical() {
    let src = "function add(a: number, b: number) -> number { return (a + b); }\n\
               event flag_clicked() { add(1, 2); say(\"done\"); }";
    let (t1, e1) = compile_single(src);
    let (t2, e2) = compile_single(src);
    assert_eq!(t1, t2);
    assert_eq!(e1.len(), e2.len());
}

#[test]
fn argument_reporter_for_unknown_name() {
    let (t, errors) = compile_single(
        "function show(msg: string) -> void { say(msg); }",
    );
    assert!(errors.is_empty());
    let (say_id, say) = find_by_opcode(&t, Opcode::LooksSay);
    match &say.inputs[..] {
        [(InputKey::Message, InputValue::NodeRef(rid))] => {
            let rep = block(&t, *rid);
            assert_eq!(rep.opcode, Opcode::ArgumentReporterStringNumber);
            assert_eq!(rep.parent, Some(say_id));
            assert!(!rep.shadow);
        }
        other => panic!("unexpected say inputs: {:?}", other),
    }
}

#[test]
fn return_emits_store_and_stop() {
    let (t, errors) = compile_single("function one() -> number { return 1; }");
    assert!(errors.is_empty());
    let (_sid, store) = find_by_opcode(&t, Opcode::DataSetVariableTo);
    let stop_id = store.next.expect("store chains into the terminator");
    let stop = block(&t, stop_id);
    assert_eq!(stop.opcode, Opcode::ControlStop);
    assert_eq!(stop.next, None);
    let sm = stop.mutation.as_ref().unwrap();
    assert_eq!(sm.hasnext, Some(false));
}
