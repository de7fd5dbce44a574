//! The compiled program representation: a list of targets, each holding a
//! graph of opcode-tagged nodes ("blocks") keyed by allocator-issued ids.
//!
//! Each executable type has a ghost model (`...Model`) reached through its
//! view; the code generator's contracts are stated over these models.

use vstd::prelude::*;

verus! {

/// The operation tag of a node.
#[derive(Debug, Clone, Copy, PartialEq, Eq, Structural)]
pub enum Opcode {
    EventWhenFlagClicked,
    LooksSay,
    DataSetVariableTo,
    ControlIf,
    ControlIfElse,
    ControlWhile,
    ControlStop,
    OperatorAdd,
    OperatorSubtract,
    OperatorMultiply,
    OperatorDivide,
    OperatorJoin,
    OperatorEquals,
    OperatorNot,
    OperatorAnd,
    OperatorOr,
    ProceduresDefinition,
    ProceduresPrototype,
    ProceduresCall,
    ArgumentReporterStringNumber,
    ArgumentReporterBoolean,
}

/// The name of an input slot of a node.
///
/// A procedure call or prototype keys each argument input by the
/// argument's id rather than by a fixed slot name.
#[derive(Debug, Clone, Copy, PartialEq, Eq, Structural)]
pub enum InputKey {
    Num1,
    Num2,
    String1,
    String2,
    Operand1,
    Operand2,
    Operand,
    Condition,
    Substack,
    Substack2,
    Value,
    Message,
    CustomBlock,
    Arg(u64),
}

/// An inline literal. A numeral keeps its source text.
#[derive(Debug, Clone, PartialEq)]
pub enum Literal {
    Num(String),
    Str(String),
    Bool(bool),
}

/// The tagged value stored in an input slot: an inline literal, a
/// reference to another node (in one of its three wire shadings), or a
/// variable reference carrying the variable's display name and id.
#[derive(Debug, Clone, PartialEq)]
pub enum InputValue {
    Literal(Literal),
    /// A node reference rendered with a shadow tag.
    ShadowNode(u64),
    /// A node reference rendered without a shadow.
    BareNode(u64),
    /// A node reference rendered as an obscured shadow.
    NodeRef(u64),
    VarRef(String, u64),
}

/// The literal/annotation pair stored in a field slot.
#[derive(Debug, Clone, PartialEq)]
pub enum Field {
    /// `VARIABLE`: a variable's display name and id.
    Variable(String, u64),
    /// `VALUE`: a bare name, as on argument reporters.
    Value(String),
    /// `STOP_OPTION`: the fixed "this script" choice.
    StopOption,
}

/// The auxiliary record on procedure-related and terminator nodes.
#[derive(Debug, Clone, PartialEq)]
pub struct Mutation {
    pub hasnext: Option<bool>,
    /// The signature string: the name interleaved with one placeholder
    /// per parameter (`%s` for value-typed, `%b` for boolean-typed).
    pub proccode: Option<String>,
    pub argumentids: Option<Vec<u64>>,
    pub argumentnames: Option<Vec<String>>,
    pub argumentdefaults: Option<Vec<String>>,
    pub warp: Option<bool>,
}

/// One node of the graph.
#[derive(Debug, Clone, PartialEq)]
pub struct Block {
    pub opcode: Opcode,
    /// The sequential-execution pointer; absent iff this node ends its
    /// chain.
    pub next: Option<u64>,
    pub parent: Option<u64>,
    pub inputs: Vec<(InputKey, InputValue)>,
    pub fields: Option<Field>,
    /// True only for synthetic default-value holders.
    pub shadow: bool,
    /// True only for event-handler and procedure-definition entry nodes.
    pub top_level: bool,
    pub mutation: Option<Mutation>,
}

/// A visual asset of a target, identified by the content hash of its
/// bytes.
#[derive(Debug, Clone, PartialEq)]
pub struct Costume {
    pub name: String,
    pub data_format: String,
    pub asset_id: String,
    pub md5ext: String,
    pub rotation_center_x: Option<i32>,
    pub rotation_center_y: Option<i32>,
}

/// A sound asset of a target. The compiler never emits one.
#[derive(Debug, Clone, PartialEq, Eq, Structural)]
pub struct Sound {
    pub rate: i32,
    pub sample_count: i32,
}

/// A free-floating comment of a target. The compiler never emits one.
#[derive(Debug, Clone, PartialEq)]
pub struct Comment {
    pub block_id: String,
    pub x: i32,
    pub y: i32,
    pub width: i32,
    pub height: i32,
    pub minimized: bool,
    pub text: String,
}

/// One stage or sprite: an independent compilation and graph unit.
#[derive(Debug, Clone, PartialEq)]
pub struct Target {
    pub is_stage: bool,
    pub name: String,
    /// Variable id to display name; every variable starts at the
    /// default initial value.
    pub variables: Vec<(u64, String)>,
    pub lists: Vec<(String, Vec<String>)>,
    pub broadcasts: Vec<(String, String)>,
    /// The node arena, in creation order, keyed by allocator-issued ids.
    pub blocks: Vec<(u64, Block)>,
    pub comments: Vec<Comment>,
    pub current_costume: Option<i32>,
    pub costumes: Vec<Costume>,
    pub sounds: Vec<Sound>,
    pub layer_order: Option<i32>,
    pub volume: Option<i32>,
}

/// Static metadata of a compiled project.
#[derive(Debug, Clone, PartialEq)]
pub struct Meta {
    pub semver: String,
    pub vm: String,
    pub agent: String,
}

/// A compiled program: an ordered list of targets plus metadata.
/// Immutable once returned by the compiler.
#[derive(Debug, Clone, PartialEq)]
pub struct Project {
    pub targets: Vec<Target>,
    pub monitors: Vec<String>,
    pub extensions: Vec<String>,
    pub meta: Meta,
}

// ---------------------------------------------------------------------
// Ghost models.
// ---------------------------------------------------------------------

#[verifier::ext_equal]
pub ghost enum LiteralModel {
    Num(Seq<char>),
    Str(Seq<char>),
    Bool(bool),
}

#[verifier::ext_equal]
pub ghost enum InputValueModel {
    Literal(LiteralModel),
    ShadowNode(u64),
    BareNode(u64),
    NodeRef(u64),
    VarRef(Seq<char>, u64),
}

#[verifier::ext_equal]
pub ghost enum FieldModel {
    Variable(Seq<char>, u64),
    Value(Seq<char>),
    StopOption,
}

#[verifier::ext_equal]
pub ghost struct MutationModel {
    pub hasnext: Option<bool>,
    pub proccode: Option<Seq<char>>,
    pub argumentids: Option<Seq<u64>>,
    pub argumentnames: Option<Seq<Seq<char>>>,
    pub argumentdefaults: Option<Seq<Seq<char>>>,
    pub warp: Option<bool>,
}

#[verifier::ext_equal]
pub ghost struct NodeModel {
    pub opcode: Opcode,
    pub next: Option<u64>,
    pub parent: Option<u64>,
    pub inputs: Seq<(InputKey, InputValueModel)>,
    pub fields: Option<FieldModel>,
    pub shadow: bool,
    pub top_level: bool,
    pub mutation: Option<MutationModel>,
}

#[verifier::ext_equal]
pub ghost struct CostumeModel {
    pub name: Seq<char>,
    pub data_format: Seq<char>,
    pub asset_id: Seq<char>,
    pub md5ext: Seq<char>,
    pub rotation_center_x: Option<i32>,
    pub rotation_center_y: Option<i32>,
}

#[verifier::ext_equal]
pub ghost struct TargetModel {
    pub is_stage: bool,
    pub name: Seq<char>,
    pub variables: Seq<(u64, Seq<char>)>,
    pub lists: Seq<(Seq<char>, Seq<Seq<char>>)>,
    pub broadcasts: Seq<(Seq<char>, Seq<char>)>,
    pub blocks: Seq<(u64, NodeModel)>,
    pub comments: Seq<Comment>,
    pub current_costume: Option<i32>,
    pub costumes: Seq<CostumeModel>,
    pub sounds: Seq<Sound>,
    pub layer_order: Option<i32>,
    pub volume: Option<i32>,
}

#[verifier::ext_equal]
pub ghost struct MetaModel {
    pub semver: Seq<char>,
    pub vm: Seq<char>,
    pub agent: Seq<char>,
}

#[verifier::ext_equal]
pub ghost struct ProjectModel {
    pub targets: Seq<TargetModel>,
    pub monitors: Seq<Seq<char>>,
    pub extensions: Seq<Seq<char>>,
    pub meta: MetaModel,
}

// ---------------------------------------------------------------------
// Views.
// ---------------------------------------------------------------------

impl View for Literal {
    type V = LiteralModel;

    open spec fn view(&self) -> LiteralModel {
        match self {
            Literal::Num(s) => LiteralModel::Num(s@),
            Literal::Str(s) => LiteralModel::Str(s@),
            Literal::Bool(b) => LiteralModel::Bool(*b),
        }
    }
}

impl View for InputValue {
    type V = InputValueModel;

    open spec fn view(&self) -> InputValueModel {
        match self {
            InputValue::Literal(l) => InputValueModel::Literal(l@),
            InputValue::ShadowNode(n) => InputValueModel::ShadowNode(*n),
            InputValue::BareNode(n) => InputValueModel::BareNode(*n),
            InputValue::NodeRef(n) => InputValueModel::NodeRef(*n),
            InputValue::VarRef(s, n) => InputValueModel::VarRef(s@, *n),
        }
    }
}

impl View for Field {
    type V = FieldModel;

    open spec fn view(&self) -> FieldModel {
        match self {
            Field::Variable(s, n) => FieldModel::Variable(s@, *n),
            Field::Value(s) => FieldModel::Value(s@),
            Field::StopOption => FieldModel::StopOption,
        }
    }
}

pub open spec fn view_opt_strings(v: Option<Vec<String>>) -> Option<Seq<Seq<char>>> {
    match v {
        Option::Some(x) => Option::Some(x@.map_values(|s: String| s@)),
        Option::None => Option::None,
    }
}

impl View for Mutation {
    type V = MutationModel;

    open spec fn view(&self) -> MutationModel {
        MutationModel {
            hasnext: self.hasnext,
            proccode: match self.proccode {
                Option::Some(s) => Option::Some(s@),
                Option::None => Option::None,
            },
            argumentids: match self.argumentids {
                Option::Some(v) => Option::Some(v@),
                Option::None => Option::None,
            },
            argumentnames: view_opt_strings(self.argumentnames),
            argumentdefaults: view_opt_strings(self.argumentdefaults),
            warp: self.warp,
        }
    }
}

impl View for Block {
    type V = NodeModel;

    open spec fn view(&self) -> NodeModel {
        NodeModel {
            opcode: self.opcode,
            next: self.next,
            parent: self.parent,
            inputs: self.inputs@.map_values(|p: (InputKey, InputValue)| (p.0, p.1@)),
            fields: match self.fields {
                Option::Some(f) => Option::Some(f@),
                Option::None => Option::None,
            },
            shadow: self.shadow,
            top_level: self.top_level,
            mutation: match self.mutation {
                Option::Some(m) => Option::Some(m@),
                Option::None => Option::None,
            },
        }
    }
}

impl View for Costume {
    type V = CostumeModel;

    open spec fn view(&self) -> CostumeModel {
        CostumeModel {
            name: self.name@,
            data_format: self.data_format@,
            asset_id: self.asset_id@,
            md5ext: self.md5ext@,
            rotation_center_x: self.rotation_center_x,
            rotation_center_y: self.rotation_center_y,
        }
    }
}

/// The view of a block arena: each node replaced by its model.
pub open spec fn view_blocks(v: Seq<(u64, Block)>) -> Seq<(u64, NodeModel)> {
    v.map_values(|p: (u64, Block)| (p.0, p.1@))
}

/// The view of a variable list: each name replaced by its view.
pub open spec fn view_vars(v: Seq<(u64, String)>) -> Seq<(u64, Seq<char>)> {
    v.map_values(|p: (u64, String)| (p.0, p.1@))
}

impl View for Target {
    type V = TargetModel;

    open spec fn view(&self) -> TargetModel {
        TargetModel {
            is_stage: self.is_stage,
            name: self.name@,
            variables: view_vars(self.variables@),
            lists: self.lists@.map_values(
                |p: (String, Vec<String>)| (p.0@, p.1@.map_values(|s: String| s@)),
            ),
            broadcasts: self.broadcasts@.map_values(|p: (String, String)| (p.0@, p.1@)),
            blocks: view_blocks(self.blocks@),
            comments: self.comments@,
            current_costume: self.current_costume,
            costumes: self.costumes@.map_values(|c: Costume| c@),
            sounds: self.sounds@,
            layer_order: self.layer_order,
            volume: self.volume,
        }
    }
}

impl View for Meta {
    type V = MetaModel;

    open spec fn view(&self) -> MetaModel {
        MetaModel { semver: self.semver@, vm: self.vm@, agent: self.agent@ }
    }
}

impl View for Project {
    type V = ProjectModel;

    open spec fn view(&self) -> ProjectModel {
        ProjectModel {
            targets: self.targets@.map_values(|t: Target| t@),
            monitors: self.monitors@.map_values(|s: String| s@),
            extensions: self.extensions@.map_values(|s: String| s@),
            meta: self.meta@,
        }
    }
}

// ---------------------------------------------------------------------
// Constructors.
// ---------------------------------------------------------------------

/// The model of the fixed project metadata.
pub open spec fn meta_model() -> MetaModel {
    MetaModel { semver: "3.0.0"@, vm: "0.2.0"@, agent: "scuff"@ }
}

impl Meta {
    /// The fixed metadata every compilation carries.
    pub fn new() -> (m: Meta)
        ensures
            m@ == meta_model(),
    {
        Meta {
            semver: String::from_str("3.0.0"),
            vm: String::from_str("0.2.0"),
            agent: String::from_str("scuff"),
        }
    }
}

/// The model of an empty project.
pub open spec fn project_new_model() -> ProjectModel {
    ProjectModel {
        targets: Seq::empty(),
        monitors: Seq::empty(),
        extensions: Seq::empty(),
        meta: meta_model(),
    }
}

impl Project {
    /// An empty project with the fixed metadata and no targets.
    pub fn new() -> (p: Project)
        ensures
            p@ == project_new_model(),
    {
        let p = Project {
            targets: Vec::new(),
            monitors: Vec::new(),
            extensions: Vec::new(),
            meta: Meta::new(),
        };
        proof {
            assert(p@ =~~= project_new_model());
        }
        p
    }
}

/// The model of the default target: an empty stage named "Stage".
pub open spec fn target_default_model() -> TargetModel {
    TargetModel {
        is_stage: true,
        name: "Stage"@,
        variables: Seq::empty(),
        lists: Seq::empty(),
        broadcasts: Seq::empty(),
        blocks: Seq::empty(),
        comments: Seq::empty(),
        current_costume: Option::None,
        costumes: Seq::empty(),
        sounds: Seq::empty(),
        layer_order: Option::None,
        volume: Option::None,
    }
}

impl Target {
    /// An empty stage target named "Stage".
    pub fn default() -> (t: Target)
        ensures
            t@ == target_default_model(),
    {
        let t = Target {
            is_stage: true,
            name: String::from_str("Stage"),
            variables: Vec::new(),
            lists: Vec::new(),
            broadcasts: Vec::new(),
            blocks: Vec::new(),
            comments: Vec::new(),
            current_costume: Option::None,
            costumes: Vec::new(),
            sounds: Vec::new(),
            layer_order: Option::None,
            volume: Option::None,
        };
        proof {
            assert(t@ =~~= target_default_model());
        }
        t
    }
}

/// The model of the default costume: the stock backdrop.
pub open spec fn costume_default_model() -> CostumeModel {
    CostumeModel {
        name: "backdrop1"@,
        data_format: "svg"@,
        asset_id: "cd21514d0531fdffb22204e0ec5ed84a"@,
        md5ext: "cd21514d0531fdffb22204e0ec5ed84a.svg"@,
        rotation_center_x: Option::None,
        rotation_center_y: Option::None,
    }
}

impl Costume {
    /// The stock backdrop costume.
    pub fn default() -> (c: Costume)
        ensures
            c@ == costume_default_model(),
    {
        Costume {
            name: String::from_str("backdrop1"),
            data_format: String::from_str("svg"),
            asset_id: String::from_str("cd21514d0531fdffb22204e0ec5ed84a"),
            md5ext: String::from_str("cd21514d0531fdffb22204e0ec5ed84a.svg"),
            rotation_center_x: Option::None,
            rotation_center_y: Option::None,
        }
    }
}

} // verus!
