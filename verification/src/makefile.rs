//! The project manifest data handed to the compiler: per-target
//! metadata with script text and asset bytes. Reading the manifest and
//! the asset files from disk is the loader's work and happens outside
//! this crate; the types here carry the loaded values.

use vstd::prelude::*;

verus! {

/// A runtime extension a project may enable.
#[derive(Debug, Clone, Copy, PartialEq, Eq, Structural)]
pub enum Extension {
    Pen,
    Music,
    VideoSensing,
    Text2Speech,
    Translate,
    Makeymakey,
    Microbit,
    EV3,
    Boost,
    Wedo2,
    Gdxfor,
}

/// One loaded asset: its display name, its source path, and its bytes.
#[derive(Debug, Clone, PartialEq)]
pub struct AssetData {
    pub name: String,
    pub path: String,
    pub content: Vec<u8>,
}

/// One target to compile: its name, whether it is the stage, its
/// script text, and its assets.
#[derive(Debug, Clone, PartialEq)]
pub struct TargetData {
    pub name: String,
    pub is_stage: bool,
    pub script: String,
    pub costumes: Vec<AssetData>,
    pub sounds: Vec<AssetData>,
}

/// A loaded manifest: the project name and every target, stages first.
#[derive(Debug, PartialEq)]
pub struct MakefileData {
    pub project_name: String,
    pub targets: Vec<TargetData>,
    pub extensions: Vec<Extension>,
}

#[verifier::ext_equal]
pub ghost struct AssetModel {
    pub name: Seq<char>,
    pub path: Seq<char>,
    pub content: Seq<u8>,
}

#[verifier::ext_equal]
pub ghost struct TargetDataModel {
    pub name: Seq<char>,
    pub is_stage: bool,
    pub script: Seq<char>,
    pub costumes: Seq<AssetModel>,
    pub sounds: Seq<AssetModel>,
}

impl View for AssetData {
    type V = AssetModel;

    open spec fn view(&self) -> AssetModel {
        AssetModel { name: self.name@, path: self.path@, content: self.content@ }
    }
}

impl View for TargetData {
    type V = TargetDataModel;

    open spec fn view(&self) -> TargetDataModel {
        TargetDataModel {
            name: self.name@,
            is_stage: self.is_stage,
            script: self.script@,
            costumes: self.costumes@.map_values(|a: AssetData| a@),
            sounds: self.sounds@.map_values(|a: AssetData| a@),
        }
    }
}

/// The joined path of a project directory and a file path: the file
/// path itself when it is absolute, else the directory, a separator
/// and the file path.
pub open spec fn path_join(project_path: Seq<char>, file_path: Seq<char>) -> Seq<char> {
    if file_path.len() > 0 && file_path[0] == '/' {
        file_path
    } else {
        project_path + seq!['/'] + file_path
    }
}

impl MakefileData {
    /// Join a project directory and a path relative to it.
    pub fn get_path(project_path: &str, file_path: &str) -> (r: String)
        ensures
            r@ == path_join(project_path@, file_path@),
    {
        if file_path.unicode_len() > 0 && file_path.get_char(0) == '/' {
            String::from_str(file_path)
        } else {
            let mut r = String::from_str(project_path);
            r.append("/");
            r.append(file_path);
            proof {
                reveal_strlit("/");
                assert(r@ =~= project_path@ + seq!['/'] + file_path@);
            }
            r
        }
    }

    /// Assemble a manifest from its loaded sections: stages come
    /// first, marked as stage; sprites follow, marked as non-stage.
    pub fn assemble(
        project_name: String,
        stages: Vec<TargetData>,
        sprites: Vec<TargetData>,
        extensions: Vec<Extension>,
    ) -> (r: MakefileData)
        ensures
            r.project_name == project_name,
            r.extensions == extensions,
            r.targets@.len() == stages@.len() + sprites@.len(),
            forall|i: int|
                0 <= i < stages@.len() ==> r.targets@[i]@ == (TargetDataModel {
                    is_stage: true,
                    ..stages@[i]@
                }),
            forall|i: int|
                0 <= i < sprites@.len() ==> #[trigger] sprites@[i]@ == sprites@[i]@
                    && r.targets@[stages@.len() + i]@ == (TargetDataModel {
                    is_stage: false,
                    ..sprites@[i]@
                }),
    {
        let mut targets: Vec<TargetData> = Vec::new();
        let mut stages_v = stages;
        let mut sprites_v = sprites;
        let ghost stages_g = stages_v@;
        let ghost sprites_g = sprites_v@;
        proof {
            assert(stages_v@ =~= stages_g.skip(0));
        }
        while stages_v.len() > 0
            invariant
                targets@.len() <= stages_g.len(),
                stages_v@ == stages_g.skip(targets@.len() as int),
                forall|k: int|
                    0 <= k < targets@.len() ==> targets@[k]@ == (TargetDataModel {
                        is_stage: true,
                        ..stages_g[k]@
                    }),
            decreases stages_v@.len(),
        {
            let ghost k = targets@.len() as int;
            let mut t = stages_v.remove(0);
            proof {
                assert(t == stages_g.skip(k)[0]);
                assert(stages_g.skip(k)[0] == stages_g[k]);
                assert(stages_v@ =~= stages_g.skip(k + 1));
            }
            t.is_stage = true;
            let ghost tv = t@;
            targets.push(t);
            proof {
                assert(tv =~~= TargetDataModel { is_stage: true, ..stages_g[k]@ });
            }
        }
        proof {
            assert(sprites_v@ =~= sprites_g.skip(0));
        }
        while sprites_v.len() > 0
            invariant
                targets@.len() >= stages_g.len(),
                targets@.len() - stages_g.len() <= sprites_g.len(),
                sprites_v@ == sprites_g.skip(targets@.len() - stages_g.len()),
                forall|k: int|
                    0 <= k < stages_g.len() ==> targets@[k]@ == (TargetDataModel {
                        is_stage: true,
                        ..stages_g[k]@
                    }),
                forall|k: int|
                    0 <= k < targets@.len() - stages_g.len() ==> #[trigger] sprites_g[k]@
                        == sprites_g[k]@ && targets@[stages_g.len() + k]@ == (TargetDataModel {
                        is_stage: false,
                        ..sprites_g[k]@
                    }),
            decreases sprites_v@.len(),
        {
            let ghost k = targets@.len() - stages_g.len();
            let mut t = sprites_v.remove(0);
            proof {
                assert(t == sprites_g.skip(k)[0]);
                assert(sprites_g.skip(k)[0] == sprites_g[k]);
                assert(sprites_v@ =~= sprites_g.skip(k + 1));
            }
            t.is_stage = false;
            let ghost tv = t@;
            targets.push(t);
            proof {
                assert(tv =~~= TargetDataModel { is_stage: false, ..sprites_g[k]@ });
            }
        }
        MakefileData { project_name, targets, extensions }
    }
}

} // verus!
