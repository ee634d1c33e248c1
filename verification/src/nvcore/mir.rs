//! The engine's state: the project, its entities, and the managers of
//! requests and actions.
use vstd::prelude::*;
use crate::nvcore::Project;
use crate::nvcore::ecs::{Entman, Id};
use crate::nvcore::action::{Actman, Reqman};

verus! {

/// The state of the engine.
pub struct Mir {
    pub proj: Project,
    pub em: Entman,
    reqman: Reqman,
    actman: Actman,
}

impl Mir {
    pub closed spec fn spec_proj(self) -> Project {
        self.proj
    }

    pub closed spec fn spec_em(self) -> Entman {
        self.em
    }

    /// The actions registered so far.
    pub closed spec fn spec_actman(self) -> Actman {
        self.actman
    }

    /// An empty project, no entities, and no actions.
    pub fn new() -> (r: Self)
        ensures
            r.spec_em().wf(),
            r.spec_em().spec_entities() == Map::<Id, crate::nvcore::ecs::Entity>::empty(),
            r.spec_proj().description@ == Seq::<char>::empty(),
            r.spec_proj().project_meta_data.spec_name() == Seq::<char>::empty(),
            r.spec_actman().spec_actions().len() == 0,
            r.spec_actman().spec_cursor() == -1,
    {
        Mir { proj: Project::new_empty(), em: Entman::new(), reqman: Reqman::new(), actman: Actman::new() }
    }

    /// Names and describes the project; nothing else changes.
    pub fn create_project(&mut self, name: String, desc: String)
        ensures
            final(self).spec_proj().project_meta_data.spec_name() == name@,
            final(self).spec_proj().project_meta_data.spec_author() == old(self).spec_proj().project_meta_data.spec_author(),
            final(self).spec_proj().project_meta_data.spec_description() == old(self).spec_proj().project_meta_data.spec_description(),
            final(self).spec_proj().project_meta_data.spec_version() == old(self).spec_proj().project_meta_data.spec_version(),
            final(self).spec_proj().description@ == desc@,
            final(self).spec_proj().id == old(self).spec_proj().id,
            final(self).spec_em() == old(self).spec_em(),
            final(self).spec_actman() == old(self).spec_actman(),
    {
        self.proj.project_meta_data.set_name(name);
        self.proj.description = desc;
    }
}

} // verus!
