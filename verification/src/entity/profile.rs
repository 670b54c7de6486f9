use crate::ids::ProfileId;
use vstd::prelude::*;

verus! {

/// A persona: a display name that no other profile has, a description and
/// an optional picture.
#[derive(Debug, PartialEq, Eq)]
pub struct Model {
    pub id: ProfileId,
    pub name: String,
    pub desc: String,
    pub picture: Option<Vec<u8>>,
}

/// A profile row as a mathematical value.
pub struct ModelView {
    pub id: ProfileId,
    pub name: Seq<char>,
    pub desc: Seq<char>,
    pub picture: Option<Seq<u8>>,
}

impl View for Model {
    type V = ModelView;

    open spec fn view(&self) -> ModelView {
        ModelView {
            id: self.id,
            name: self.name@,
            desc: self.desc@,
            picture: match self.picture {
                Some(bytes) => Some(bytes@),
                None => None,
            },
        }
    }
}

impl Clone for Model {
    fn clone(&self) -> (r: Model)
        ensures
            r@ == self@,
    {
        let picture = match &self.picture {
            Some(bytes) => Some(bytes.clone()),
            None => None,
        };
        Model { id: self.id, name: self.name.clone(), desc: self.desc.clone(), picture }
    }
}

} // verus!
