//! The list of models as clients of the gateway are shown it.

use vstd::prelude::*;
use vstd::string::StringExecFns;

verus! {

/// The answer to a request for the models.
#[derive(Debug, PartialEq, Eq)]
pub struct ModelListResponse {
    pub object: String,
    pub data: Vec<Model>,
}

/// One model of the list.
#[derive(Debug, PartialEq, Eq)]
pub struct Model {
    pub id: String,
    pub object: String,
    /// When the entry was made, in seconds since 1970.
    pub created: u64,
    pub owned_by: String,
}

impl Model {
    /// The entry for the model `id` of the owner `owned_by`, made at the
    /// time `created`.
    pub fn new(id: &str, owned_by: &str, created: u64) -> (model: Model)
        ensures
            model.id@ == id@,
            model.object@ == "model"@,
            model.created == created,
            model.owned_by@ == owned_by@,
    {
        Model {
            id: String::from_str(id),
            object: String::from_str("model"),
            created,
            owned_by: String::from_str(owned_by),
        }
    }
}

/// The list of the configured models, in their order, as made at the time
/// `created`. Every model is served by the same inference server, which is
/// named as its owner.
pub fn get_models(models: &Vec<crate::model::Model>, created: u64) -> (list: ModelListResponse)
    ensures
        list.object@ == "list"@,
        list.data@.len() == models@.len(),
        forall|i: int|
            0 <= i < models@.len() ==> {
                let entry = #[trigger] list.data@[i];
                &&& entry.id@ == models@[i].model_name@
                &&& entry.object@ == "model"@
                &&& entry.created == created
                &&& entry.owned_by@ == "llamacpp"@
            },
{
    let mut data: Vec<Model> = Vec::new();
    let mut i: usize = 0;
    while i < models.len()
        invariant
            i <= models@.len(),
            data@.len() == i,
            forall|j: int|
                0 <= j < i ==> {
                    let entry = #[trigger] data@[j];
                    &&& entry.id@ == models@[j].model_name@
                    &&& entry.object@ == "model"@
                    &&& entry.created == created
                    &&& entry.owned_by@ == "llamacpp"@
                },
        decreases models@.len() - i,
    {
        data.push(Model::new(models[i].model_name.as_str(), "llamacpp", created));
        i += 1;
    }
    ModelListResponse { object: String::from_str("list"), data }
}

} // verus!
