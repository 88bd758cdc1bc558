//! A named model for adjusting signal strength, which is usable once loaded.
use vstd::prelude::*;

verus! {

/// A model placeholder: it has a name and records whether it was loaded.
#[derive(Debug, Clone)]
pub struct MlModel {
    /// Model name for logging.
    name: String,
    /// Whether the model is loaded and ready for inference.
    loaded: bool,
}

/// Why a model could not be loaded.
#[derive(Debug, Clone)]
pub struct ModelError {
    pub reason: String,
}

impl MlModel {
    /// The model's name.
    pub closed spec fn name_view(&self) -> Seq<char> {
        self.name@
    }

    /// Whether the model is loaded.
    pub closed spec fn loaded_view(&self) -> bool {
        self.loaded
    }

    /// A new model with the given name, not yet loaded.
    pub fn new(name: &str) -> (r: Self)
        ensures
            r.name_view() == name@,
            !r.loaded_view(),
    {
        MlModel { name: String::from_str(name), loaded: false }
    }

    /// Loads the model from `path`. No model file is read yet: loading
    /// always succeeds and marks the model as loaded.
    pub fn load(&mut self, path: &str) -> (r: Result<(), ModelError>)
        ensures
            r is Ok,
            final(self).loaded_view(),
            final(self).name_view() == old(self).name_view(),
    {
        self.loaded = true;
        Ok(())
    }

    /// Whether the model is loaded.
    pub fn is_loaded(&self) -> (r: bool)
        ensures
            r == self.loaded_view(),
    {
        self.loaded
    }

    /// The model's name.
    pub fn name(&self) -> (r: &str)
        ensures
            r@ == self.name_view(),
    {
        self.name.as_str()
    }
}

impl Default for MlModel {
    /// A model named "default", not loaded.
    fn default() -> (r: Self)
        ensures
            r.name_view() == "default"@,
            !r.loaded_view(),
    {
        MlModel::new("default")
    }
}

} // verus!
