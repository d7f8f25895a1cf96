//! The model lifecycle: whether a generator may be handed out, which
//! version tag it carries, and when the artifacts must be downloaded.
//!
//! The state machine moves from unloaded through loading to loaded, and
//! back to unloaded on an explicit unload or a failed load. While a load
//! is in flight no generator is exposed; a caller that finds the state
//! anything but loaded receives a not-ready answer instead of blocking.
//! The downloads and the construction of the numeric session are outside
//! work; this module holds the decisions those steps follow.

use vstd::prelude::*;
use vstd::string::StringExecFns;

use crate::errors::GenerationError;
use crate::models::ModelInfo;

verus! {

/// The three lifecycle states of the model.
pub enum ModelState {
    Unloaded,
    Loading,
    Loaded,
}

/// The authoritative lifecycle instance: the current state, and the
/// version tag of the loaded model while one is loaded.
pub struct ModelLifecycle {
    state: ModelState,
    version: Option<String>,
}

impl ModelLifecycle {
    #[verifier::type_invariant]
    spec fn wf(self) -> bool {
        (self.version is Some) <==> (self.state is Loaded)
    }

    /// The current state.
    pub closed spec fn spec_state(&self) -> ModelState {
        self.state
    }

    /// The version tag of the loaded model, while one is loaded.
    pub closed spec fn spec_version(&self) -> Option<Seq<char>> {
        match self.version {
            Some(v) => Some(v@),
            None => None,
        }
    }

    /// A fresh lifecycle: nothing loaded.
    pub fn new() -> (lc: ModelLifecycle)
        ensures
            lc.spec_state() is Unloaded,
            lc.spec_version() is None,
    {
        ModelLifecycle { state: ModelState::Unloaded, version: None }
    }

    /// Starts a load. Only the unloaded state may start one; a caller
    /// that finds a load in flight, or a model already loaded, is told
    /// so and must not start another.
    pub fn begin_load(&mut self) -> (started: bool)
        ensures
            started == (old(self).spec_state() is Unloaded),
            started ==> final(self).spec_state() is Loading && final(self).spec_version() is None,
            !started ==> *final(self) == *old(self),
    {
        proof {
            use_type_invariant(&*self);
        }
        match self.state {
            ModelState::Unloaded => {
                *self = ModelLifecycle { state: ModelState::Loading, version: None };
                true
            },
            ModelState::Loading => false,
            ModelState::Loaded => false,
        }
    }

    /// Completes the load in flight: the model with the given version
    /// tag is now loaded and a generator may be handed out.
    pub fn finish_load(&mut self, version: String)
        requires
            old(self).spec_state() is Loading,
        ensures
            final(self).spec_state() is Loaded,
            final(self).spec_version() == Some(version@),
    {
        *self = ModelLifecycle { state: ModelState::Loaded, version: Some(version) };
    }

    /// Abandons the load in flight after an unrecoverable failure.
    pub fn fail_load(&mut self)
        requires
            old(self).spec_state() is Loading,
        ensures
            final(self).spec_state() is Unloaded,
            final(self).spec_version() is None,
    {
        *self = ModelLifecycle { state: ModelState::Unloaded, version: None };
    }

    /// Unloads whatever is loaded.
    pub fn unload(&mut self)
        ensures
            final(self).spec_state() is Unloaded,
            final(self).spec_version() is None,
    {
        *self = ModelLifecycle { state: ModelState::Unloaded, version: None };
    }

    /// Whether a generator may be handed out: only in the loaded state.
    pub fn is_loaded(&self) -> (r: bool)
        ensures
            r == (self.spec_state() is Loaded),
    {
        match self.state {
            ModelState::Loaded => true,
            ModelState::Unloaded => false,
            ModelState::Loading => false,
        }
    }

    /// Whether a load is in flight. The completion and abandonment
    /// transitions ask for exactly this state, so a caller tests it
    /// under the same lock before calling them.
    pub fn is_loading(&self) -> (r: bool)
        ensures
            r == (self.spec_state() is Loading),
    {
        match self.state {
            ModelState::Loading => true,
            ModelState::Unloaded => false,
            ModelState::Loaded => false,
        }
    }

    /// Admits an operation that needs the generator, exactly when a
    /// model is loaded. Bulk regeneration fails through this gate and
    /// in no other way; per-item failures are absorbed, never raised.
    pub fn require_generator(&self) -> (r: Result<(), GenerationError>)
        ensures
            r is Ok <==> self.spec_state() is Loaded,
            r matches Err(e) ==> e is ModelNotLoaded,
    {
        if self.is_loaded() {
            Ok(())
        } else {
            Err(GenerationError::ModelNotLoaded)
        }
    }

    /// The version tag of the loaded model, or nothing while no model is
    /// loaded.
    pub fn loaded_version(&self) -> (r: Option<&String>)
        ensures
            match r {
                Some(v) => self.spec_state() is Loaded && self.spec_version() == Some(v@),
                None => !(self.spec_state() is Loaded) && self.spec_version() is None,
            },
    {
        proof {
            use_type_invariant(&*self);
        }
        match &self.version {
            Some(v) => Some(v),
            None => None,
        }
    }
}

/// Whether the artifacts must be fetched: they must whenever either the
/// model weights file or the vocabulary file is missing, and then both
/// are downloaded together.
pub fn download_needed(model_present: bool, tokenizer_present: bool) -> (r: bool)
    ensures
        r == !(model_present && tokenizer_present),
{
    !(model_present && tokenizer_present)
}

/// The version tag of the model this pipeline ships with; cached
/// records are valid only while they carry the tag of the loaded model.
pub fn default_model_name() -> (s: String)
    ensures
        s@ == "all-MiniLM-L6-v2"@,
{
    String::from_str("all-MiniLM-L6-v2")
}

/// The file name of the model weights artifact inside the model
/// directory; both this file and the vocabulary file must exist before
/// a load can succeed.
pub fn model_file_name() -> (s: String)
    ensures
        s@ == "model.onnx"@,
{
    String::from_str("model.onnx")
}

/// The file name of the vocabulary artifact inside the model directory.
pub fn tokenizer_file_name() -> (s: String)
    ensures
        s@ == "tokenizer.json"@,
{
    String::from_str("tokenizer.json")
}

/// The default download base for a model name: the conventional public
/// repository path for sentence transformer models.
pub fn default_base_url(model_name: &str) -> (s: String)
    ensures
        s@ == "https://huggingface.co/sentence-transformers/"@ + model_name@
            + "/resolve/main"@,
{
    let head = String::from_str("https://huggingface.co/sentence-transformers/");
    head.concat(model_name).concat("/resolve/main")
}

/// Where the model weights artifact is fetched from, under a base
/// location.
pub fn model_file_url(base_url: &str) -> (s: String)
    ensures
        s@ == base_url@ + "/onnx/model.onnx"@,
{
    String::from_str(base_url).concat("/onnx/model.onnx")
}

/// Where the vocabulary artifact is fetched from, under a base
/// location.
pub fn tokenizer_file_url(base_url: &str) -> (s: String)
    ensures
        s@ == base_url@ + "/tokenizer.json"@,
{
    String::from_str(base_url).concat("/tokenizer.json")
}

/// Builds the status report from what the shell observed on disk:
/// the model counts as downloaded only when both artifacts are present,
/// and only then are a path and a size reported.
pub fn model_status(
    name: String,
    model_path: String,
    model_present: bool,
    tokenizer_present: bool,
    model_size: Option<u64>,
    loaded: bool,
) -> (info: ModelInfo)
    ensures
        info.name == name,
        info.downloaded == (model_present && tokenizer_present),
        info.loaded == loaded,
        info.downloaded ==> info.path == Some(model_path) && info.size == model_size,
        !info.downloaded ==> info.path is None && info.size is None,
{
    let downloaded = model_present && tokenizer_present;
    ModelInfo {
        name,
        path: if downloaded {
            Some(model_path)
        } else {
            None
        },
        size: if downloaded {
            model_size
        } else {
            None
        },
        downloaded,
        loaded,
    }
}

} // verus!
