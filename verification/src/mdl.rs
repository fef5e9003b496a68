//! Model files: one file holds a model at several levels of detail.
//!
//! What a model file holds is not taken apart here. A container keeps the
//! file as it was read, and hands out models that share it, each for one
//! level of detail.

use std::sync::Arc;
use vstd::prelude::*;

verus! {

/// A level of detail of a model.
#[derive(Debug, Clone, Copy, PartialEq, Eq)]
pub enum Lod {
    High,
    Medium,
    Low,
}

/// A model file as it was read.
#[derive(Debug, PartialEq, Eq)]
pub struct ModelFile {
    pub data: Vec<u8>,
}

/// A model file, holding one or more models and what belongs to them.
#[derive(Debug)]
pub struct ModelContainer {
    file: Arc<ModelFile>,
}

/// One model of a model file: the file at one level of detail.
#[derive(Debug)]
pub struct Model {
    file: Arc<ModelFile>,
    level: Lod,
}

/// A model as contracts see it.
pub struct ModelView {
    /// The bytes of the file that the model is of.
    pub file: Seq<u8>,
    /// The level of detail.
    pub level: Lod,
}

impl View for ModelContainer {
    type V = Seq<u8>;

    closed spec fn view(&self) -> Seq<u8> {
        self.file.data@
    }
}

impl View for Model {
    type V = ModelView;

    closed spec fn view(&self) -> ModelView {
        ModelView { file: self.file.data@, level: self.level }
    }
}

impl ModelContainer {
    /// The container of a file with the given bytes.
    pub fn read(data: Vec<u8>) -> (container: ModelContainer)
        ensures
            container@ == data@,
    {
        ModelContainer { file: Arc::new(ModelFile { data }) }
    }

    /// Get the model for the specified level of detail. The model is of the
    /// file of the container, which the two share.
    pub fn model(&self, level: Lod) -> (model: Model)
        ensures
            model@ == (ModelView { file: self@, level }),
            model.shares(self),
    {
        Model { file: self.file.clone(), level }
    }

    /// The file of the container.
    pub fn file(&self) -> (file: &Arc<ModelFile>)
        ensures
            file.data@ == self@,
    {
        &self.file
    }
}

impl Model {
    /// Whether the model is of the very file that the container holds.
    pub closed spec fn shares(&self, container: &ModelContainer) -> bool {
        self.file == container.file
    }

    /// The level of detail of the model.
    pub fn level(&self) -> (level: Lod)
        ensures
            level == self@.level,
    {
        self.level
    }

    /// The file that the model is of.
    pub fn file(&self) -> (file: &Arc<ModelFile>)
        ensures
            file.data@ == self@.file,
    {
        &self.file
    }
}

} // verus!
