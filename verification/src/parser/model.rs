//! What the container description says, once read.

use vstd::prelude::*;

verus! {

/// What a field attribute asks for.
#[derive(Debug)]
pub enum FieldAttribute {
    /// Pass the field as the environment variable of this name.
    EnvVar(String),
    /// Pass the field as the value of this command line flag.
    Arg(String),
    /// Publish the port the field holds as this port of the container.
    Port(u32),
}

pub enum FieldAttributeView {
    EnvVar(Seq<char>),
    Arg(Seq<char>),
    Port(u32),
}

impl View for FieldAttribute {
    type V = FieldAttributeView;

    open spec fn view(&self) -> FieldAttributeView {
        match self {
            FieldAttribute::EnvVar(s) => FieldAttributeView::EnvVar(s@),
            FieldAttribute::Arg(s) => FieldAttributeView::Arg(s@),
            FieldAttribute::Port(p) => FieldAttributeView::Port(*p),
        }
    }
}

impl DeepView for FieldAttribute {
    type V = FieldAttributeView;

    open spec fn deep_view(&self) -> FieldAttributeView {
        self@
    }
}

/// The command the container runs.
#[derive(Debug)]
pub struct Command {
    pub args: Vec<String>,
}

/// The health check of the container.
#[derive(Debug)]
pub enum HealthCheck {
    Command(String),
}

/// A fixed time to wait for the container, in milliseconds.
#[derive(Debug)]
pub struct WaitTime {
    pub time: u64,
}

/// A log message to wait for.
#[derive(Debug)]
pub struct WaitLog {
    pub message: String,
}

/// Whether a field is a plain value or an `Option` of one.
#[derive(Debug, PartialEq, Eq, Structural)]
pub enum FieldType {
    Simple,
    Option,
}

/// A field of the described struct together with its attributes.
#[derive(Debug)]
pub struct ModelField {
    pub name: String,
    pub ty: FieldType,
    pub attributes: Vec<FieldAttribute>,
}

pub struct ModelFieldView {
    pub name: Seq<char>,
    pub ty: FieldType,
    pub attributes: Seq<FieldAttributeView>,
}

impl View for ModelField {
    type V = ModelFieldView;

    open spec fn view(&self) -> ModelFieldView {
        ModelFieldView { name: self.name@, ty: self.ty, attributes: self.attributes.deep_view() }
    }
}

impl DeepView for ModelField {
    type V = ModelFieldView;

    open spec fn deep_view(&self) -> ModelFieldView {
        self@
    }
}

/// The whole description of a container.
#[derive(Debug)]
pub struct Model {
    pub struct_name: String,
    pub image: String,
    pub command: Option<Command>,
    pub health_check: Option<HealthCheck>,
    pub wait_time: Option<WaitTime>,
    pub wait_log: Option<WaitLog>,
    pub fields: Vec<ModelField>,
}

pub struct ModelView {
    pub struct_name: Seq<char>,
    pub image: Seq<char>,
    pub command: Option<Seq<Seq<char>>>,
    pub health_check: Option<Seq<char>>,
    pub wait_time: Option<u64>,
    pub wait_log: Option<Seq<char>>,
    pub fields: Seq<ModelFieldView>,
}

impl View for Model {
    type V = ModelView;

    open spec fn view(&self) -> ModelView {
        ModelView {
            struct_name: self.struct_name@,
            image: self.image@,
            command: match &self.command {
                Some(c) => Some(c.args.deep_view()),
                None => None,
            },
            health_check: match &self.health_check {
                Some(HealthCheck::Command(c)) => Some(c@),
                None => None,
            },
            wait_time: match &self.wait_time {
                Some(w) => Some(w.time),
                None => None,
            },
            wait_log: match &self.wait_log {
                Some(w) => Some(w.message@),
                None => None,
            },
            fields: self.fields.deep_view(),
        }
    }
}

/// A simplified description: the struct, its image and its environment.
#[derive(Debug)]
pub struct IR {
    pub struct_name: String,
    pub image: String,
    pub env_vars: Vec<(String, String)>,
}

} // verus!
