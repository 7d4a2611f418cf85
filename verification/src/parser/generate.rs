//! What the derived `into_container` does, step by step.
//!
//! The derived body hands its steps and the text of the fields they read
//! to `build_container`, which parses the image, creates the container,
//! and then applies the steps in order: the command, the steps of every
//! field attribute (fields in order, attributes of a field in order), the
//! health check, the wait time and the log message to wait for.

use vstd::prelude::*;
use crate::container::{
    clone_strings, Container, ContainerView, EnvVarView, HealthCheckView, Image, ImageView, PortMappingView,
    WaitStrategy, WaitStrategyView, latest_tag, image_reference_captures,
};
use crate::error::ContainersError;
use crate::text::decimal;
use crate::parser::model::{
    FieldAttribute, FieldAttributeView, FieldType, HealthCheck, Model, ModelFieldView, ModelView,
};

verus! {

/// One step of a derived `into_container`.
#[derive(Debug)]
pub enum BuildStep {
    /// Set the command.
    Command(Vec<String>),
    /// Pass the field `field` as environment variable `name`; an optional
    /// field only when it holds a value.
    EnvVar { name: String, field: String, optional: bool },
    /// Pass the flag `name` followed by the field `field`.
    Arg { name: String, field: String, optional: bool },
    /// Publish the port the field holds as `port` of the container.
    Port { field: String, port: u32, optional: bool },
    /// Set the health check command and wait for the container to be healthy.
    HealthCheck(String),
    /// Wait for this many milliseconds.
    WaitTime(u64),
    /// Wait for a log line matching this pattern.
    WaitLog(String),
}

pub enum BuildStepView {
    Command(Seq<Seq<char>>),
    EnvVar { name: Seq<char>, field: Seq<char>, optional: bool },
    Arg { name: Seq<char>, field: Seq<char>, optional: bool },
    Port { field: Seq<char>, port: u32, optional: bool },
    HealthCheck(Seq<char>),
    WaitTime(u64),
    WaitLog(Seq<char>),
}

impl View for BuildStep {
    type V = BuildStepView;

    open spec fn view(&self) -> BuildStepView {
        match self {
            BuildStep::Command(v) => BuildStepView::Command(v.deep_view()),
            BuildStep::EnvVar { name, field, optional } => BuildStepView::EnvVar {
                name: name@,
                field: field@,
                optional: *optional,
            },
            BuildStep::Arg { name, field, optional } => BuildStepView::Arg {
                name: name@,
                field: field@,
                optional: *optional,
            },
            BuildStep::Port { field, port, optional } => BuildStepView::Port {
                field: field@,
                port: *port,
                optional: *optional,
            },
            BuildStep::HealthCheck(c) => BuildStepView::HealthCheck(c@),
            BuildStep::WaitTime(t) => BuildStepView::WaitTime(*t),
            BuildStep::WaitLog(m) => BuildStepView::WaitLog(m@),
        }
    }
}

impl DeepView for BuildStep {
    type V = BuildStepView;

    open spec fn deep_view(&self) -> BuildStepView {
        self@
    }
}

/// A derived `into_container`: the struct it is for, the image it parses,
/// and its steps.
#[derive(Debug)]
pub struct ContainerImpl {
    pub struct_name: String,
    pub image: String,
    pub steps: Vec<BuildStep>,
}

pub open spec fn option_steps<T>(o: Option<T>, f: spec_fn(T) -> BuildStepView) -> Seq<BuildStepView> {
    match o {
        Some(x) => seq![f(x)],
        None => Seq::empty(),
    }
}

/// The step of one attribute of a field.
pub open spec fn attribute_step(f: ModelFieldView, a: FieldAttributeView) -> BuildStepView {
    let optional = f.ty == FieldType::Option;
    match a {
        FieldAttributeView::EnvVar(name) => BuildStepView::EnvVar { name, field: f.name, optional },
        FieldAttributeView::Arg(name) => BuildStepView::Arg { name, field: f.name, optional },
        FieldAttributeView::Port(port) => BuildStepView::Port { field: f.name, port, optional },
    }
}

/// The steps of one field.
pub open spec fn field_steps(f: ModelFieldView) -> Seq<BuildStepView> {
    f.attributes.map_values(|a: FieldAttributeView| attribute_step(f, a))
}

/// The steps of a model, in order.
pub open spec fn steps_spec(m: ModelView) -> Seq<BuildStepView> {
    option_steps(m.command, |c: Seq<Seq<char>>| BuildStepView::Command(c))
        + m.fields.flat_map(|f: ModelFieldView| field_steps(f))
        + option_steps(m.health_check, |c: Seq<char>| BuildStepView::HealthCheck(c))
        + option_steps(m.wait_time, |t: u64| BuildStepView::WaitTime(t))
        + option_steps(m.wait_log, |l: Seq<char>| BuildStepView::WaitLog(l))
}

fn push_step(steps: &mut Vec<BuildStep>, s: BuildStep)
    ensures
        final(steps).deep_view() == old(steps).deep_view().push(s@),
{
    steps.push(s);
    assert(steps.deep_view() =~= old(steps).deep_view().push(s@));
}

fn add_field_steps(steps: &mut Vec<BuildStep>, field: &crate::parser::model::ModelField)
    ensures
        final(steps).deep_view() == old(steps).deep_view() + field_steps(field@),
{
    let optional = match field.ty {
        FieldType::Option => true,
        FieldType::Simple => false,
    };
    let ghost f = field@;
    let mut i: usize = 0;
    while i < field.attributes.len()
        invariant
            i <= field.attributes.len(),
            f == field@,
            optional == (f.ty == FieldType::Option),
            steps.deep_view() == old(steps).deep_view() + field_steps(f).take(i as int),
        decreases field.attributes.len() - i,
    {
        let step = match &field.attributes[i] {
            FieldAttribute::EnvVar(name) => BuildStep::EnvVar { name: name.clone(), field: field.name.clone(), optional },
            FieldAttribute::Arg(name) => BuildStep::Arg { name: name.clone(), field: field.name.clone(), optional },
            FieldAttribute::Port(port) => BuildStep::Port { field: field.name.clone(), port: *port, optional },
        };
        proof {
            assert(f.attributes[i as int] == field.attributes[i as int]@);
            assert(step@ == field_steps(f)[i as int]);
        }
        push_step(steps, step);
        i = i + 1;
        assert(steps.deep_view() =~= old(steps).deep_view() + field_steps(f).take(i as int));
    }
    assert(field_steps(f).take(i as int) =~= field_steps(f));
}

/// The derived `into_container` of a model.
pub fn generate_container(model: &Model) -> (r: ContainerImpl)
    ensures
        r.struct_name@ == model@.struct_name,
        r.image@ == model@.image,
        r.steps.deep_view() == steps_spec(model@),
{
    let mut steps: Vec<BuildStep> = Vec::new();
    let ghost m = model@;
    match &model.command {
        Some(c) => push_step(&mut steps, BuildStep::Command(clone_strings(&c.args))),
        None => {},
    }
    let ghost a0 = steps.deep_view();
    let ghost g = |f: ModelFieldView| field_steps(f);
    let mut i: usize = 0;
    while i < model.fields.len()
        invariant
            i <= model.fields.len(),
            m == model@,
            g == (|f: ModelFieldView| field_steps(f)),
            steps.deep_view() == a0 + m.fields.take(i as int).flat_map(g),
        decreases model.fields.len() - i,
    {
        let ghost before = steps.deep_view();
        add_field_steps(&mut steps, &model.fields[i]);
        proof {
            m.fields.lemma_flat_map_take_append(g, i as int);
            assert(m.fields[i as int] == model.fields[i as int]@);
        }
        i = i + 1;
        assert(steps.deep_view() =~= a0 + m.fields.take(i as int).flat_map(g));
    }
    assert(m.fields.take(i as int) =~= m.fields);
    let ghost a1 = steps.deep_view();
    match &model.health_check {
        Some(HealthCheck::Command(c)) => push_step(&mut steps, BuildStep::HealthCheck(c.clone())),
        None => {},
    }
    let ghost a2 = steps.deep_view();
    match &model.wait_time {
        Some(w) => push_step(&mut steps, BuildStep::WaitTime(w.time)),
        None => {},
    }
    let ghost a3 = steps.deep_view();
    match &model.wait_log {
        Some(w) => push_step(&mut steps, BuildStep::WaitLog(w.message.clone())),
        None => {},
    }
    proof {
        assert(a0 =~= option_steps(m.command, |c: Seq<Seq<char>>| BuildStepView::Command(c)));
        assert(a2 =~= a1 + option_steps(m.health_check, |c: Seq<char>| BuildStepView::HealthCheck(c)));
        assert(a3 =~= a2 + option_steps(m.wait_time, |t: u64| BuildStepView::WaitTime(t)));
        assert(steps.deep_view() =~= a3 + option_steps(m.wait_log, |l: Seq<char>| BuildStepView::WaitLog(l)));
        assert(steps.deep_view() =~= steps_spec(m));
    }
    ContainerImpl { struct_name: model.struct_name.clone(), image: model.image.clone(), steps }
}

// ------------------------------------------------------------------ applying steps

pub open spec fn text_view(v: Option<&str>) -> Option<Seq<char>> {
    match v {
        Some(t) => Some(t@),
        None => None,
    }
}

pub open spec fn values_view(values: Seq<Option<String>>) -> Seq<Option<Seq<char>>> {
    values.map_values(|o: Option<String>| match o {
        Some(t) => Some(t@),
        None => None,
    })
}

/// What one step does to a container. `value` is the text of the field
/// the step reads (`None` for an optional field that holds nothing); the
/// steps that read no field ignore it.
pub open spec fn step_effect(c: ContainerView, step: BuildStepView, value: Option<Seq<char>>) -> ContainerView {
    match step {
        BuildStepView::Command(args) => ContainerView { command: args, ..c },
        BuildStepView::EnvVar { name, .. } => match value {
            Some(v) => ContainerView { env_vars: c.env_vars.push(EnvVarView { key: name, value: v }), ..c },
            None => c,
        },
        BuildStepView::Arg { name, .. } => match value {
            Some(v) => ContainerView { command: c.command.push(name).push(v), ..c },
            None => c,
        },
        BuildStepView::Port { port, .. } => match value {
            Some(v) => ContainerView {
                port_mappings: c.port_mappings.push(PortMappingView { source: v, target: decimal(port as nat) }),
                ..c
            },
            None => c,
        },
        BuildStepView::HealthCheck(command) => ContainerView {
            health_check: Some(
                HealthCheckView { command, retries: None, interval: None, start_period: None, timeout: None },
            ),
            wait_strategy: Some(WaitStrategyView::HealthCheck),
            ..c
        },
        BuildStepView::WaitTime(t) => ContainerView { wait_strategy: Some(WaitStrategyView::WaitTime { duration: t }), ..c },
        BuildStepView::WaitLog(p) => ContainerView {
            wait_strategy: Some(WaitStrategyView::LogMessage { pattern: p }),
            ..c
        },
    }
}

/// The steps applied to `c` in order, step `i` reading `values[i]`.
pub open spec fn apply_steps(c: ContainerView, steps: Seq<BuildStepView>, values: Seq<Option<Seq<char>>>) -> ContainerView
    decreases steps.len(),
{
    if steps.len() == 0 {
        c
    } else {
        step_effect(apply_steps(c, steps.drop_last(), values), steps.last(), values[steps.len() - 1])
    }
}

/// Applies one step to `container`, with the text of the field it reads.
pub fn apply_step(container: &mut Container, step: &BuildStep, value: Option<&str>)
    ensures
        final(container)@ == step_effect(old(container)@, step@, text_view(value)),
{
    match step {
        BuildStep::Command(args) => {
            container.command(clone_strings(args));
        },
        BuildStep::EnvVar { name, .. } => match value {
            Some(v) => {
                container.env_var(name.as_str(), v);
            },
            None => {},
        },
        BuildStep::Arg { name, .. } => match value {
            Some(v) => {
                container.arg(name.as_str());
                container.arg(v);
            },
            None => {},
        },
        BuildStep::Port { port, .. } => match value {
            Some(v) => {
                container.map_port(crate::container::Port::from_text(v), crate::container::Port::from_number(*port));
            },
            None => {},
        },
        BuildStep::HealthCheck(command) => {
            container.health_check(crate::container::HealthCheck::new(command.as_str()));
            container.wait_for(WaitStrategy::HealthCheck);
        },
        BuildStep::WaitTime(t) => {
            container.wait_for(WaitStrategy::WaitTime { duration: *t });
        },
        BuildStep::WaitLog(p) => {
            container.wait_for(WaitStrategy::LogMessage { pattern: p.clone() });
        },
    }
    assert(container@ =~= step_effect(old(container)@, step@, text_view(value)));
}

/// The container a derived `into_container` builds: a container of the
/// image the derive names (an error if that is no image reference), with
/// the steps applied in order, step `i` reading `values[i]`.
pub fn build_container(imp: &ContainerImpl, values: &Vec<Option<String>>) -> (r: Result<Container, ContainersError>)
    requires
        values.len() == imp.steps.len(),
    ensures
        image_reference_captures(imp.image@) is None <==> r is Err,
        r matches Err(e) ==> (e matches ContainersError::InvalidImageName { name } && name@ == imp.image@),
        r matches Ok(c) ==> c@ == apply_steps(
            Container::spec_bare(c@.image, c@.name),
            imp.steps.deep_view(),
            values_view(values@),
        ),
        r matches Ok(c) ==> match image_reference_captures(imp.image@) {
            Some((name, None)) => c@.image == (ImageView { name, tag: latest_tag() }),
            Some((name, Some(tag))) => c@.image == (ImageView { name, tag }),
            None => false,
        },
{
    let image = match Image::from_str(imp.image.as_str()) {
        Ok(image) => image,
        Err(e) => {
            return Err(e);
        },
    };
    let mut container = Container::from_image(image);
    let ghost start = container@;
    let ghost steps = imp.steps.deep_view();
    let ghost vals = values_view(values@);
    let mut i: usize = 0;
    assert(steps.take(0) =~= Seq::<BuildStepView>::empty());
    while i < imp.steps.len()
        invariant
            i <= imp.steps.len(),
            values.len() == imp.steps.len(),
            steps == imp.steps.deep_view(),
            vals == values_view(values@),
            container@ == apply_steps(start, steps.take(i as int), vals),
            container@.name == start.name,
            container@.image == start.image,
        decreases imp.steps.len() - i,
    {
        let value: Option<&str> = match &values[i] {
            Some(v) => Some(v.as_str()),
            None => None,
        };
        proof {
            assert(text_view(value) == vals[i as int]);
            assert(steps[i as int] == imp.steps[i as int]@);
        }
        apply_step(&mut container, &imp.steps[i], value);
        proof {
            assert(steps.take(i + 1).drop_last() =~= steps.take(i as int));
        }
        i = i + 1;
    }
    assert(steps.take(i as int) =~= steps);
    Ok(container)
}

// ------------------------------------------------------------------ laws of derived containers

/// Steps that read a field: they leave name, image, health check and wait
/// strategy alone.
pub open spec fn is_field_step(s: BuildStepView) -> bool {
    s is EnvVar || s is Arg || s is Port
}

pub open spec fn all_field_steps(s: Seq<BuildStepView>) -> bool {
    forall|i: int| 0 <= i < s.len() ==> is_field_step(#[trigger] s[i])
}

proof fn lemma_apply_concat(
    c: ContainerView,
    a: Seq<BuildStepView>,
    b: Seq<BuildStepView>,
    va: Seq<Option<Seq<char>>>,
    vb: Seq<Option<Seq<char>>>,
)
    requires
        va.len() == a.len(),
        vb.len() >= b.len(),
    ensures
        apply_steps(c, a + b, va + vb) == apply_steps(apply_steps(c, a, va), b, vb),
    decreases b.len(),
{
    if b.len() == 0 {
        assert(a + b =~= a);
        lemma_apply_prefix_values(c, a, va, va + vb);
    } else {
        assert((a + b).drop_last() =~= a + b.drop_last());
        assert((a + b).last() == b.last());
        assert((va + vb)[(a + b).len() - 1] == vb[b.len() - 1]);
        lemma_apply_concat(c, a, b.drop_last(), va, vb);
    }
}

/// Only the first `steps.len()` values matter.
proof fn lemma_apply_prefix_values(
    c: ContainerView,
    steps: Seq<BuildStepView>,
    v: Seq<Option<Seq<char>>>,
    w: Seq<Option<Seq<char>>>,
)
    requires
        v.len() >= steps.len(),
        w.len() >= steps.len(),
        forall|i: int| 0 <= i < steps.len() ==> v[i] == w[i],
    ensures
        apply_steps(c, steps, v) == apply_steps(c, steps, w),
    decreases steps.len(),
{
    if steps.len() > 0 {
        lemma_apply_prefix_values(c, steps.drop_last(), v, w);
    }
}

proof fn lemma_field_steps_keep(c: ContainerView, s: Seq<BuildStepView>, v: Seq<Option<Seq<char>>>)
    requires
        all_field_steps(s),
    ensures
        apply_steps(c, s, v).name == c.name,
        apply_steps(c, s, v).image == c.image,
        apply_steps(c, s, v).health_check == c.health_check,
        apply_steps(c, s, v).wait_strategy == c.wait_strategy,
    decreases s.len(),
{
    if s.len() > 0 {
        assert(is_field_step(s[s.len() - 1]));
        assert(all_field_steps(s.drop_last()));
        lemma_field_steps_keep(c, s.drop_last(), v);
    }
}

proof fn lemma_flatten_field_steps(ss: Seq<Seq<BuildStepView>>)
    requires
        forall|k: int| 0 <= k < ss.len() ==> all_field_steps(#[trigger] ss[k]),
    ensures
        all_field_steps(ss.flatten()),
    decreases ss.len(),
{
    if ss.len() > 0 {
        let rest = ss.drop_first();
        assert forall|k: int| 0 <= k < rest.len() implies all_field_steps(#[trigger] rest[k]) by {
            assert(rest[k] == ss[k + 1]);
        }
        lemma_flatten_field_steps(rest);
        assert(all_field_steps(ss[0]));
        let f = ss.first() + rest.flatten();
        assert forall|i: int| 0 <= i < f.len() implies is_field_step(#[trigger] f[i]) by {
            if i < ss.first().len() {
                assert(f[i] == ss[0][i]);
            } else {
                assert(f[i] == rest.flatten()[i - ss.first().len()]);
            }
        }
    }
}

proof fn lemma_model_field_steps(m: ModelView)
    ensures
        all_field_steps(m.fields.flat_map(|f: ModelFieldView| field_steps(f))),
{
    let g = |f: ModelFieldView| field_steps(f);
    let ss = m.fields.map_values(g);
    assert forall|k: int| 0 <= k < ss.len() implies all_field_steps(#[trigger] ss[k]) by {
        let f = m.fields[k];
        assert(ss[k] == field_steps(f));
        assert forall|i: int| 0 <= i < field_steps(f).len() implies is_field_step(#[trigger] field_steps(f)[i]) by {
            assert(field_steps(f)[i] == attribute_step(f, f.attributes[i]));
        }
    }
    lemma_flatten_field_steps(ss);
}

/// The wait strategy a derived container ends up with: the log message if
/// the derive names one, else the wait time, else waiting for a healthy
/// container if it names a health check command, else none.
pub open spec fn derived_wait_strategy(m: ModelView, start: Option<WaitStrategyView>) -> Option<WaitStrategyView> {
    match m.wait_log {
        Some(p) => Some(WaitStrategyView::LogMessage { pattern: p }),
        None => match m.wait_time {
            Some(t) => Some(WaitStrategyView::WaitTime { duration: t }),
            None => match m.health_check {
                Some(_) => Some(WaitStrategyView::HealthCheck),
                None => start,
            },
        },
    }
}

/// A derived container keeps the name and image it starts with, runs the
/// health check command the derive names (with the engine's defaults for
/// everything else), and waits by the last wait the derive asks for: the
/// log message, else the wait time, else a healthy container.
pub proof fn lemma_derived_container(m: ModelView, c: ContainerView, values: Seq<Option<Seq<char>>>)
    requires
        values.len() == steps_spec(m).len(),
    ensures
        apply_steps(c, steps_spec(m), values).name == c.name,
        apply_steps(c, steps_spec(m), values).image == c.image,
        apply_steps(c, steps_spec(m), values).health_check == match m.health_check {
            Some(h) => Some(HealthCheckView { command: h, retries: None, interval: None, start_period: None, timeout: None }),
            None => c.health_check,
        },
        apply_steps(c, steps_spec(m), values).wait_strategy == derived_wait_strategy(m, c.wait_strategy),
{
    let a = option_steps(m.command, |x: Seq<Seq<char>>| BuildStepView::Command(x));
    let f = m.fields.flat_map(|x: ModelFieldView| field_steps(x));
    let h = option_steps(m.health_check, |x: Seq<char>| BuildStepView::HealthCheck(x));
    let t = option_steps(m.wait_time, |x: u64| BuildStepView::WaitTime(x));
    let l = option_steps(m.wait_log, |x: Seq<char>| BuildStepView::WaitLog(x));
    let p2 = a + f;
    let p3 = p2 + h;
    let p4 = p3 + t;
    assert(steps_spec(m) == p4 + l);
    let w4 = values.take(p4.len() as int);
    let w3 = w4.take(p3.len() as int);
    let w2 = w3.take(p2.len() as int);
    let w1 = w2.take(a.len() as int);
    assert(values =~= w4 + values.skip(p4.len() as int));
    assert(w4 =~= w3 + w4.skip(p3.len() as int));
    assert(w3 =~= w2 + w3.skip(p2.len() as int));
    assert(w2 =~= w1 + w2.skip(a.len() as int));
    lemma_apply_concat(c, p4, l, w4, values.skip(p4.len() as int));
    lemma_apply_concat(c, p3, t, w3, w4.skip(p3.len() as int));
    lemma_apply_concat(c, p2, h, w2, w3.skip(p2.len() as int));
    lemma_apply_concat(c, a, f, w1, w2.skip(a.len() as int));
    let c1 = apply_steps(c, a, w1);
    let c2 = apply_steps(c1, f, w2.skip(a.len() as int));
    let c3 = apply_steps(c2, h, w3.skip(p2.len() as int));
    let c4 = apply_steps(c3, t, w4.skip(p3.len() as int));
    let c5 = apply_steps(c4, l, values.skip(p4.len() as int));
    assert(apply_steps(c, steps_spec(m), values) == c5);
    lemma_apply_single(c, a, w1);
    lemma_model_field_steps(m);
    lemma_field_steps_keep(c1, f, w2.skip(a.len() as int));
    lemma_apply_single(c2, h, w3.skip(p2.len() as int));
    lemma_apply_single(c3, t, w4.skip(p3.len() as int));
    lemma_apply_single(c4, l, values.skip(p4.len() as int));
}

/// At most one step, applied.
proof fn lemma_apply_single(c: ContainerView, s: Seq<BuildStepView>, v: Seq<Option<Seq<char>>>)
    ensures
        s.len() == 0 ==> apply_steps(c, s, v) == c,
        s.len() == 1 ==> apply_steps(c, s, v) == step_effect(c, s[0], v[0]),
{
    if s.len() == 1 {
        assert(s.drop_last() =~= Seq::<BuildStepView>::empty());
        assert(apply_steps(c, s.drop_last(), v) == c);
    }
}

/// Everything of a container but its environment, command and port
/// mappings.
pub open spec fn same_but_lists(a: ContainerView, b: ContainerView) -> bool {
    &&& a.name == b.name
    &&& a.image == b.image
    &&& a.has_network == b.has_network
    &&& a.volumes == b.volumes
    &&& a.health_check == b.health_check
    &&& a.wait_strategy == b.wait_strategy
    &&& a.additional_wait_period == b.additional_wait_period
}

/// A field step given the field's value adds exactly one item for it,
/// whether the field is optional or not: an environment variable step
/// appends `name=value` to the environment, an argument step appends the
/// flag and the value to the command, a port step publishes the value as
/// the port. Nothing else changes. Given no value, a field step changes
/// nothing.
pub proof fn lemma_field_step_adds_value(
    c: ContainerView,
    name: Seq<char>,
    field: Seq<char>,
    optional: bool,
    port: u32,
    v: Seq<char>,
)
    ensures
        ({
            let r = step_effect(c, BuildStepView::EnvVar { name, field, optional }, Some(v));
            &&& r.env_vars.len() == c.env_vars.len() + 1
            &&& r.env_vars.drop_last() == c.env_vars
            &&& r.env_vars.last() == (EnvVarView { key: name, value: v })
            &&& r.command == c.command && r.port_mappings == c.port_mappings
            &&& same_but_lists(r, c)
        }),
        ({
            let r = step_effect(c, BuildStepView::Arg { name, field, optional }, Some(v));
            &&& r.command.len() == c.command.len() + 2
            &&& r.command.take(c.command.len() as int) == c.command
            &&& r.command[c.command.len() as int] == name
            &&& r.command[c.command.len() + 1int] == v
            &&& r.env_vars == c.env_vars && r.port_mappings == c.port_mappings
            &&& same_but_lists(r, c)
        }),
        ({
            let r = step_effect(c, BuildStepView::Port { field, port, optional }, Some(v));
            &&& r.port_mappings.len() == c.port_mappings.len() + 1
            &&& r.port_mappings.drop_last() == c.port_mappings
            &&& r.port_mappings.last() == (PortMappingView { source: v, target: decimal(port as nat) })
            &&& r.env_vars == c.env_vars && r.command == c.command
            &&& same_but_lists(r, c)
        }),
        step_effect(c, BuildStepView::EnvVar { name, field, optional }, None) == c,
        step_effect(c, BuildStepView::Arg { name, field, optional }, None) == c,
        step_effect(c, BuildStepView::Port { field, port, optional }, None) == c,
{
    let r = step_effect(c, BuildStepView::Arg { name, field, optional }, Some(v));
    assert(r.command.take(c.command.len() as int) =~= c.command);
    assert(step_effect(c, BuildStepView::EnvVar { name, field, optional }, Some(v)).env_vars.drop_last() =~= c.env_vars);
    assert(step_effect(c, BuildStepView::Port { field, port, optional }, Some(v)).port_mappings.drop_last()
        =~= c.port_mappings);
}

/// Whether a field is optional does not change what its step does with a
/// value or without one.
pub proof fn lemma_optional_flag_irrelevant(c: ContainerView, name: Seq<char>, field: Seq<char>, port: u32, value: Option<Seq<char>>)
    ensures
        step_effect(c, BuildStepView::EnvVar { name, field, optional: true }, value)
            == step_effect(c, BuildStepView::EnvVar { name, field, optional: false }, value),
        step_effect(c, BuildStepView::Arg { name, field, optional: true }, value)
            == step_effect(c, BuildStepView::Arg { name, field, optional: false }, value),
        step_effect(c, BuildStepView::Port { field, port, optional: true }, value)
            == step_effect(c, BuildStepView::Port { field, port, optional: false }, value),
{
}

proof fn lemma_flatten_contains<B>(ss: Seq<Seq<B>>, k: int, j: int)
    requires
        0 <= k < ss.len(),
        0 <= j < ss[k].len(),
    ensures
        ss.flatten().contains(ss[k][j]),
    decreases ss.len(),
{
    let f = ss.flatten();
    assert(f == ss[0] + ss.drop_first().flatten());
    if k == 0 {
        assert(f[j] == ss[0][j]);
    } else {
        let rest = ss.drop_first();
        assert(rest[k - 1] == ss[k]);
        lemma_flatten_contains(rest, k - 1, j);
        let r = rest.flatten();
        let x = choose|x: int| 0 <= x < r.len() && r[x] == ss[k][j];
        assert(f[ss[0].len() + x] == r[x]);
    }
}

/// The step one field attribute asks for: an environment variable or an
/// argument of that name, or a published port, reading the field, optional
/// exactly when the field is an `Option`.
pub open spec fn expected_field_step(f: ModelFieldView, a: FieldAttributeView) -> BuildStepView {
    match a {
        FieldAttributeView::EnvVar(n) => BuildStepView::EnvVar {
            name: n,
            field: f.name,
            optional: f.ty == FieldType::Option,
        },
        FieldAttributeView::Arg(n) => BuildStepView::Arg { name: n, field: f.name, optional: f.ty == FieldType::Option },
        FieldAttributeView::Port(p) => BuildStepView::Port { field: f.name, port: p, optional: f.ty == FieldType::Option },
    }
}

/// Every attribute of every field of a model gives its step among the
/// derived steps, whether the field is optional or not; the command, if
/// any, is the first step and the log message to wait for, if any, the
/// last.
pub proof fn lemma_steps_cover_model(m: ModelView)
    ensures
        forall|k: int, j: int| 0 <= k < m.fields.len() && 0 <= j < m.fields[k].attributes.len()
            ==> steps_spec(m).contains(expected_field_step(m.fields[k], #[trigger] m.fields[k].attributes[j])),
        m.command matches Some(c) ==> steps_spec(m).len() > 0 && steps_spec(m)[0] == BuildStepView::Command(c),
        m.wait_log matches Some(l) ==> steps_spec(m).len() > 0 && steps_spec(m).last() == BuildStepView::WaitLog(l),
{
    let a = option_steps(m.command, |x: Seq<Seq<char>>| BuildStepView::Command(x));
    let g = |x: ModelFieldView| field_steps(x);
    let f = m.fields.flat_map(g);
    let h = option_steps(m.health_check, |x: Seq<char>| BuildStepView::HealthCheck(x));
    let t = option_steps(m.wait_time, |x: u64| BuildStepView::WaitTime(x));
    let l = option_steps(m.wait_log, |x: Seq<char>| BuildStepView::WaitLog(x));
    let all = steps_spec(m);
    assert(all == a + f + h + t + l);
    assert forall|k: int, j: int| 0 <= k < m.fields.len() && 0 <= j < m.fields[k].attributes.len()
        implies all.contains(expected_field_step(m.fields[k], #[trigger] m.fields[k].attributes[j])) by {
        let fk = m.fields[k];
        let ss = m.fields.map_values(g);
        assert(ss[k] == field_steps(fk));
        assert(field_steps(fk)[j] == attribute_step(fk, fk.attributes[j]));
        assert(attribute_step(fk, fk.attributes[j]) == expected_field_step(fk, fk.attributes[j]));
        lemma_flatten_contains(ss, k, j);
        let x = choose|x: int| 0 <= x < f.len() && f[x] == ss[k][j];
        assert(all[a.len() + x] == f[x]);
    }
    match m.command {
        Some(c) => {
            assert(all[0] == a[0]);
        },
        None => {},
    }
    match m.wait_log {
        Some(w) => {
            assert(all.last() == l[0]);
        },
        None => {},
    }
}

proof fn lemma_step_keeps_env(c: ContainerView, step: BuildStepView, value: Option<Seq<char>>)
    ensures
        step_effect(c, step, value).env_vars.len() >= c.env_vars.len(),
        forall|k: int| 0 <= k < c.env_vars.len() ==> step_effect(c, step, value).env_vars[k] == #[trigger] c.env_vars[k],
{
}

/// Applying steps never drops an environment variable, and every
/// environment variable step that is given a value leaves that variable
/// in the derived container's environment, optional field or not.
pub proof fn lemma_steps_pass_env_vars(c: ContainerView, steps: Seq<BuildStepView>, values: Seq<Option<Seq<char>>>)
    requires
        values.len() >= steps.len(),
    ensures
        apply_steps(c, steps, values).env_vars.len() >= c.env_vars.len(),
        forall|k: int| 0 <= k < c.env_vars.len() ==> apply_steps(c, steps, values).env_vars[k] == #[trigger] c.env_vars[k],
        forall|i: int| 0 <= i < steps.len() && #[trigger] steps[i] is EnvVar && values[i] is Some
            ==> apply_steps(c, steps, values).env_vars.contains(
                EnvVarView { key: steps[i]->EnvVar_name, value: values[i]->Some_0 }),
    decreases steps.len(),
{
    if steps.len() > 0 {
        let init = steps.drop_last();
        lemma_steps_pass_env_vars(c, init, values);
        let before = apply_steps(c, init, values);
        let last = steps.last();
        let n = steps.len() - 1;
        lemma_step_keeps_env(before, last, values[n]);
        let after = apply_steps(c, steps, values);
        assert(after == step_effect(before, last, values[n]));
        assert forall|i: int| 0 <= i < steps.len() && #[trigger] steps[i] is EnvVar && values[i] is Some
            implies after.env_vars.contains(EnvVarView { key: steps[i]->EnvVar_name, value: values[i]->Some_0 }) by {
            let e = EnvVarView { key: steps[i]->EnvVar_name, value: values[i]->Some_0 };
            if i < n {
                assert(init[i] == steps[i]);
                assert(before.env_vars.contains(e));
                let k = choose|k: int| 0 <= k < before.env_vars.len() && before.env_vars[k] == e;
                assert(after.env_vars[k] == before.env_vars[k]);
            } else {
                assert(steps[i] == last);
                assert(after.env_vars[after.env_vars.len() - 1] == e);
            }
        }
    }
}

} // verus!
