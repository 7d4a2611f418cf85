//! Declaring a container as a list of components.

use vstd::prelude::*;
use crate::container::{latest_tag, Container, Image, ImageView};

verus! {

/// How to wait for a declared container.
#[derive(Debug)]
pub enum WaitStrategy {
    HealthCheck,
    LogMessage(String),
}

/// One part of a container declaration.
#[derive(Debug)]
pub enum Component {
    /// The image, by repository name.
    Image(String),
    EnvVar(String, String),
    /// A port of the host and the port of the container it is published as.
    Port(u32, u32),
    /// A health check: command, retries, interval, start period and
    /// timeout (durations in milliseconds).
    HealthCheck(String, Option<u32>, Option<u64>, Option<u64>, Option<u64>),
    Wait(WaitStrategy),
}

/// A container declared as a list of components.
#[derive(Debug)]
pub struct ContainerDecleration(pub Vec<Component>);

/// Why a declaration does not describe a container.
#[derive(Debug, PartialEq, Eq, Structural)]
pub enum DeclarationError {
    /// More than one image is declared.
    MultipleImages,
    /// No image is declared.
    MissingImage,
}

/// Declares a container of `components`.
pub fn container(components: Vec<Component>) -> (r: ContainerDecleration)
    ensures
        r.0 == components,
{
    ContainerDecleration(components)
}

pub fn env_var(key: &str, value: &str) -> (r: Component)
    ensures
        r matches Component::EnvVar(k, v) && k@ == key@ && v@ == value@,
{
    Component::EnvVar(String::from_str(key), String::from_str(value))
}

pub fn image(name: &str) -> (r: Component)
    ensures
        r matches Component::Image(n) && n@ == name@,
{
    Component::Image(String::from_str(name))
}

pub fn port(host: u32, target: u32) -> (r: Component)
    ensures
        r == Component::Port(host, target),
{
    Component::Port(host, target)
}

pub fn health_check(
    cmd: &str,
    retries: Option<u32>,
    interval: Option<u64>,
    start_period: Option<u64>,
    timeout: Option<u64>,
) -> (r: Component)
    ensures
        r matches Component::HealthCheck(c, rs, i, s, t) && c@ == cmd@ && rs == retries && i == interval
            && s == start_period && t == timeout,
{
    Component::HealthCheck(String::from_str(cmd), retries, interval, start_period, timeout)
}

pub fn wait_for_log(message: &str) -> (r: Component)
    ensures
        r matches Component::Wait(WaitStrategy::LogMessage(m)) && m@ == message@,
{
    Component::Wait(WaitStrategy::LogMessage(String::from_str(message)))
}

pub fn wait_for_healthcheck() -> (r: Component)
    ensures
        r matches Component::Wait(WaitStrategy::HealthCheck),
{
    Component::Wait(WaitStrategy::HealthCheck)
}

/// The image names a list of components declares, in order.
pub open spec fn image_names(cs: Seq<Component>) -> Seq<Seq<char>>
    decreases cs.len(),
{
    if cs.len() == 0 {
        Seq::empty()
    } else {
        match cs.last() {
            Component::Image(n) => image_names(cs.drop_last()).push(n@),
            _ => image_names(cs.drop_last()),
        }
    }
}

impl ContainerDecleration {
    /// The one declared image, tagged `latest`.
    pub fn get_image(&self) -> (r: Result<Image, DeclarationError>)
        ensures
            image_names(self.0@).len() == 0 ==> r == Err::<Image, DeclarationError>(DeclarationError::MissingImage),
            image_names(self.0@).len() > 1 ==> r == Err::<Image, DeclarationError>(DeclarationError::MultipleImages),
            image_names(self.0@).len() == 1 ==> (r matches Ok(i)
                && i@ == (ImageView { name: image_names(self.0@)[0], tag: latest_tag() })),
    {
        let mut first: Option<usize> = None;
        let mut count: usize = 0;
        let mut i: usize = 0;
        while i < self.0.len()
            invariant
                i <= self.0.len(),
                count == image_names(self.0@.take(i as int)).len(),
                count <= i,
                count == 0 <==> first is None,
                first matches Some(f) ==> f < i && self.0[f as int] is Image
                    && image_names(self.0@.take(i as int))[0] == self.0[f as int]->Image_0@,
            decreases self.0.len() - i,
        {
            proof {
                assert(self.0@.take(i + 1).drop_last() =~= self.0@.take(i as int));
                assert(self.0@.take(i + 1).last() == self.0[i as int]);
            }
            match &self.0[i] {
                Component::Image(_) => {
                    if count == 0 {
                        first = Some(i);
                    }
                    count = count + 1;
                },
                _ => {},
            }
            i = i + 1;
        }
        assert(self.0@.take(i as int) =~= self.0@);
        if count > 1 {
            return Err(DeclarationError::MultipleImages);
        }
        match first {
            None => Err(DeclarationError::MissingImage),
            Some(f) => match &self.0[f] {
                Component::Image(name) => Ok(Image::from_name(name.as_str())),
                _ => Err(DeclarationError::MissingImage),
            },
        }
    }

    /// A container of the declared image. The other components are not
    /// applied.
    pub fn try_into_container(self) -> (r: Result<Container, DeclarationError>)
        ensures
            image_names(self.0@).len() == 0 ==> r == Err::<Container, DeclarationError>(DeclarationError::MissingImage),
            image_names(self.0@).len() > 1 ==> r == Err::<Container, DeclarationError>(DeclarationError::MultipleImages),
            image_names(self.0@).len() == 1 ==> (r matches Ok(c)
                && c@ == Container::spec_bare(ImageView { name: image_names(self.0@)[0], tag: latest_tag() }, c@.name)),
    {
        match self.get_image() {
            Err(e) => Err(e),
            Ok(image) => Ok(Container::from_image(image)),
        }
    }
}

/// Some image component of `cs` has the name `n`.
pub open spec fn named_by_component(cs: Seq<Component>, n: Seq<char>) -> bool {
    exists|i: int| 0 <= i < cs.len() && cs[i] is Image && cs[i]->Image_0@ == n
}

/// The image names of a declaration are exactly the names of its image
/// components, in order: every image component's name is among them,
/// every one of them comes from an image component, and two image
/// components give two names.
pub proof fn lemma_image_names_are_image_components(cs: Seq<Component>)
    ensures
        forall|i: int| 0 <= i < cs.len() && #[trigger] cs[i] is Image ==> image_names(cs).contains(cs[i]->Image_0@),
        forall|k: int| 0 <= k < image_names(cs).len() ==> named_by_component(cs, #[trigger] image_names(cs)[k]),
        forall|i: int, j: int| 0 <= i < j < cs.len() && #[trigger] cs[i] is Image && #[trigger] cs[j] is Image
            ==> image_names(cs).len() >= 2,
        image_names(cs).len() <= cs.len(),
    decreases cs.len(),
{
    if cs.len() > 0 {
        let init = cs.drop_last();
        lemma_image_names_are_image_components(init);
        let n = image_names(init);
        assert forall|i: int| 0 <= i < cs.len() && #[trigger] cs[i] is Image implies image_names(cs).contains(cs[i]->Image_0@) by {
            if i < cs.len() - 1 {
                assert(init[i] == cs[i]);
                let k = choose|k: int| 0 <= k < n.len() && n[k] == cs[i]->Image_0@;
                assert(image_names(cs)[k] == n[k]);
            } else {
                assert(image_names(cs)[n.len() as int] == cs[i]->Image_0@);
            }
        }
        assert forall|k: int| 0 <= k < image_names(cs).len() implies named_by_component(cs, #[trigger] image_names(cs)[k]) by {
            if k < n.len() {
                assert(image_names(cs)[k] == n[k]);
                assert(named_by_component(init, n[k]));
                let i = choose|i: int| 0 <= i < init.len() && init[i] is Image && init[i]->Image_0@ == n[k];
                assert(cs[i] == init[i]);
            } else {
                assert(cs[cs.len() - 1] is Image);
                assert(image_names(cs)[k] == cs[cs.len() - 1]->Image_0@);
            }
        }
        assert forall|i: int, j: int| 0 <= i < j < cs.len() && #[trigger] cs[i] is Image && #[trigger] cs[j] is Image
            implies image_names(cs).len() >= 2 by {
            assert(init[i] == cs[i]);
            if j < cs.len() - 1 {
                assert(init[j] == cs[j]);
            } else {
                assert(n.contains(init[i]->Image_0@));
            }
        }
    } else {
        assert(image_names(cs).len() == 0);
    }
}

} // verus!
