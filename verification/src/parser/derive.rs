//! Reading a struct that derives a container: its container attribute,
//! its fields and their attributes.
//!
//! The front end hands the struct over as plain data: the names and
//! argument texts of its attributes, and for each field its name, the
//! shape of its type and its attributes.

use vstd::prelude::*;
use crate::parser::attribute::{
    parse_properties, properties_spec, properties_view, word_is, ParseError, Property,
    PropertyView,
};
use crate::parser::lexer::{lex, lex_spec, Token, TokenView};
use crate::parser::model::{
    Command, FieldAttribute, FieldAttributeView, FieldType, HealthCheck, Model, ModelField,
    ModelFieldView, ModelView, WaitLog, WaitTime,
};
use crate::text::{all_digits, digits_value, parse_decimal_u64};

verus! {

// ------------------------------------------------------------------ input

/// An attribute: the last segment of its path and, when its arguments
/// stand in parentheses, their text.
#[derive(Debug)]
pub struct AttributeInput {
    pub name: String,
    pub arguments: Option<String>,
}

pub struct AttributeInputView {
    pub name: Seq<char>,
    pub arguments: Option<Seq<char>>,
}

impl View for AttributeInput {
    type V = AttributeInputView;

    open spec fn view(&self) -> AttributeInputView {
        AttributeInputView {
            name: self.name@,
            arguments: match &self.arguments {
                Some(a) => Some(a@),
                None => None,
            },
        }
    }
}

impl DeepView for AttributeInput {
    type V = AttributeInputView;

    open spec fn deep_view(&self) -> AttributeInputView {
        self@
    }
}

/// The shape of a field's type.
#[derive(Debug)]
pub enum TypeShape {
    /// A path type: its first segment, and whether that segment's first
    /// generic argument is itself a path type.
    Path { first_segment: Option<String>, generic_argument_is_path: bool },
    /// Any other type (a reference, a tuple, an array, ...).
    Other,
}

pub enum TypeShapeView {
    Path { first_segment: Option<Seq<char>>, generic_argument_is_path: bool },
    Other,
}

impl View for TypeShape {
    type V = TypeShapeView;

    open spec fn view(&self) -> TypeShapeView {
        match self {
            TypeShape::Path { first_segment, generic_argument_is_path } => TypeShapeView::Path {
                first_segment: match first_segment {
                    Some(s) => Some(s@),
                    None => None,
                },
                generic_argument_is_path: *generic_argument_is_path,
            },
            TypeShape::Other => TypeShapeView::Other,
        }
    }
}

/// A named field of the struct.
#[derive(Debug)]
pub struct FieldInput {
    pub name: String,
    pub ty: TypeShape,
    pub attributes: Vec<AttributeInput>,
}

pub struct FieldInputView {
    pub name: Seq<char>,
    pub ty: TypeShapeView,
    pub attributes: Seq<AttributeInputView>,
}

impl View for FieldInput {
    type V = FieldInputView;

    open spec fn view(&self) -> FieldInputView {
        FieldInputView { name: self.name@, ty: self.ty@, attributes: self.attributes.deep_view() }
    }
}

impl DeepView for FieldInput {
    type V = FieldInputView;

    open spec fn deep_view(&self) -> FieldInputView {
        self@
    }
}

/// The struct that derives a container.
#[derive(Debug)]
pub struct DeriveInput {
    pub struct_name: String,
    pub attributes: Vec<AttributeInput>,
    pub fields: Vec<FieldInput>,
}

pub struct DeriveInputView {
    pub struct_name: Seq<char>,
    pub attributes: Seq<AttributeInputView>,
    pub fields: Seq<FieldInputView>,
}

impl View for DeriveInput {
    type V = DeriveInputView;

    open spec fn view(&self) -> DeriveInputView {
        DeriveInputView {
            struct_name: self.struct_name@,
            attributes: self.attributes.deep_view(),
            fields: self.fields.deep_view(),
        }
    }
}

// ------------------------------------------------------------------ container attribute

pub open spec fn is_container_attribute(a: AttributeInputView) -> bool {
    a.name == "container"@
}

/// How many of `attrs` are named `container`.
pub open spec fn container_count(attrs: Seq<AttributeInputView>) -> nat
    decreases attrs.len(),
{
    if attrs.len() == 0 {
        0
    } else {
        container_count(attrs.drop_last()) + if is_container_attribute(attrs.last()) { 1nat } else { 0nat }
    }
}

/// The position of the one attribute named `container`. With none, the
/// error is `MissingContainerAttribute`; with `n` of them for `n` at least
/// two, it is one duplicate error for each of the `n - 1` after the first.
pub fn get_container_attribute(attrs: &Vec<AttributeInput>) -> (r: Result<usize, ParseError>)
    ensures
        container_count(attrs.deep_view()) == 0 <==> r == Err::<usize, ParseError>(ParseError::MissingContainerAttribute),
        container_count(attrs.deep_view()) == 1 <==> r is Ok,
        container_count(attrs.deep_view()) >= 2 ==> r == Err::<usize, ParseError>(
            ParseError::DuplicateContainerAttribute { extra: (container_count(attrs.deep_view()) - 1) as usize },
        ),
        r matches Ok(i) ==> i < attrs.len() && is_container_attribute(attrs[i as int]@)
            && forall|j: int| 0 <= j < attrs.len() && j != i ==> !is_container_attribute(#[trigger] attrs[j]@),
{
    let ghost v = attrs.deep_view();
    assert forall|j: int| 0 <= j < attrs.len() implies v[j] == #[trigger] attrs[j]@ by {}
    let mut found: Option<usize> = None;
    let mut count: usize = 0;
    let mut i: usize = 0;
    while i < attrs.len()
        invariant
            i <= attrs.len(),
            v == attrs.deep_view(),
            v.len() == attrs.len(),
            forall|j: int| 0 <= j < attrs.len() ==> v[j] == #[trigger] attrs[j]@,
            count == container_count(v.take(i as int)),
            count <= i,
            count == 0 <==> found is None,
            found matches Some(f) ==> f < i && is_container_attribute(attrs[f as int]@),
            count == 1 ==> (found matches Some(f)
                && forall|j: int| 0 <= j < i && j != f ==> !is_container_attribute(#[trigger] attrs[j]@)),
            count == 0 ==> forall|j: int| 0 <= j < i ==> !is_container_attribute(#[trigger] attrs[j]@),
        decreases attrs.len() - i,
    {
        proof {
            assert(v.take(i + 1).drop_last() =~= v.take(i as int));
            assert(v.take(i + 1).last() == attrs[i as int]@);
        }
        if word_is(&attrs[i].name, "container") {
            if count == 0 {
                found = Some(i);
            }
            count = count + 1;
        }
        i = i + 1;
    }
    assert(v.take(i as int) =~= v);
    if count > 1 {
        Err(ParseError::DuplicateContainerAttribute { extra: count - 1 })
    } else {
        match found {
            Some(f) => Ok(f),
            None => Err(ParseError::MissingContainerAttribute),
        }
    }
}

/// The properties of the container attribute of `attrs`.
pub open spec fn container_properties_spec(attrs: Seq<AttributeInputView>) -> Result<Seq<PropertyView>, ParseError> {
    let n = container_count(attrs);
    if n == 0 {
        Err(ParseError::MissingContainerAttribute)
    } else if n >= 2 {
        Err(ParseError::DuplicateContainerAttribute { extra: (n - 1) as usize })
    } else {
        let i = choose|i: int| 0 <= i < attrs.len() && is_container_attribute(attrs[i]);
        match attrs[i].arguments {
            None => Err(ParseError::MissingArguments),
            Some(text) => properties_spec(text),
        }
    }
}

/// Reads the properties of the struct's one container attribute.
pub fn parse_container_properties(input: &DeriveInput) -> (r: Result<Vec<Property>, ParseError>)
    ensures
        properties_view(r) == container_properties_spec(input@.attributes),
{
    let ghost attrs = input@.attributes;
    assert forall|j: int| 0 <= j < attrs.len() implies attrs[j] == #[trigger] input.attributes[j]@ by {}
    match get_container_attribute(&input.attributes) {
        Err(e) => Err(e),
        Ok(i) => {
            proof {
                assert(attrs[i as int] == input.attributes[i as int]@);
                assert(is_container_attribute(attrs[i as int]));
                assert forall|j: int| 0 <= j < attrs.len() && j != i implies !is_container_attribute(#[trigger] attrs[j]) by {
                    assert(attrs[j] == input.attributes[j]@);
                }
                let c = choose|c: int| 0 <= c < attrs.len() && is_container_attribute(attrs[c]);
                assert(c == i);
            }
            match &input.attributes[i].arguments {
                None => Err(ParseError::MissingArguments),
                Some(text) => parse_properties(text.as_str()),
            }
        },
    }
}

// ------------------------------------------------------------------ properties

/// The kinds of properties.
#[derive(Debug, PartialEq, Eq, Structural)]
pub enum PropertyKind {
    Command,
    HealthCheckCommand,
    HealthCheckTimeout,
    Image,
    Ports,
    WaitTime,
    WaitLog,
}

pub open spec fn kind_of(p: PropertyView) -> PropertyKind {
    match p {
        PropertyView::Command(_) => PropertyKind::Command,
        PropertyView::HealthCheckCommand(_) => PropertyKind::HealthCheckCommand,
        PropertyView::HealthCheckTimeout(_) => PropertyKind::HealthCheckTimeout,
        PropertyView::Image(_) => PropertyKind::Image,
        PropertyView::Ports(_) => PropertyKind::Ports,
        PropertyView::WaitTime(_) => PropertyKind::WaitTime,
        PropertyView::WaitLog(_) => PropertyKind::WaitLog,
    }
}

/// The first property of a kind; later ones of the same kind are ignored.
pub open spec fn first_of(ps: Seq<PropertyView>, kind: PropertyKind) -> Option<PropertyView>
    decreases ps.len(),
{
    if ps.len() == 0 {
        None
    } else if kind_of(ps[0]) == kind {
        Some(ps[0])
    } else {
        first_of(ps.drop_first(), kind)
    }
}

fn kind_exec(p: &Property) -> (k: PropertyKind)
    ensures
        k == kind_of(p@),
{
    match p {
        Property::Command(_) => PropertyKind::Command,
        Property::HealthCheckCommand(_) => PropertyKind::HealthCheckCommand,
        Property::HealthCheckTimeout(_) => PropertyKind::HealthCheckTimeout,
        Property::Image(_) => PropertyKind::Image,
        Property::Ports(_) => PropertyKind::Ports,
        Property::WaitTime(_) => PropertyKind::WaitTime,
        Property::WaitLog(_) => PropertyKind::WaitLog,
    }
}

/// The position of the first property of `kind`.
fn find_first(ps: &Vec<Property>, kind: PropertyKind) -> (r: Option<usize>)
    ensures
        match r {
            Some(i) => i < ps.len() && first_of(ps.deep_view(), kind) == Some(ps[i as int]@),
            None => first_of(ps.deep_view(), kind) is None,
        },
{
    let ghost all = ps.deep_view();
    let mut i: usize = 0;
    assert(all.skip(0) =~= all);
    while i < ps.len()
        invariant
            i <= ps.len(),
            all == ps.deep_view(),
            first_of(all, kind) == first_of(all.skip(i as int), kind),
        decreases ps.len() - i,
    {
        assert(all.skip(i as int)[0] == ps[i as int]@);
        if kind_exec(&ps[i]) == kind {
            return Some(i);
        }
        assert(all.skip(i as int).drop_first() =~= all.skip(i + 1));
        i = i + 1;
    }
    assert(all.skip(i as int).len() == 0);
    None
}

pub open spec fn image_of(ps: Seq<PropertyView>) -> Option<Seq<char>> {
    match first_of(ps, PropertyKind::Image) {
        Some(PropertyView::Image(v)) => Some(v),
        _ => None,
    }
}

pub open spec fn health_check_of(ps: Seq<PropertyView>) -> Option<Seq<char>> {
    match first_of(ps, PropertyKind::HealthCheckCommand) {
        Some(PropertyView::HealthCheckCommand(v)) => Some(v),
        _ => None,
    }
}

pub open spec fn command_of(ps: Seq<PropertyView>) -> Option<Seq<Seq<char>>> {
    match first_of(ps, PropertyKind::Command) {
        Some(PropertyView::Command(v)) => Some(v),
        _ => None,
    }
}

pub open spec fn wait_log_of(ps: Seq<PropertyView>) -> Option<Seq<char>> {
    match first_of(ps, PropertyKind::WaitLog) {
        Some(PropertyView::WaitLog(v)) => Some(v),
        _ => None,
    }
}

/// The wait time: the first `wait_time` property read as milliseconds.
pub open spec fn wait_time_of(ps: Seq<PropertyView>) -> Result<Option<u64>, ParseError> {
    match first_of(ps, PropertyKind::WaitTime) {
        Some(PropertyView::WaitTime(d)) => if d.len() > 0 && all_digits(d) && digits_value(d) <= u64::MAX {
            Ok(Some(digits_value(d) as u64))
        } else {
            Err(ParseError::IntegerOutOfRange)
        },
        _ => Ok(None),
    }
}

/// The image of the first `image` property.
pub fn get_image_name(ps: &Vec<Property>) -> (r: Option<String>)
    ensures
        match r { Some(s) => Some(s@), None => None } == image_of(ps.deep_view()),
{
    match find_first(ps, PropertyKind::Image) {
        Some(i) => match &ps[i] {
            Property::Image(v) => Some(v.clone()),
            _ => None,
        },
        None => None,
    }
}

/// The health check of the first `health_check_command` property.
pub fn get_health_check_command(ps: &Vec<Property>) -> (r: Option<HealthCheck>)
    ensures
        match r { Some(HealthCheck::Command(s)) => Some(s@), None => None } == health_check_of(ps.deep_view()),
{
    match find_first(ps, PropertyKind::HealthCheckCommand) {
        Some(i) => match &ps[i] {
            Property::HealthCheckCommand(v) => Some(HealthCheck::Command(v.clone())),
            _ => None,
        },
        None => None,
    }
}

/// The command of the first `command` property.
pub fn get_command(ps: &Vec<Property>) -> (r: Option<Command>)
    ensures
        match r { Some(c) => Some(c.args.deep_view()), None => None } == command_of(ps.deep_view()),
{
    match find_first(ps, PropertyKind::Command) {
        Some(i) => match &ps[i] {
            Property::Command(v) => Some(Command { args: crate::container::clone_strings(v) }),
            _ => None,
        },
        None => None,
    }
}

/// The message of the first `wait_log` property.
pub fn get_wait_log(ps: &Vec<Property>) -> (r: Option<WaitLog>)
    ensures
        match r { Some(w) => Some(w.message@), None => None } == wait_log_of(ps.deep_view()),
{
    match find_first(ps, PropertyKind::WaitLog) {
        Some(i) => match &ps[i] {
            Property::WaitLog(v) => Some(WaitLog { message: v.clone() }),
            _ => None,
        },
        None => None,
    }
}

/// The wait time of the first `wait_time` property, in milliseconds.
pub fn get_wait_time(ps: &Vec<Property>) -> (r: Result<Option<WaitTime>, ParseError>)
    ensures
        match r {
            Ok(Some(w)) => Ok(Some(w.time)),
            Ok(None) => Ok(None),
            Err(e) => Err(e),
        } == wait_time_of(ps.deep_view()),
{
    match find_first(ps, PropertyKind::WaitTime) {
        Some(i) => match &ps[i] {
            Property::WaitTime(d) => match parse_decimal_u64(d) {
                Some(ms) => Ok(Some(WaitTime { time: ms })),
                None => Err(ParseError::IntegerOutOfRange),
            },
            _ => Ok(None),
        },
        None => Ok(None),
    }
}

// ------------------------------------------------------------------ fields

/// The literal of a field attribute.
#[derive(Debug)]
pub enum LiteralValue {
    Str(String),
    /// The digits of an integer literal.
    Int(String),
    /// `true` or `false`.
    Bool(bool),
}

pub enum LiteralValueView {
    Str(Seq<char>),
    Int(Seq<char>),
    Bool(bool),
}

/// A field attribute's arguments `ident = literal`.
#[derive(Debug)]
pub struct FieldProperty {
    pub ident: String,
    pub value: LiteralValue,
}

pub struct FieldPropertyView {
    pub ident: Seq<char>,
    pub value: LiteralValueView,
}

impl View for FieldProperty {
    type V = FieldPropertyView;

    open spec fn view(&self) -> FieldPropertyView {
        FieldPropertyView {
            ident: self.ident@,
            value: match &self.value {
                LiteralValue::Str(s) => LiteralValueView::Str(s@),
                LiteralValue::Int(s) => LiteralValueView::Int(s@),
                LiteralValue::Bool(b) => LiteralValueView::Bool(*b),
            },
        }
    }
}

impl DeepView for FieldProperty {
    type V = FieldPropertyView;

    open spec fn deep_view(&self) -> FieldPropertyView {
        self@
    }
}

/// The boolean literal a token is, if it is one.
pub open spec fn bool_literal(t: TokenView) -> Option<bool> {
    match t {
        TokenView::Ident(w) => if w == "true"@ {
            Some(true)
        } else if w == "false"@ {
            Some(false)
        } else {
            None
        },
        _ => None,
    }
}

/// `ident = literal`, and nothing after it; a literal is a string, an
/// integer, `true` or `false`.
pub open spec fn field_property_tokens(ts: Seq<TokenView>) -> Result<FieldPropertyView, ParseError> {
    if !(ts.len() > 0 && ts[0] is Ident) {
        Err(crate::parser::attribute::missing_at(ts, 0))
    } else if !crate::parser::attribute::is_punct_at(ts, 1, '=') {
        Err(crate::parser::attribute::missing_at(ts, 1))
    } else if !(ts.len() > 2 && (ts[2] is Str || ts[2] is Int || bool_literal(ts[2]) is Some)) {
        Err(crate::parser::attribute::missing_at(ts, 2))
    } else if ts.len() > 3 {
        Err(ParseError::UnexpectedToken)
    } else {
        Ok(FieldPropertyView {
            ident: ts[0]->Ident_0,
            value: match ts[2] {
                TokenView::Str(v) => LiteralValueView::Str(v),
                TokenView::Int(v) => LiteralValueView::Int(v),
                _ => LiteralValueView::Bool(bool_literal(ts[2])->0),
            },
        })
    }
}

/// The field property one attribute of a field holds.
pub open spec fn field_property_spec(a: AttributeInputView) -> Result<FieldPropertyView, ParseError> {
    match a.arguments {
        None => Err(ParseError::MissingArguments),
        Some(text) => match lex_spec(text) {
            Err(e) => Err(ParseError::Lex(e)),
            Ok(ts) => field_property_tokens(ts),
        },
    }
}

/// Reads the arguments of one field attribute.
pub fn parse_field_property(attribute: &AttributeInput) -> (r: Result<FieldProperty, ParseError>)
    ensures
        match r { Ok(p) => Ok(p@), Err(e) => Err(e) } == field_property_spec(attribute@),
{
    let text = match &attribute.arguments {
        None => {
            return Err(ParseError::MissingArguments);
        },
        Some(t) => t,
    };
    let ts = match lex(text.as_str()) {
        Err(e) => {
            return Err(ParseError::Lex(e));
        },
        Ok(ts) => ts,
    };
    let ghost tv = ts.deep_view();
    if ts.len() == 0 {
        return Err(ParseError::UnexpectedEnd);
    }
    let ident = match &ts[0] {
        Token::Ident(w) => w.clone(),
        _ => {
            return Err(ParseError::UnexpectedToken);
        },
    };
    if ts.len() < 2 {
        return Err(ParseError::UnexpectedEnd);
    }
    match &ts[1] {
        Token::Punct(c) => {
            if *c != '=' {
                return Err(ParseError::UnexpectedToken);
            }
        },
        _ => {
            return Err(ParseError::UnexpectedToken);
        },
    }
    if ts.len() < 3 {
        return Err(ParseError::UnexpectedEnd);
    }
    let value = match &ts[2] {
        Token::Str(v) => LiteralValue::Str(v.clone()),
        Token::Int(v) => LiteralValue::Int(v.clone()),
        Token::Ident(w) => {
            if word_is(w, "true") {
                LiteralValue::Bool(true)
            } else if word_is(w, "false") {
                LiteralValue::Bool(false)
            } else {
                return Err(ParseError::UnexpectedToken);
            }
        },
        _ => {
            return Err(ParseError::UnexpectedToken);
        },
    };
    if ts.len() > 3 {
        return Err(ParseError::UnexpectedToken);
    }
    Ok(FieldProperty { ident, value })
}

pub open spec fn props_view(r: Result<Vec<FieldProperty>, ParseError>) -> Result<Seq<FieldPropertyView>, ParseError> {
    match r {
        Ok(v) => Ok(v.deep_view()),
        Err(e) => Err(e),
    }
}

/// The field properties of the attributes from `i` on; the first failure
/// is the result.
pub open spec fn field_properties_from(attrs: Seq<AttributeInputView>, i: int) -> Result<Seq<FieldPropertyView>, ParseError>
    decreases attrs.len() - i,
{
    if i < 0 || i >= attrs.len() {
        Ok(Seq::empty())
    } else {
        match field_property_spec(attrs[i]) {
            Err(e) => Err(e),
            Ok(p) => match field_properties_from(attrs, i + 1) {
                Err(e) => Err(e),
                Ok(rest) => Ok(seq![p] + rest),
            },
        }
    }
}

fn parse_field_from(attrs: &Vec<AttributeInput>, i: usize) -> (r: Result<Vec<FieldProperty>, ParseError>)
    requires
        i <= attrs.len(),
    ensures
        props_view(r) == field_properties_from(attrs.deep_view(), i as int),
    decreases attrs.len() - i,
{
    if i >= attrs.len() {
        let v: Vec<FieldProperty> = Vec::new();
        assert(v.deep_view() =~= Seq::<FieldPropertyView>::empty());
        return Ok(v);
    }
    assert(attrs.deep_view()[i as int] == attrs[i as int]@);
    match parse_field_property(&attrs[i]) {
        Err(e) => Err(e),
        Ok(p) => match parse_field_from(attrs, i + 1) {
            Err(e) => Err(e),
            Ok(rest) => {
                let mut v = rest;
                let ghost old_v = v.deep_view();
                let ghost pv = p@;
                v.insert(0, p);
                assert(v.deep_view() =~= seq![pv] + old_v);
                Ok(v)
            },
        },
    }
}

/// Reads the arguments of every attribute of a field.
pub fn parse_field(field: &FieldInput) -> (r: Result<Vec<FieldProperty>, ParseError>)
    ensures
        props_view(r) == field_properties_from(field@.attributes, 0),
{
    parse_field_from(&field.attributes, 0)
}

/// What one field property asks for.
pub open spec fn field_attribute_spec(p: FieldPropertyView) -> Result<FieldAttributeView, ParseError> {
    if p.ident == "env_var"@ {
        match p.value {
            LiteralValueView::Str(v) => Ok(FieldAttributeView::EnvVar(v)),
            _ => Err(ParseError::ExpectedStringLiteral),
        }
    } else if p.ident == "arg"@ {
        match p.value {
            LiteralValueView::Str(v) => Ok(FieldAttributeView::Arg(v)),
            _ => Err(ParseError::ExpectedStringLiteral),
        }
    } else if p.ident == "port"@ {
        match p.value {
            LiteralValueView::Int(d) => if d.len() > 0 && all_digits(d) && digits_value(d) <= u32::MAX {
                Ok(FieldAttributeView::Port(digits_value(d) as u32))
            } else {
                Err(ParseError::IntegerOutOfRange)
            },
            _ => Err(ParseError::ExpectedIntegerLiteral),
        }
    } else {
        Err(ParseError::UnknownFieldAttribute)
    }
}

fn field_attribute(p: &FieldProperty) -> (r: Result<FieldAttribute, ParseError>)
    ensures
        match r { Ok(a) => Ok(a@), Err(e) => Err(e) } == field_attribute_spec(p@),
{
    if word_is(&p.ident, "env_var") {
        match &p.value {
            LiteralValue::Str(v) => Ok(FieldAttribute::EnvVar(v.clone())),
            _ => Err(ParseError::ExpectedStringLiteral),
        }
    } else if word_is(&p.ident, "arg") {
        match &p.value {
            LiteralValue::Str(v) => Ok(FieldAttribute::Arg(v.clone())),
            _ => Err(ParseError::ExpectedStringLiteral),
        }
    } else if word_is(&p.ident, "port") {
        match &p.value {
            LiteralValue::Int(d) => match parse_decimal_u64(d) {
                Some(n) => if n <= 4294967295u64 {
                    Ok(FieldAttribute::Port(n as u32))
                } else {
                    Err(ParseError::IntegerOutOfRange)
                },
                None => Err(ParseError::IntegerOutOfRange),
            },
            _ => Err(ParseError::ExpectedIntegerLiteral),
        }
    } else {
        Err(ParseError::UnknownFieldAttribute)
    }
}

/// The kind of a field's type: a path type whose first segment has no
/// path type as generic argument is plain; one that has is an `Option`
/// if the segment is `Option`; anything else is refused.
pub open spec fn field_type_spec(ty: TypeShapeView) -> Result<FieldType, ParseError> {
    match ty {
        TypeShapeView::Path { first_segment: Some(seg), generic_argument_is_path } => if !generic_argument_is_path {
            Ok(FieldType::Simple)
        } else if seg == "Option"@ {
            Ok(FieldType::Option)
        } else {
            Err(ParseError::UnsupportedFieldType)
        },
        _ => Err(ParseError::UnsupportedFieldType),
    }
}

/// The kind of a field's type.
pub fn parse_field_type(ty: &TypeShape) -> (r: Result<FieldType, ParseError>)
    ensures
        r == field_type_spec(ty@),
{
    match ty {
        TypeShape::Path { first_segment: Some(seg), generic_argument_is_path } => {
            if !*generic_argument_is_path {
                Ok(FieldType::Simple)
            } else if word_is(seg, "Option") {
                Ok(FieldType::Option)
            } else {
                Err(ParseError::UnsupportedFieldType)
            }
        },
        _ => Err(ParseError::UnsupportedFieldType),
    }
}

/// The attributes of a field's properties from `i` on.
pub open spec fn field_attributes_from(ps: Seq<FieldPropertyView>, i: int) -> Result<Seq<FieldAttributeView>, ParseError>
    decreases ps.len() - i,
{
    if i < 0 || i >= ps.len() {
        Ok(Seq::empty())
    } else {
        match field_attribute_spec(ps[i]) {
            Err(e) => Err(e),
            Ok(a) => match field_attributes_from(ps, i + 1) {
                Err(e) => Err(e),
                Ok(rest) => Ok(seq![a] + rest),
            },
        }
    }
}

/// The model of a field: its attributes in order, then its type.
pub open spec fn model_field_spec(field: FieldInputView, ps: Seq<FieldPropertyView>) -> Result<ModelFieldView, ParseError> {
    match field_attributes_from(ps, 0) {
        Err(e) => Err(e),
        Ok(attributes) => match field_type_spec(field.ty) {
            Err(e) => Err(e),
            Ok(ty) => Ok(ModelFieldView { name: field.name, ty, attributes }),
        },
    }
}

fn field_attributes_exec(ps: &Vec<FieldProperty>, i: usize) -> (r: Result<Vec<FieldAttribute>, ParseError>)
    requires
        i <= ps.len(),
    ensures
        match r { Ok(v) => Ok(v.deep_view()), Err(e) => Err(e) } == field_attributes_from(ps.deep_view(), i as int),
    decreases ps.len() - i,
{
    if i >= ps.len() {
        let v: Vec<FieldAttribute> = Vec::new();
        assert(v.deep_view() =~= Seq::<FieldAttributeView>::empty());
        return Ok(v);
    }
    assert(ps.deep_view()[i as int] == ps[i as int]@);
    match field_attribute(&ps[i]) {
        Err(e) => Err(e),
        Ok(a) => match field_attributes_exec(ps, i + 1) {
            Err(e) => Err(e),
            Ok(rest) => {
                let mut v = rest;
                let ghost old_v = v.deep_view();
                let ghost av = a@;
                v.insert(0, a);
                assert(v.deep_view() =~= seq![av] + old_v);
                Ok(v)
            },
        },
    }
}

/// The model of a field from its properties.
pub fn to_model_field(field: &FieldInput, ps: &Vec<FieldProperty>) -> (r: Result<ModelField, ParseError>)
    ensures
        match r { Ok(m) => Ok(m@), Err(e) => Err(e) } == model_field_spec(field@, ps.deep_view()),
{
    let attributes = match field_attributes_exec(ps, 0) {
        Err(e) => {
            return Err(e);
        },
        Ok(a) => a,
    };
    let ty = match parse_field_type(&field.ty) {
        Err(e) => {
            return Err(e);
        },
        Ok(t) => t,
    };
    Ok(ModelField { name: field.name.clone(), ty, attributes })
}

// ------------------------------------------------------------------ model

/// The properties of every field from `i` on; the first failure is the
/// result.
pub open spec fn all_field_properties(fields: Seq<FieldInputView>, i: int) -> Result<Seq<Seq<FieldPropertyView>>, ParseError>
    decreases fields.len() - i,
{
    if i < 0 || i >= fields.len() {
        Ok(Seq::empty())
    } else {
        match field_properties_from(fields[i].attributes, 0) {
            Err(e) => Err(e),
            Ok(p) => match all_field_properties(fields, i + 1) {
                Err(e) => Err(e),
                Ok(rest) => Ok(seq![p] + rest),
            },
        }
    }
}

/// The models of the fields from `i` on; the first failure is the result.
pub open spec fn model_fields_from(
    fields: Seq<FieldInputView>,
    pss: Seq<Seq<FieldPropertyView>>,
    i: int,
) -> Result<Seq<ModelFieldView>, ParseError>
    decreases fields.len() - i,
{
    if i < 0 || i >= fields.len() || i >= pss.len() {
        Ok(Seq::empty())
    } else {
        match model_field_spec(fields[i], pss[i]) {
            Err(e) => Err(e),
            Ok(m) => match model_fields_from(fields, pss, i + 1) {
                Err(e) => Err(e),
                Ok(rest) => Ok(seq![m] + rest),
            },
        }
    }
}

/// The model of a struct whose container properties are `ps`: the wait
/// time is read first, then the attributes of every field, then each
/// field's model in turn.
pub open spec fn model_spec(input: DeriveInputView, ps: Seq<PropertyView>) -> Result<ModelView, ParseError> {
    match wait_time_of(ps) {
        Err(e) => Err(e),
        Ok(wait_time) => match all_field_properties(input.fields, 0) {
            Err(e) => Err(e),
            Ok(pss) => match model_fields_from(input.fields, pss, 0) {
                Err(e) => Err(e),
                Ok(fields) => Ok(ModelView {
                    struct_name: input.struct_name,
                    image: image_of(ps)->Some_0,
                    command: command_of(ps),
                    health_check: health_check_of(ps),
                    wait_time,
                    wait_log: wait_log_of(ps),
                    fields,
                }),
            },
        },
    }
}

fn parse_fields_from(fields: &Vec<FieldInput>, i: usize) -> (r: Result<Vec<Vec<FieldProperty>>, ParseError>)
    requires
        i <= fields.len(),
    ensures
        match r { Ok(v) => Ok(v.deep_view()), Err(e) => Err(e) } == all_field_properties(fields.deep_view(), i as int),
    decreases fields.len() - i,
{
    if i >= fields.len() {
        let v: Vec<Vec<FieldProperty>> = Vec::new();
        assert(v.deep_view() =~= Seq::<Seq<FieldPropertyView>>::empty());
        return Ok(v);
    }
    assert(fields.deep_view()[i as int] == fields[i as int]@);
    match parse_field(&fields[i]) {
        Err(e) => Err(e),
        Ok(p) => match parse_fields_from(fields, i + 1) {
            Err(e) => Err(e),
            Ok(rest) => {
                let mut v = rest;
                let ghost old_v = v.deep_view();
                let ghost pv = p.deep_view();
                v.insert(0, p);
                assert(v.deep_view() =~= seq![pv] + old_v);
                Ok(v)
            },
        },
    }
}

fn model_fields_exec(fields: &Vec<FieldInput>, pss: &Vec<Vec<FieldProperty>>, i: usize) -> (r: Result<Vec<ModelField>, ParseError>)
    requires
        i <= fields.len(),
    ensures
        match r { Ok(v) => Ok(v.deep_view()), Err(e) => Err(e) }
            == model_fields_from(fields.deep_view(), pss.deep_view(), i as int),
    decreases fields.len() - i,
{
    if i >= fields.len() || i >= pss.len() {
        let v: Vec<ModelField> = Vec::new();
        assert(v.deep_view() =~= Seq::<ModelFieldView>::empty());
        return Ok(v);
    }
    assert(fields.deep_view()[i as int] == fields[i as int]@);
    assert(pss.deep_view()[i as int] == pss[i as int].deep_view());
    match to_model_field(&fields[i], &pss[i]) {
        Err(e) => Err(e),
        Ok(m) => match model_fields_exec(fields, pss, i + 1) {
            Err(e) => Err(e),
            Ok(rest) => {
                let mut v = rest;
                let ghost old_v = v.deep_view();
                let ghost mv = m@;
                v.insert(0, m);
                assert(v.deep_view() =~= seq![mv] + old_v);
                Ok(v)
            },
        },
    }
}

/// Builds the model of a struct from its container properties `ps`,
/// which must name an image.
pub fn parse_derive_input(input: &DeriveInput, ps: &Vec<Property>) -> (r: Result<Model, ParseError>)
    requires
        image_of(ps.deep_view()) is Some,
    ensures
        match r { Ok(m) => Ok(m@), Err(e) => Err(e) } == model_spec(input@, ps.deep_view()),
{
    let image = match get_image_name(ps) {
        Some(i) => i,
        None => {
            assert(false);
            String::new()
        },
    };
    let health_check = get_health_check_command(ps);
    let command = get_command(ps);
    let wait_time = match get_wait_time(ps) {
        Err(e) => {
            return Err(e);
        },
        Ok(w) => w,
    };
    let wait_log = get_wait_log(ps);
    let pss = match parse_fields_from(&input.fields, 0) {
        Err(e) => {
            return Err(e);
        },
        Ok(p) => p,
    };
    let fields = match model_fields_exec(&input.fields, &pss, 0) {
        Err(e) => {
            return Err(e);
        },
        Ok(f) => f,
    };
    Ok(Model {
        struct_name: input.struct_name.clone(),
        image,
        command,
        health_check,
        wait_time,
        wait_log,
        fields,
    })
}

/// Reads a struct that derives a container: its container attribute's
/// properties, then (when they name an image) its model. `Ok(None)`
/// stands for properties that name no image.
pub fn parse_container(input: &DeriveInput) -> (r: Result<Option<Model>, ParseError>)
    ensures
        match container_properties_spec(input@.attributes) {
            Err(e) => r == Err::<Option<Model>, ParseError>(e),
            Ok(ps) => if image_of(ps) is None {
                r matches Ok(None)
            } else {
                match (r, model_spec(input@, ps)) {
                    (Ok(Some(m)), Ok(sm)) => m@ == sm,
                    (Err(e), Err(se)) => e == se,
                    _ => false,
                }
            },
        },
{
    let ps = match parse_container_properties(input) {
        Err(e) => {
            return Err(e);
        },
        Ok(ps) => ps,
    };
    match get_image_name(&ps) {
        None => Ok(None),
        Some(_) => match parse_derive_input(input, &ps) {
            Err(e) => Err(e),
            Ok(m) => Ok(Some(m)),
        },
    }
}

// ------------------------------------------------------------------ laws

/// Position `i` holds the first property of `kind`.
pub open spec fn is_first_of_kind(ps: Seq<PropertyView>, kind: PropertyKind, i: int) -> bool {
    &&& 0 <= i < ps.len()
    &&& kind_of(ps[i]) == kind
    &&& forall|j: int| 0 <= j < i ==> kind_of(#[trigger] ps[j]) != kind
}

/// The property of a kind that counts is the first of that kind: earlier
/// properties are of other kinds, later ones of the same kind are ignored;
/// there is none exactly when no property is of that kind.
pub proof fn lemma_first_property_counts(ps: Seq<PropertyView>, kind: PropertyKind)
    ensures
        first_of(ps, kind) matches Some(p) ==> exists|i: int| is_first_of_kind(ps, kind, i) && ps[i] == p,
        first_of(ps, kind) is None <==> forall|i: int| 0 <= i < ps.len() ==> kind_of(#[trigger] ps[i]) != kind,
    decreases ps.len(),
{
    if ps.len() > 0 {
        let rest = ps.drop_first();
        lemma_first_property_counts(rest, kind);
        if kind_of(ps[0]) == kind {
            assert(is_first_of_kind(ps, kind, 0));
        } else {
            match first_of(rest, kind) {
                Some(p) => {
                    let i = choose|i: int| is_first_of_kind(rest, kind, i) && rest[i] == p;
                    assert forall|j: int| 0 <= j < i + 1 implies kind_of(#[trigger] ps[j]) != kind by {
                        if j > 0 {
                            assert(ps[j] == rest[j - 1]);
                        }
                    }
                    assert(is_first_of_kind(ps, kind, i + 1));
                },
                None => {
                    assert forall|i: int| 0 <= i < ps.len() implies kind_of(#[trigger] ps[i]) != kind by {
                        if i > 0 {
                            assert(ps[i] == rest[i - 1]);
                        }
                    }
                },
            }
        }
        if forall|i: int| 0 <= i < ps.len() ==> kind_of(#[trigger] ps[i]) != kind {
            assert(kind_of(ps[0]) != kind);
            assert forall|i: int| 0 <= i < rest.len() implies kind_of(#[trigger] rest[i]) != kind by {
                assert(rest[i] == ps[i + 1]);
            }
        }
    }
}

/// The image, health check command, command and log message of a
/// description are the values of the first property of their kind.
pub proof fn lemma_values_of_first_properties(ps: Seq<PropertyView>)
    ensures
        image_of(ps) matches Some(v) ==> exists|i: int| is_first_of_kind(ps, PropertyKind::Image, i)
            && ps[i] == PropertyView::Image(v),
        image_of(ps) is None ==> forall|i: int| 0 <= i < ps.len() ==> !(#[trigger] ps[i] is Image),
        health_check_of(ps) matches Some(v) ==> exists|i: int| is_first_of_kind(ps, PropertyKind::HealthCheckCommand, i)
            && ps[i] == PropertyView::HealthCheckCommand(v),
        command_of(ps) matches Some(v) ==> exists|i: int| is_first_of_kind(ps, PropertyKind::Command, i)
            && ps[i] == PropertyView::Command(v),
        wait_log_of(ps) matches Some(v) ==> exists|i: int| is_first_of_kind(ps, PropertyKind::WaitLog, i)
            && ps[i] == PropertyView::WaitLog(v),
{
    lemma_first_property_counts(ps, PropertyKind::Image);
    lemma_first_property_counts(ps, PropertyKind::HealthCheckCommand);
    lemma_first_property_counts(ps, PropertyKind::Command);
    lemma_first_property_counts(ps, PropertyKind::WaitLog);
    lemma_first_kind_matches(ps, PropertyKind::Image);
    lemma_first_kind_matches(ps, PropertyKind::HealthCheckCommand);
    lemma_first_kind_matches(ps, PropertyKind::Command);
    lemma_first_kind_matches(ps, PropertyKind::WaitLog);
    if image_of(ps) is None {
        assert forall|i: int| 0 <= i < ps.len() implies !(#[trigger] ps[i] is Image) by {
            if ps[i] is Image {
                assert(kind_of(ps[i]) == PropertyKind::Image);
            }
        }
    }
}

proof fn lemma_first_kind_matches(ps: Seq<PropertyView>, kind: PropertyKind)
    ensures
        first_of(ps, kind) matches Some(p) ==> kind_of(p) == kind,
    decreases ps.len(),
{
    if ps.len() > 0 {
        lemma_first_kind_matches(ps.drop_first(), kind);
    }
}

/// A field attribute says what its property names: `env_var` and `arg`
/// take the string they are given, `port` the number its digits spell.
pub proof fn lemma_field_attribute_from_property(p: FieldPropertyView)
    ensures
        field_attribute_spec(p) matches Ok(FieldAttributeView::EnvVar(v)) ==> p.ident == "env_var"@
            && p.value == LiteralValueView::Str(v),
        field_attribute_spec(p) matches Ok(FieldAttributeView::Arg(v)) ==> p.ident == "arg"@
            && p.value == LiteralValueView::Str(v),
        field_attribute_spec(p) matches Ok(FieldAttributeView::Port(n)) ==> p.ident == "port"@
            && (p.value matches LiteralValueView::Int(d) && all_digits(d) && digits_value(d) == n),
        p.ident == "env_var"@ && p.value is Str ==> field_attribute_spec(p) is Ok,
        p.ident == "arg"@ && p.value is Str ==> field_attribute_spec(p) is Ok,
{
    reveal_strlit("env_var");
    reveal_strlit("arg");
    reveal_strlit("port");
    assert("env_var"@ != "arg"@) by {
        assert("env_var"@.len() != "arg"@.len());
    }
    assert("env_var"@ != "port"@) by {
        assert("env_var"@.len() != "port"@.len());
    }
    assert("arg"@ != "port"@) by {
        assert("arg"@.len() != "port"@.len());
    }
}

proof fn lemma_model_fields_from(fields: Seq<FieldInputView>, pss: Seq<Seq<FieldPropertyView>>, i: int)
    requires
        0 <= i <= fields.len(),
        pss.len() >= fields.len(),
    ensures
        model_fields_from(fields, pss, i) matches Ok(ms) ==> ms.len() == fields.len() - i
            && forall|k: int| 0 <= k < ms.len() ==> (#[trigger] ms[k]).name == fields[i + k].name
                && (ms[k].ty == FieldType::Option <==> field_type_spec(fields[i + k].ty) == Ok::<FieldType, ParseError>(
                FieldType::Option)),
    decreases fields.len() - i,
{
    if i < fields.len() {
        lemma_model_fields_from(fields, pss, i + 1);
        match model_fields_from(fields, pss, i) {
            Ok(ms) => {
                let m = model_field_spec(fields[i], pss[i])->Ok_0;
                let rest = model_fields_from(fields, pss, i + 1)->Ok_0;
                assert(ms == seq![m] + rest);
                assert forall|k: int| 0 <= k < ms.len() implies (#[trigger] ms[k]).name == fields[i + k].name
                    && (ms[k].ty == FieldType::Option <==> field_type_spec(fields[i + k].ty) == Ok::<FieldType, ParseError>(
                    FieldType::Option)) by {
                    if k > 0 {
                        assert(ms[k] == rest[k - 1]);
                    }
                }
            },
            Err(_) => {},
        }
    }
}

proof fn lemma_all_field_properties_len(fields: Seq<FieldInputView>, i: int)
    requires
        0 <= i <= fields.len(),
    ensures
        all_field_properties(fields, i) matches Ok(pss) ==> pss.len() == fields.len() - i,
    decreases fields.len() - i,
{
    if i < fields.len() {
        lemma_all_field_properties_len(fields, i + 1);
    }
}

/// The model of a struct keeps the struct's name and has one field for
/// each field of the struct, in order and under the same name, optional
/// exactly when its type is an `Option`.
pub proof fn lemma_model_keeps_fields(input: DeriveInputView, ps: Seq<PropertyView>)
    ensures
        model_spec(input, ps) matches Ok(m) ==> m.struct_name == input.struct_name
            && m.fields.len() == input.fields.len()
            && forall|k: int| 0 <= k < m.fields.len() ==> (#[trigger] m.fields[k]).name == input.fields[k].name
                && (m.fields[k].ty == FieldType::Option <==> field_type_spec(input.fields[k].ty)
                == Ok::<FieldType, ParseError>(FieldType::Option)),
{
    lemma_all_field_properties_len(input.fields, 0);
    match all_field_properties(input.fields, 0) {
        Ok(pss) => {
            lemma_model_fields_from(input.fields, pss, 0);
        },
        Err(_) => {},
    }
}

/// A field is optional exactly when its type is `Option` of a path type,
/// plain exactly when its type is a path without a path type argument,
/// and refused otherwise.
pub proof fn lemma_field_type_kinds(t: TypeShapeView)
    ensures
        field_type_spec(t) == Ok::<FieldType, ParseError>(FieldType::Option) <==> (t matches TypeShapeView::Path {
            first_segment: Some(seg),
            generic_argument_is_path: true,
        } && seg == "Option"@),
        field_type_spec(t) == Ok::<FieldType, ParseError>(FieldType::Simple) <==> (t matches TypeShapeView::Path {
            first_segment: Some(_),
            generic_argument_is_path: false,
        }),
        field_type_spec(t) is Err ==> field_type_spec(t) == Err::<FieldType, ParseError>(ParseError::UnsupportedFieldType),
{
}

} // verus!
