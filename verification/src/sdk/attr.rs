//! The attributes that a function of an app may carry.

use crate::text::same_text;
use vstd::prelude::*;

verus! {

/// The kinds of attribute that the rules tell apart.
#[derive(Clone, Copy, Debug, PartialEq, Eq, Structural)]
pub enum FuncAttrKind {
    Endpoint,
    BeforeFund,
    Fundable,
    Other,
}

/// An attribute as written on a function: its name and, between the
/// brackets that may follow the name, its arguments.
#[derive(Clone, Debug, PartialEq, Eq)]
pub struct RawAttr {
    pub name: String,
    pub args: String,
}

impl RawAttr {
    /// The attribute `name` with the arguments `args`.
    pub fn new(name: &str, args: &str) -> (raw: RawAttr)
        ensures
            raw.name@ == name@,
            raw.args@ == args@,
    {
        RawAttr { name: name.to_owned(), args: args.to_owned() }
    }
}

/// An attribute of a function, as the rules read it.
#[derive(Clone, Debug, PartialEq, Eq)]
pub enum FuncAttribute {
    /// `#[endpoint]`: the function can be called from outside the app.
    Endpoint,
    /// `#[before_fund]`: the function is a funding hook.
    BeforeFund,
    /// `#[fundable(hook)]`: the function accepts funds, after running `hook`.
    Fundable(String),
    /// Any other attribute.
    Other,
}

impl FuncAttribute {
    /// The kind of the attribute.
    pub open spec fn spec_kind(&self) -> FuncAttrKind {
        match *self {
            FuncAttribute::Endpoint => FuncAttrKind::Endpoint,
            FuncAttribute::BeforeFund => FuncAttrKind::BeforeFund,
            FuncAttribute::Fundable(_) => FuncAttrKind::Fundable,
            FuncAttribute::Other => FuncAttrKind::Other,
        }
    }

    /// The kind of the attribute.
    #[verifier::when_used_as_spec(spec_kind)]
    pub fn kind(&self) -> (kind: FuncAttrKind)
        ensures
            kind == self.spec_kind(),
    {
        match self {
            FuncAttribute::Endpoint => FuncAttrKind::Endpoint,
            FuncAttribute::BeforeFund => FuncAttrKind::BeforeFund,
            FuncAttribute::Fundable(_) => FuncAttrKind::Fundable,
            FuncAttribute::Other => FuncAttrKind::Other,
        }
    }
}

/// The kinds of the attributes `attrs`, in order.
pub open spec fn attr_kinds(attrs: Seq<FuncAttribute>) -> Seq<FuncAttrKind> {
    Seq::new(attrs.len(), |i: int| attrs[i].spec_kind())
}

/// The kind that the name of an attribute stands for.
pub open spec fn kind_of_name(name: Seq<char>) -> FuncAttrKind {
    if name == "endpoint"@ {
        FuncAttrKind::Endpoint
    } else if name == "before_fund"@ {
        FuncAttrKind::BeforeFund
    } else if name == "fundable"@ {
        FuncAttrKind::Fundable
    } else {
        FuncAttrKind::Other
    }
}

/// Reads an attribute by its name. The arguments of `fundable` name its
/// hook.
pub fn parse_attr(raw: &RawAttr) -> (attr: FuncAttribute)
    ensures
        attr.spec_kind() == kind_of_name(raw.name@),
        attr matches FuncAttribute::Fundable(hook) ==> hook@ == raw.args@,
{
    let name = raw.name.as_str();
    if same_text(name, "endpoint") {
        FuncAttribute::Endpoint
    } else if same_text(name, "before_fund") {
        FuncAttribute::BeforeFund
    } else if same_text(name, "fundable") {
        FuncAttribute::Fundable(raw.args.clone())
    } else {
        FuncAttribute::Other
    }
}

/// Whether an attribute of kind `kind` is among `attrs`.
pub fn has_attr(attrs: &[FuncAttribute], kind: FuncAttrKind) -> (found: bool)
    ensures
        found == attr_kinds(attrs@).contains(kind),
{
    let mut i: usize = 0;
    while i < attrs.len()
        invariant
            i <= attrs@.len(),
            forall|j: int| 0 <= j < i ==> attr_kinds(attrs@)[j] != kind,
        decreases attrs@.len() - i,
    {
        if attrs[i].kind() == kind {
            assert(attr_kinds(attrs@)[i as int] == kind);
            return true;
        }
        i += 1;
    }
    false
}

/// The first attribute of kind `kind` among `attrs`, which must hold one.
pub fn find_attr(attrs: &[FuncAttribute], kind: FuncAttrKind) -> (attr: &FuncAttribute)
    requires
        attr_kinds(attrs@).contains(kind),
    ensures
        exists|i: int|
            0 <= i < attrs@.len() && attrs@[i] == *attr && attr.spec_kind() == kind && (forall|
                j: int,
            |
                0 <= j < i ==> attr_kinds(attrs@)[j] != kind),
{
    let mut i: usize = 0;
    while i < attrs.len()
        invariant
            i <= attrs@.len(),
            attr_kinds(attrs@).contains(kind),
            forall|j: int| 0 <= j < i ==> attr_kinds(attrs@)[j] != kind,
        decreases attrs@.len() - i,
    {
        if attrs[i].kind() == kind {
            return &attrs[i];
        }
        i += 1;
    }
    proof {
        let at = choose|j: int| 0 <= j < attr_kinds(attrs@).len() && attr_kinds(attrs@)[j] == kind;
        assert(false);
    }
    &attrs[0]
}

/// Whether `#[endpoint]` is among `attrs`.
pub fn has_endpoint_attr(attrs: &[FuncAttribute]) -> (found: bool)
    ensures
        found == attr_kinds(attrs@).contains(FuncAttrKind::Endpoint),
{
    has_attr(attrs, FuncAttrKind::Endpoint)
}

/// Whether `#[before_fund]` is among `attrs`.
pub fn has_before_fund_attr(attrs: &[FuncAttribute]) -> (found: bool)
    ensures
        found == attr_kinds(attrs@).contains(FuncAttrKind::BeforeFund),
{
    has_attr(attrs, FuncAttrKind::BeforeFund)
}

/// Whether `#[fundable(..)]` is among `attrs`.
pub fn has_fundable_attr(attrs: &[FuncAttribute]) -> (found: bool)
    ensures
        found == attr_kinds(attrs@).contains(FuncAttrKind::Fundable),
{
    has_attr(attrs, FuncAttrKind::Fundable)
}

/// Whether an attribute that the rules do not know is among `attrs`.
pub fn has_other_attr(attrs: &[FuncAttribute]) -> (found: bool)
    ensures
        found == attr_kinds(attrs@).contains(FuncAttrKind::Other),
{
    has_attr(attrs, FuncAttrKind::Other)
}

} // verus!
