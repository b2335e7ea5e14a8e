//! The rules for the attributes and the signature of a function of an app.
//!
//! A function is held here as what the rules read of it: the attributes
//! written above it, and of its signature the arguments and whether it
//! returns a value.

use crate::sdk::attr::{
    attr_kinds, find_attr, has_before_fund_attr, has_endpoint_attr, has_fundable_attr,
    kind_of_name, parse_attr, FuncAttrKind, FuncAttribute, RawAttr,
};
use crate::text::same_text;
use vstd::prelude::*;

verus! {

/// Why the attributes or the signature of a function are refused.
#[derive(Clone, Copy, Debug, PartialEq, Eq, Structural)]
pub enum AttrError {
    EndpointTwice,
    BeforeFundTwice,
    FundableTwice,
    EndpointWithBeforeFund,
    BeforeFundWithFundable,
    FundableWithoutEndpoint,
    FundableBelowEndpoint,
    BeforeFundSignature,
}

impl AttrError {
    /// The text of the error.
    pub open spec fn text(self) -> Seq<char> {
        match self {
            AttrError::EndpointTwice => "Each function can be annotated with `#[endpoint]` exactly once."@,
            AttrError::BeforeFundTwice => "Each function can be annotated with `#[before_fund]` exactly once."@,
            AttrError::FundableTwice => "Each function can be annotated with `#[fundable(..)]` exactly once."@,
            AttrError::EndpointWithBeforeFund => "#[endpoint]` and `#[before_fund]` can't co-exist."@,
            AttrError::BeforeFundWithFundable => "#[before_fund]` and `#[fundable(..)]` can't co-exist."@,
            AttrError::FundableWithoutEndpoint => "#[fundable(..)] can't be used without `#[endpoint]`"@,
            AttrError::FundableBelowEndpoint => "`#[fundable(..)]` should be placed above `#[endpoint]`"@,
            AttrError::BeforeFundSignature => "`#[before_fund]` annotated function should have signature of `fn(value: svm_sdk::Amount) -> ()`"@,
        }
    }

    /// The text of the error, for the author of the app.
    pub fn message(&self) -> (msg: String)
        ensures
            msg@ == self.text(),
    {
        let text = match self {
            AttrError::EndpointTwice => "Each function can be annotated with `#[endpoint]` exactly once.",
            AttrError::BeforeFundTwice => "Each function can be annotated with `#[before_fund]` exactly once.",
            AttrError::FundableTwice => "Each function can be annotated with `#[fundable(..)]` exactly once.",
            AttrError::EndpointWithBeforeFund => "#[endpoint]` and `#[before_fund]` can't co-exist.",
            AttrError::BeforeFundWithFundable => "#[before_fund]` and `#[fundable(..)]` can't co-exist.",
            AttrError::FundableWithoutEndpoint => "#[fundable(..)] can't be used without `#[endpoint]`",
            AttrError::FundableBelowEndpoint => "`#[fundable(..)]` should be placed above `#[endpoint]`",
            AttrError::BeforeFundSignature => "`#[before_fund]` annotated function should have signature of `fn(value: svm_sdk::Amount) -> ()`",
        };
        text.to_owned()
    }
}

/// An argument of a function.
#[derive(Clone, Debug, PartialEq, Eq)]
pub struct FuncInput {
    /// Whether the argument is `self` in one of its forms.
    pub receiver: bool,
    /// The number of attributes written on the argument.
    pub attrs: usize,
    /// The type of the argument, as its tokens print.
    pub ty: String,
}

impl FuncInput {
    /// An argument of type `ty` without attributes.
    pub fn typed(ty: &str) -> (input: FuncInput)
        ensures
            !input.receiver,
            input.attrs == 0,
            input.ty@ == ty@,
    {
        FuncInput { receiver: false, attrs: 0, ty: ty.to_owned() }
    }
}

/// The signature of a function, as far as the rules read it.
#[derive(Clone, Debug, PartialEq, Eq)]
pub struct Signature {
    pub name: String,
    pub inputs: Vec<FuncInput>,
    /// Whether a return type is written.
    pub returns: bool,
}

/// A function of an app.
pub struct Function {
    raw_attrs: Vec<RawAttr>,
    raw_sig: Signature,
}

impl Function {
    /// The attributes written above the function, in order.
    pub closed spec fn attrs(&self) -> Seq<RawAttr> {
        self.raw_attrs@
    }

    /// The signature of the function.
    pub closed spec fn sig(&self) -> Signature {
        self.raw_sig
    }

    /// The function with the attributes `attrs` and the signature `sig`.
    pub fn new(attrs: Vec<RawAttr>, sig: Signature) -> (func: Function)
        ensures
            func.attrs() == attrs@,
            func.sig() == sig,
    {
        Function { raw_attrs: attrs, raw_sig: sig }
    }

    /// The name of the function.
    pub fn raw_name(&self) -> (name: &str)
        ensures
            name@ == self.sig().name@,
    {
        self.raw_sig.name.as_str()
    }

    /// The signature of the function.
    pub fn raw_sig(&self) -> (sig: &Signature)
        ensures
            *sig == self.sig(),
    {
        &self.raw_sig
    }

    /// The attributes written above the function, in order.
    pub fn raw_attrs(&self) -> (attrs: &[RawAttr])
        ensures
            attrs@ == self.attrs(),
    {
        self.raw_attrs.as_slice()
    }
}

/// What a function is to be rewritten into.
#[derive(Clone, Debug, PartialEq, Eq)]
pub enum Expansion {
    /// An endpoint; with a hook, which runs on the funds that come with a
    /// call before the body does.
    Endpoint { fund_hook: Option<String> },
    /// A funding hook, which is inlined.
    BeforeFund,
    /// The function as it was written.
    Plain,
}

/// The kinds that the names of `raw` stand for, in order.
pub open spec fn raw_kinds(raw: Seq<RawAttr>) -> Seq<FuncAttrKind> {
    Seq::new(raw.len(), |i: int| kind_of_name(raw[i].name@))
}

/// Whether a kind is among the first `i` of `kinds`.
pub open spec fn seen(kinds: Seq<FuncAttrKind>, kind: FuncAttrKind, i: int) -> bool {
    exists|k: int| 0 <= k < i && k < kinds.len() && kinds[k] == kind
}

/// Whether the attribute at `j` repeats an earlier one of its kind, which
/// the rules know.
pub open spec fn is_repeat(kinds: Seq<FuncAttrKind>, j: int) -> bool {
    &&& 0 <= j < kinds.len()
    &&& kinds[j] != FuncAttrKind::Other
    &&& seen(kinds, kinds[j], j)
}

/// Whether no attribute that the rules know is written twice.
pub open spec fn no_repeat(kinds: Seq<FuncAttrKind>) -> bool {
    forall|j: int| 0 <= j < kinds.len() ==> !is_repeat(kinds, j)
}

/// Whether the attribute at `j` is the first that repeats an earlier one.
pub open spec fn first_repeat(kinds: Seq<FuncAttrKind>, j: int) -> bool {
    &&& is_repeat(kinds, j)
    &&& forall|k: int| 0 <= k < j ==> !is_repeat(kinds, k)
}

/// The error for a repeated attribute of kind `kind`.
pub open spec fn repeat_error(kind: FuncAttrKind) -> AttrError {
    match kind {
        FuncAttrKind::Endpoint => AttrError::EndpointTwice,
        FuncAttrKind::BeforeFund => AttrError::BeforeFundTwice,
        _ => AttrError::FundableTwice,
    }
}

/// The attributes that may not stand together or alone, if any do.
pub open spec fn usage_error(kinds: Seq<FuncAttrKind>) -> Option<AttrError> {
    let endpoint = kinds.contains(FuncAttrKind::Endpoint);
    let before_fund = kinds.contains(FuncAttrKind::BeforeFund);
    let fundable = kinds.contains(FuncAttrKind::Fundable);
    if endpoint && before_fund {
        Some(AttrError::EndpointWithBeforeFund)
    } else if fundable && before_fund {
        Some(AttrError::BeforeFundWithFundable)
    } else if fundable && !endpoint {
        Some(AttrError::FundableWithoutEndpoint)
    } else {
        None
    }
}

/// Whether a `#[fundable(..)]` stands below an `#[endpoint]`.
pub open spec fn misordered(kinds: Seq<FuncAttrKind>) -> bool {
    exists|i: int, j: int|
        0 <= i < j < kinds.len() && kinds[i] == FuncAttrKind::Endpoint && kinds[j]
            == FuncAttrKind::Fundable
}

/// What the three rules, taken in order, say of attributes of the kinds
/// `kinds`: the error of the first rule that they break.
pub open spec fn attrs_verdict(kinds: Seq<FuncAttrKind>, res: Result<(), AttrError>) -> bool {
    match res {
        Ok(()) => no_repeat(kinds) && usage_error(kinds) is None && !misordered(kinds),
        Err(e) => {
            ||| exists|j: int| first_repeat(kinds, j) && e == repeat_error(kinds[j])
            ||| no_repeat(kinds) && usage_error(kinds) == Some(e)
            ||| no_repeat(kinds) && usage_error(kinds) is None && misordered(kinds) && e
                == AttrError::FundableBelowEndpoint
        },
    }
}

/// Whether a signature is that of a funding hook: one argument of type
/// `svm_sdk::Amount`, without attributes, and no return type.
pub open spec fn before_fund_sig_ok(sig: Signature) -> bool {
    &&& sig.inputs@.len() == 1
    &&& !sig.returns
    &&& !sig.inputs@[0].receiver
    &&& sig.inputs@[0].attrs == 0
    &&& (sig.inputs@[0].ty@ == "svm_sdk :: Amount"@ || sig.inputs@[0].ty@ == "Amount"@)
}

/// Checks that none of `#[endpoint]`, `#[before_fund]` and `#[fundable(..)]`
/// is written twice. Fails at the first attribute that repeats an earlier
/// one.
pub fn validate_attrs_no_dups(attrs: &[FuncAttribute]) -> (res: Result<(), AttrError>)
    ensures
        match res {
            Ok(()) => no_repeat(attr_kinds(attrs@)),
            Err(e) => exists|j: int|
                first_repeat(attr_kinds(attrs@), j) && e == repeat_error(attr_kinds(attrs@)[j]),
        },
{
    let ghost kinds = attr_kinds(attrs@);
    let mut seen_endpoint = false;
    let mut seen_fundable = false;
    let mut seen_before_fund = false;

    let mut i: usize = 0;
    while i < attrs.len()
        invariant
            i <= attrs@.len(),
            kinds == attr_kinds(attrs@),
            seen_endpoint == seen(kinds, FuncAttrKind::Endpoint, i as int),
            seen_fundable == seen(kinds, FuncAttrKind::Fundable, i as int),
            seen_before_fund == seen(kinds, FuncAttrKind::BeforeFund, i as int),
            forall|j: int| 0 <= j < i ==> !is_repeat(kinds, j),
        decreases attrs@.len() - i,
    {
        let kind = attrs[i].kind();
        assert(kinds[i as int] == kind);
        match kind {
            FuncAttrKind::Endpoint => {
                if seen_endpoint {
                    assert(first_repeat(kinds, i as int));
                    return Err(AttrError::EndpointTwice);
                }
                seen_endpoint = true;
            },
            FuncAttrKind::BeforeFund => {
                if seen_before_fund {
                    assert(first_repeat(kinds, i as int));
                    return Err(AttrError::BeforeFundTwice);
                }
                seen_before_fund = true;
            },
            FuncAttrKind::Fundable => {
                if seen_fundable {
                    assert(first_repeat(kinds, i as int));
                    return Err(AttrError::FundableTwice);
                }
                seen_fundable = true;
            },
            FuncAttrKind::Other => {},
        }
        proof {
            lemma_seen_step(kinds, FuncAttrKind::Endpoint, i as int);
            lemma_seen_step(kinds, FuncAttrKind::Fundable, i as int);
            lemma_seen_step(kinds, FuncAttrKind::BeforeFund, i as int);
        }
        i += 1;
    }

    Ok(())
}

proof fn lemma_seen_step(kinds: Seq<FuncAttrKind>, kind: FuncAttrKind, i: int)
    requires
        0 <= i < kinds.len(),
    ensures
        seen(kinds, kind, i + 1) == (seen(kinds, kind, i) || kinds[i] == kind),
{
    if seen(kinds, kind, i + 1) {
        let k = choose|k: int| 0 <= k < i + 1 && k < kinds.len() && kinds[k] == kind;
        if k < i {
            assert(seen(kinds, kind, i));
        }
    }
    if seen(kinds, kind, i) {
        let k = choose|k: int| 0 <= k < i && k < kinds.len() && kinds[k] == kind;
        assert(0 <= k < i + 1 && k < kinds.len() && kinds[k] == kind);
    }
    if kinds[i] == kind {
        assert(0 <= i < i + 1 && i < kinds.len() && kinds[i] == kind);
    }
}

proof fn lemma_seen_all(kinds: Seq<FuncAttrKind>, kind: FuncAttrKind)
    ensures
        seen(kinds, kind, kinds.len() as int) == kinds.contains(kind),
{
    if seen(kinds, kind, kinds.len() as int) {
        let k = choose|k: int| 0 <= k < kinds.len() && k < kinds.len() && kinds[k] == kind;
        assert(kinds[k] == kind);
    }
    if kinds.contains(kind) {
        let k = choose|k: int| 0 <= k < kinds.len() && kinds[k] == kind;
        assert(0 <= k < kinds.len() && k < kinds.len() && kinds[k] == kind);
    }
}

/// Checks which attributes stand together: `#[before_fund]` goes with
/// neither `#[endpoint]` nor `#[fundable(..)]`, and `#[fundable(..)]` needs
/// `#[endpoint]`.
pub fn validate_attrs_usage(attrs: &[FuncAttribute]) -> (res: Result<(), AttrError>)
    ensures
        match res {
            Ok(()) => usage_error(attr_kinds(attrs@)) is None,
            Err(e) => usage_error(attr_kinds(attrs@)) == Some(e),
        },
{
    let ghost kinds = attr_kinds(attrs@);
    let mut seen_endpoint = false;
    let mut seen_fundable = false;
    let mut seen_before_fund = false;

    let mut i: usize = 0;
    while i < attrs.len()
        invariant
            i <= attrs@.len(),
            kinds == attr_kinds(attrs@),
            seen_endpoint == seen(kinds, FuncAttrKind::Endpoint, i as int),
            seen_fundable == seen(kinds, FuncAttrKind::Fundable, i as int),
            seen_before_fund == seen(kinds, FuncAttrKind::BeforeFund, i as int),
        decreases attrs@.len() - i,
    {
        let kind = attrs[i].kind();
        assert(kinds[i as int] == kind);
        proof {
            lemma_seen_step(kinds, FuncAttrKind::Endpoint, i as int);
            lemma_seen_step(kinds, FuncAttrKind::Fundable, i as int);
            lemma_seen_step(kinds, FuncAttrKind::BeforeFund, i as int);
        }
        match kind {
            FuncAttrKind::Endpoint => seen_endpoint = true,
            FuncAttrKind::BeforeFund => seen_before_fund = true,
            FuncAttrKind::Fundable => seen_fundable = true,
            FuncAttrKind::Other => {},
        }
        i += 1;
    }
    proof {
        lemma_seen_all(kinds, FuncAttrKind::Endpoint);
        lemma_seen_all(kinds, FuncAttrKind::Fundable);
        lemma_seen_all(kinds, FuncAttrKind::BeforeFund);
    }

    if seen_endpoint && seen_before_fund {
        return Err(AttrError::EndpointWithBeforeFund);
    }
    if seen_fundable && seen_before_fund {
        return Err(AttrError::BeforeFundWithFundable);
    }
    if seen_fundable && !seen_endpoint {
        return Err(AttrError::FundableWithoutEndpoint);
    }

    Ok(())
}

/// Checks that `#[fundable(..)]` stands above `#[endpoint]`.
pub fn validate_attrs_order(attrs: &[FuncAttribute]) -> (res: Result<(), AttrError>)
    ensures
        match res {
            Ok(()) => !misordered(attr_kinds(attrs@)),
            Err(e) => misordered(attr_kinds(attrs@)) && e == AttrError::FundableBelowEndpoint,
        },
{
    let ghost kinds = attr_kinds(attrs@);
    let mut seen_endpoint = false;

    let mut i: usize = 0;
    while i < attrs.len()
        invariant
            i <= attrs@.len(),
            kinds == attr_kinds(attrs@),
            seen_endpoint == seen(kinds, FuncAttrKind::Endpoint, i as int),
            forall|a: int, b: int|
                0 <= a < b < i ==> !(kinds[a] == FuncAttrKind::Endpoint && kinds[b]
                    == FuncAttrKind::Fundable),
        decreases attrs@.len() - i,
    {
        let kind = attrs[i].kind();
        assert(kinds[i as int] == kind);
        proof {
            lemma_seen_step(kinds, FuncAttrKind::Endpoint, i as int);
        }
        match kind {
            FuncAttrKind::Endpoint => seen_endpoint = true,
            FuncAttrKind::BeforeFund => {},
            FuncAttrKind::Fundable => {
                if seen_endpoint {
                    proof {
                        let k = choose|k: int|
                            0 <= k < i && k < kinds.len() && kinds[k] == FuncAttrKind::Endpoint;
                        assert(0 <= k < (i as int) < kinds.len() && kinds[k]
                            == FuncAttrKind::Endpoint && kinds[i as int]
                            == FuncAttrKind::Fundable);
                    }
                    return Err(AttrError::FundableBelowEndpoint);
                }
            },
            FuncAttrKind::Other => {},
        }
        i += 1;
    }

    Ok(())
}

/// Checks the attributes of a function against the three rules, in order:
/// nothing twice, nothing that may not stand together, and
/// `#[fundable(..)]` above `#[endpoint]`.
pub fn validate_attrs(attrs: &[FuncAttribute]) -> (res: Result<(), AttrError>)
    ensures
        attrs_verdict(attr_kinds(attrs@), res),
{
    validate_attrs_no_dups(attrs)?;
    validate_attrs_usage(attrs)?;
    validate_attrs_order(attrs)?;

    Ok(())
}

/// Checks that a function marked `#[before_fund]` has the signature of a
/// funding hook.
pub fn validate_before_fund_func_sig(func: &Function) -> (res: Result<(), AttrError>)
    ensures
        match res {
            Ok(()) => before_fund_sig_ok(func.sig()),
            Err(e) => !before_fund_sig_ok(func.sig()) && e == AttrError::BeforeFundSignature,
        },
{
    let sig = func.raw_sig();

    if sig.inputs.len() != 1 || sig.returns {
        return Err(AttrError::BeforeFundSignature);
    }

    let input = &sig.inputs[0];

    if !input.receiver {
        if input.attrs != 0 {
            return Err(AttrError::BeforeFundSignature);
        }

        let ty = input.ty.as_str();

        if same_text(ty, "svm_sdk :: Amount") || same_text(ty, "Amount") {
            return Ok(());
        }
    }

    Err(AttrError::BeforeFundSignature)
}

/// Reads the attributes written above a function.
pub fn func_attrs(func: &Function) -> (attrs: Vec<FuncAttribute>)
    ensures
        attrs@.len() == func.attrs().len(),
        attr_kinds(attrs@) == raw_kinds(func.attrs()),
        forall|i: int|
            0 <= i < attrs@.len() ==> (#[trigger] attrs@[i] matches FuncAttribute::Fundable(hook)
                ==> hook@ == func.attrs()[i].args@),
{
    let raw = func.raw_attrs();
    let mut attrs: Vec<FuncAttribute> = Vec::new();

    let mut i: usize = 0;
    while i < raw.len()
        invariant
            i <= raw@.len(),
            raw@ == func.attrs(),
            attrs@.len() == i,
            forall|j: int|
                0 <= j < i ==> (#[trigger] attrs@[j]).spec_kind() == kind_of_name(raw@[j].name@),
            forall|j: int|
                0 <= j < i ==> (#[trigger] attrs@[j] matches FuncAttribute::Fundable(hook)
                    ==> hook@ == raw@[j].args@),
        decreases raw@.len() - i,
    {
        let attr = parse_attr(&raw[i]);

        attrs.push(attr);
        i += 1;
    }
    assert(attr_kinds(attrs@) =~= raw_kinds(func.attrs()));

    attrs
}

/// The hook of the `#[fundable(..)]` among `attrs`, which must hold one.
pub fn expand_fundable_attr(attrs: &[FuncAttribute]) -> (fund_hook: String)
    requires
        attr_kinds(attrs@).contains(FuncAttrKind::Fundable),
    ensures
        exists|i: int|
            0 <= i < attrs@.len() && attrs@[i] == FuncAttribute::Fundable(fund_hook) && (forall|
                j: int,
            |
                0 <= j < i ==> attr_kinds(attrs@)[j] != FuncAttrKind::Fundable),
{
    let attr = find_attr(attrs, FuncAttrKind::Fundable);

    match attr {
        FuncAttribute::Fundable(s) => s.clone(),
        _ => {
            assert(false);
            String::new()
        },
    }
}

/// Rewrites a funding hook: checks its signature and has it inlined.
pub fn expand_before_fund_attr(func: &Function, attrs: &[FuncAttribute]) -> (res: Result<
    Expansion,
    AttrError,
>)
    requires
        attr_kinds(attrs@).contains(FuncAttrKind::BeforeFund),
    ensures
        match res {
            Ok(expansion) => before_fund_sig_ok(func.sig()) && expansion == Expansion::BeforeFund,
            Err(e) => !before_fund_sig_ok(func.sig()) && e == AttrError::BeforeFundSignature,
        },
{
    validate_before_fund_func_sig(func)?;

    Ok(Expansion::BeforeFund)
}

/// Rewrites an endpoint: with the hook of its `#[fundable(..)]`, where it
/// has one.
pub fn expand_endpoint(attrs: &[FuncAttribute]) -> (expansion: Expansion)
    ensures
        expansion matches Expansion::Endpoint { fund_hook } && (fund_hook is Some <==> attr_kinds(
            attrs@,
        ).contains(FuncAttrKind::Fundable)) && (fund_hook matches Some(hook) ==> exists|i: int|
            0 <= i < attrs@.len() && attrs@[i] == FuncAttribute::Fundable(hook)),
{
    if has_fundable_attr(attrs) {
        Expansion::Endpoint { fund_hook: Some(expand_fundable_attr(attrs)) }
    } else {
        Expansion::Endpoint { fund_hook: None }
    }
}

/// Leaves a function with neither `#[endpoint]` nor `#[before_fund]` as it
/// was written.
pub fn expand_func(_func: &Function, _attrs: &[FuncAttribute]) -> (res: Result<
    Expansion,
    AttrError,
>)
    ensures
        res == Ok::<Expansion, AttrError>(Expansion::Plain),
{
    Ok(Expansion::Plain)
}

/// What the attributes beyond the three that the rules know add to an
/// expansion: nothing.
pub fn expand_other_attrs(expansion: Expansion, _attrs: &[FuncAttribute]) -> (res: Result<
    Expansion,
    AttrError,
>)
    ensures
        res == Ok::<Expansion, AttrError>(expansion),
{
    Ok(expansion)
}

/// Decides how a function is rewritten.
///
/// Fails where its attributes break one of the rules of
/// [`validate_attrs`], and where it is marked `#[before_fund]` without the
/// signature of a funding hook. Otherwise an `#[endpoint]` becomes an
/// endpoint, a `#[before_fund]` a funding hook, and any other function stays
/// as it is.
pub fn rewrite_func(func: &Function) -> (res: Result<Expansion, AttrError>)
    ensures
        match res {
            Err(e) => {
                ||| attrs_verdict(raw_kinds(func.attrs()), Err(e))
                ||| {
                    &&& attrs_verdict(raw_kinds(func.attrs()), Ok(()))
                    &&& !raw_kinds(func.attrs()).contains(FuncAttrKind::Endpoint)
                    &&& raw_kinds(func.attrs()).contains(FuncAttrKind::BeforeFund)
                    &&& !before_fund_sig_ok(func.sig())
                    &&& e == AttrError::BeforeFundSignature
                }
            },
            Ok(expansion) => {
                &&& attrs_verdict(raw_kinds(func.attrs()), Ok(()))
                &&& if raw_kinds(func.attrs()).contains(FuncAttrKind::Endpoint) {
                    &&& expansion matches Expansion::Endpoint { fund_hook }
                    &&& fund_hook is Some <==> raw_kinds(func.attrs()).contains(
                        FuncAttrKind::Fundable,
                    )
                    &&& fund_hook matches Some(hook) ==> exists|i: int|
                        0 <= i < func.attrs().len() && kind_of_name(func.attrs()[i].name@)
                            == FuncAttrKind::Fundable && hook@ == func.attrs()[i].args@
                } else if raw_kinds(func.attrs()).contains(FuncAttrKind::BeforeFund) {
                    before_fund_sig_ok(func.sig()) && expansion == Expansion::BeforeFund
                } else {
                    expansion == Expansion::Plain
                }
            },
        },
{
    let attrs = func_attrs(func);

    validate_attrs(attrs.as_slice())?;

    let ast = if has_endpoint_attr(attrs.as_slice()) {
        let expansion = expand_endpoint(attrs.as_slice());
        proof {
            if expansion->fund_hook is Some {
                let hook = expansion->fund_hook->0;
                let i = choose|i: int|
                    0 <= i < attrs@.len() && attrs@[i] == FuncAttribute::Fundable(hook);
                assert(attr_kinds(attrs@)[i] == FuncAttrKind::Fundable);
                assert(raw_kinds(func.attrs())[i] == FuncAttrKind::Fundable);
            }
        }
        expansion
    } else if has_before_fund_attr(attrs.as_slice()) {
        expand_before_fund_attr(func, attrs.as_slice())?
    } else {
        expand_func(func, attrs.as_slice())?
    };

    let ast = expand_other_attrs(ast, attrs.as_slice())?;

    Ok(ast)
}

} // verus!
