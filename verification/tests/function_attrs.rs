use svm::sdk::attr::{
    find_attr, has_before_fund_attr, has_endpoint_attr, has_fundable_attr, has_other_attr,
    parse_attr, FuncAttrKind, FuncAttribute, RawAttr,
};
use svm::sdk::function::{
    func_attrs, rewrite_func, validate_attrs, AttrError, Expansion, FuncInput, Function,
    Signature,
};

fn function(attrs: &[(&str, &str)], name: &str, inputs: &[&str], returns: bool) -> Function {
    let attrs = attrs.iter().map(|(name, args)| RawAttr::new(name, args)).collect();
    let inputs = inputs.iter().map(|ty| FuncInput::typed(ty)).collect();
    let sig = Signature { name: name.to_string(), inputs, returns };

    Function::new(attrs, sig)
}

fn assert_err(expected: &str, func: Function) {
    let actual = rewrite_func(&func).unwrap_err();
    assert_eq!(expected, actual.message());
}

fn assert_ok(func: Function) {
    let res = rewrite_func(&func);
    assert!(res.is_ok());
}

#[test]
fn fundable_can_not_live_alone() {
    let err = "#[fundable(..)] can't be used without `#[endpoint]`";

    assert_err(err, function(&[("fundable", "deny")], "deny", &[], false))
}

#[test]
fn endpoint_and_fundable_attrs_wrong_order() {
    let err = "`#[fundable(..)]` should be placed above `#[endpoint]`";

    assert_err(err, function(&[("endpoint", ""), ("fundable", "deny")], "get", &[], false));
}

#[test]
fn endpoint_and_before_fund_fails() {
    let err = "#[endpoint]` and `#[before_fund]` can't co-exist.";

    assert_err(err, function(&[("before_fund", ""), ("endpoint", "")], "get", &[], false));
}

#[test]
fn before_fund_and_fundable_not_allowed() {
    let err = "#[endpoint]` and `#[before_fund]` can't co-exist.";

    assert_err(err, function(&[("before_fund", ""), ("endpoint", "")], "get", &[], false));
}

#[test]
fn endpoint_used_twice_fails() {
    let err = "Each function can be annotated with `#[endpoint]` exactly once.";

    assert_err(err, function(&[("endpoint", ""), ("endpoint", "")], "get", &[], false));
}

#[test]
fn before_fund_used_twice_fails() {
    let err = "Each function can be annotated with `#[before_fund]` exactly once.";

    assert_err(
        err,
        function(
            &[("before_fund", ""), ("before_fund", "")],
            "get",
            &["svm_sdk :: Amount"],
            false,
        ),
    );
}

#[test]
fn fundable_used_twice_fails() {
    let err = "Each function can be annotated with `#[fundable(..)]` exactly once.";

    assert_err(
        err,
        function(
            &[("fundable", "allow"), ("fundable", "allow"), ("endpoint", "")],
            "get",
            &["svm_sdk :: Amount"],
            false,
        ),
    );
}

#[test]
fn before_fund_func_with_no_args_falis() {
    let err = "`#[before_fund]` annotated function should have signature of `fn(value: svm_sdk::Amount) -> ()`";

    assert_err(err, function(&[("before_fund", "")], "deny", &[], false));
}

#[test]
fn before_fund_func_has_more_than_one_args_fails() {
    let err = "`#[before_fund]` annotated function should have signature of `fn(value: svm_sdk::Amount) -> ()`";

    assert_err(
        err,
        function(
            &[("before_fund", "")],
            "deny",
            &["svm_sdk :: Amount", "svm_sdk :: Amount"],
            false,
        ),
    );
}

#[test]
fn before_fund_func_with_return_type_fails() {
    let err = "`#[before_fund]` annotated function should have signature of `fn(value: svm_sdk::Amount) -> ()`";

    assert_err(err, function(&[("before_fund", "")], "deny", &["svm_sdk :: Amount"], true));
}

#[test]
fn endpoint_func_valid_sig() {
    assert_ok(function(&[("endpoint", "")], "get", &["svm_sdk :: Amount"], false));

    assert_ok(function(&[("endpoint", "")], "get", &["svm_sdk :: Amount"], true));
}

#[test]
fn fundable_func_valid_sig() {
    assert_ok(function(
        &[("fundable", "allow"), ("endpoint", "")],
        "get",
        &["svm_sdk :: Address"],
        false,
    ));
}

#[test]
fn before_fund_func_valid_sig() {
    assert_ok(function(&[("before_fund", "")], "allow", &["svm_sdk :: Amount"], false));

    assert_ok(function(&[("before_fund", "")], "allow", &["Amount"], false));
}

#[test]
fn before_fund_and_fundable_can_not_stand_together() {
    let err = "#[before_fund]` and `#[fundable(..)]` can't co-exist.";

    assert_err(
        err,
        function(&[("fundable", "allow"), ("before_fund", "")], "get", &["Amount"], false),
    );
}

#[test]
fn before_fund_func_with_other_argument_type_fails() {
    let func = function(&[("before_fund", "")], "deny", &["u64"], false);
    assert_eq!(Err(AttrError::BeforeFundSignature), rewrite_func(&func));

    let receiver = FuncInput { receiver: true, attrs: 0, ty: "Amount".to_string() };
    let sig = Signature { name: "deny".to_string(), inputs: vec![receiver], returns: false };
    let func = Function::new(vec![RawAttr::new("before_fund", "")], sig);
    assert_eq!(Err(AttrError::BeforeFundSignature), rewrite_func(&func));

    let marked = FuncInput { receiver: false, attrs: 1, ty: "Amount".to_string() };
    let sig = Signature { name: "deny".to_string(), inputs: vec![marked], returns: false };
    let func = Function::new(vec![RawAttr::new("before_fund", "")], sig);
    assert_eq!(Err(AttrError::BeforeFundSignature), rewrite_func(&func));
}

#[test]
fn rewrite_picks_the_expansion_by_the_attributes() {
    let func = function(&[("fundable", "allow"), ("endpoint", "")], "get", &[], false);
    assert_eq!(
        Ok(Expansion::Endpoint { fund_hook: Some("allow".to_string()) }),
        rewrite_func(&func)
    );

    let func = function(&[("inline", ""), ("endpoint", "")], "get", &[], false);
    assert_eq!(Ok(Expansion::Endpoint { fund_hook: None }), rewrite_func(&func));

    let func = function(&[("before_fund", "")], "allow", &["Amount"], false);
    assert_eq!(Ok(Expansion::BeforeFund), rewrite_func(&func));

    let func = function(&[("inline", ""), ("inline", "")], "helper", &["u8"], true);
    assert_eq!(Ok(Expansion::Plain), rewrite_func(&func));
    assert_eq!("helper", func.raw_name());
}

#[test]
fn the_first_broken_rule_decides_the_error() {
    // twice `fundable`, `before_fund` beside `endpoint`, and `fundable` below `endpoint`
    let attrs = vec![
        FuncAttribute::Endpoint,
        FuncAttribute::BeforeFund,
        FuncAttribute::Fundable("a".to_string()),
        FuncAttribute::Fundable("b".to_string()),
    ];
    assert_eq!(Err(AttrError::FundableTwice), validate_attrs(&attrs));
    assert_eq!(Err(AttrError::EndpointWithBeforeFund), validate_attrs(&attrs[..3]));
    assert_eq!(Ok(()), validate_attrs(&attrs[..1]));
}

#[test]
fn attributes_are_found_by_kind() {
    let func = function(&[("doc", "x"), ("fundable", "first"), ("endpoint", "")], "get", &[], false);
    let attrs = func_attrs(&func);

    assert!(has_endpoint_attr(&attrs));
    assert!(has_fundable_attr(&attrs));
    assert!(has_other_attr(&attrs));
    assert!(!has_before_fund_attr(&attrs));
    assert_eq!(
        &FuncAttribute::Fundable("first".to_string()),
        find_attr(&attrs, FuncAttrKind::Fundable)
    );
    assert_eq!(FuncAttrKind::Other, parse_attr(&RawAttr::new("endpoints", "")).kind());
}
