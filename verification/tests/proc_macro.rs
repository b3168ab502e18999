use libhotpatch::abi::boxed::Heap;
use libhotpatch::hotpatch;
use libhotpatch::hotpatch::{LibraryPayload, PatchSite};
use libhotpatch::macros::args::{Args, ArgsError};
use libhotpatch::macros::expand::{fn_input_pat_to_ts, MacroError, Shim, UnsupportedPattern};
use libhotpatch::macros::hotpatch_fn::{FnArg, HotpatchFn, Pat, Rejection, Signature};

fn add(a: i32, b: i32) -> i32 {
    a + b
}

fn add_tuple((a, b): (i32, i32)) -> i32 {
    a + b
}

fn add_struct(Add { a, b }: Add) -> i32 {
    a + b
}

fn add_tstruct(Tuple2(a, b): Tuple2<i32, i32>) -> i32 {
    a + b
}

fn lifetime_bound<'lt>(a: &'lt i32) -> &'lt i32 {
    a
}

struct Tuple2<A, B>(A, B);

struct Add {
    a: i32,
    b: i32,
}

fn unsafe_fn(ident: &str, text: &str, inputs: Vec<FnArg>) -> Signature {
    Signature {
        constness: false,
        unsafety: true,
        abi: None,
        ident: ident.to_string(),
        const_params: 0,
        type_params: 0,
        inputs,
        text: text.to_string(),
    }
}

fn ident(name: &str) -> Pat {
    Pat::Ident(name.to_string())
}

fn site_of<F: Copy>(shim: &Shim, module: &str, target: F) -> PatchSite<F> {
    let name = format!("{}::{}", module, shim.outer);
    PatchSite::new(target, &shim.signature, &name)
}

#[test]
fn call_add() {
    let sig = unsafe_fn(
        "add",
        "unsafe fn add(a: i32, b: i32) -> i32",
        vec![FnArg::Typed(ident("a"), false), FnArg::Typed(ident("b"), false)],
    );
    let shim = hotpatch(None, false, sig).unwrap();
    assert_eq!(shim.inner, "add_inner");
    assert_eq!(shim.args, vec!["a".to_string(), "b".to_string()]);
    assert_eq!(shim.wild, 2);
    let site = site_of(&shim, "proc_macro", add as fn(i32, i32) -> i32);
    let mut heap: Heap<LibraryPayload> = Heap::new();
    let (target, guard) = site.enter(&mut heap);
    assert_eq!(target(2, 2), 4);
    assert!(guard.drop(&mut heap).is_none());
}

#[test]
fn call_add_tuple() {
    let sig = unsafe_fn(
        "add_tuple",
        "unsafe fn add_tuple((a, b): (i32, i32)) -> i32",
        vec![FnArg::Typed(Pat::Tuple("a, b".to_string()), false)],
    );
    let shim = hotpatch(None, false, sig).unwrap();
    assert_eq!(shim.args, vec!["(a, b)".to_string()]);
    let site = site_of(&shim, "proc_macro", add_tuple as fn((i32, i32)) -> i32);
    let mut heap: Heap<LibraryPayload> = Heap::new();
    let (target, guard) = site.enter(&mut heap);
    assert_eq!(target((2, 2)), 4);
    assert!(guard.drop(&mut heap).is_none());
}

#[test]
fn call_add_struct() {
    let sig = unsafe_fn(
        "add_struct",
        "unsafe fn add_struct(Add { a, b }: Add) -> i32",
        vec![FnArg::Typed(
            Pat::Struct("Add".to_string(), vec!["a".to_string(), "b".to_string()]),
            false,
        )],
    );
    let shim = hotpatch(None, false, sig).unwrap();
    assert_eq!(shim.args, vec!["Add { a, b, }".to_string()]);
    let site = site_of(&shim, "proc_macro", add_struct as fn(Add) -> i32);
    let mut heap: Heap<LibraryPayload> = Heap::new();
    let (target, guard) = site.enter(&mut heap);
    assert_eq!(target(Add { a: 2, b: 2 }), 4);
    assert!(guard.drop(&mut heap).is_none());
}

#[test]
fn call_add_tstruct() {
    let sig = unsafe_fn(
        "add_tstruct",
        "unsafe fn add_tstruct(Tuple2(a, b): Tuple2<i32, i32>) -> i32",
        vec![FnArg::Typed(
            Pat::TupleStruct("Tuple2".to_string(), vec![ident("a"), ident("b")]),
            false,
        )],
    );
    let shim = hotpatch(None, false, sig).unwrap();
    assert_eq!(shim.args, vec!["Tuple2(a, b, )".to_string()]);
    let site = site_of(&shim, "proc_macro", add_tstruct as fn(Tuple2<i32, i32>) -> i32);
    let mut heap: Heap<LibraryPayload> = Heap::new();
    let (target, guard) = site.enter(&mut heap);
    assert_eq!(target(Tuple2(2, 2)), 4);
    assert!(guard.drop(&mut heap).is_none());
}

#[test]
fn call_lifetime_bound() {
    let sig = unsafe_fn(
        "lifetime_bound",
        "unsafe fn lifetime_bound<'lt>(a: &'lt i32) -> &'lt i32",
        vec![FnArg::Typed(ident("a"), false)],
    );
    let shim = hotpatch(None, false, sig).unwrap();
    assert_eq!(shim.args, vec!["a".to_string()]);
    let site = site_of(&shim, "proc_macro", lifetime_bound as for<'lt> fn(&'lt i32) -> &'lt i32);
    let mut heap: Heap<LibraryPayload> = Heap::new();
    let (target, guard) = site.enter(&mut heap);
    assert_eq!(target(&1), &1);
    assert!(guard.drop(&mut heap).is_none());
}

#[test]
fn shim_defaults_to_c_unwind() {
    let shim = hotpatch(None, false, unsafe_fn("f", "unsafe fn f()", vec![])).unwrap();
    assert!(!shim.is_checked);
    assert_eq!(shim.outer, "f");
    assert_eq!(shim.inner, "f_inner");
    assert_eq!(shim.abi, Some("C-unwind".to_string()));
    assert_eq!(shim.signature, "unsafe fn f()");
    assert_eq!(shim.wild, 0);
    assert!(shim.args.is_empty());
}

#[test]
fn shim_keeps_a_named_calling_convention() {
    let mut sig = unsafe_fn("f", "unsafe extern \"C\" fn f()", vec![]);
    sig.abi = Some(Some("C".to_string()));
    assert_eq!(hotpatch(None, false, sig).unwrap().abi, Some("C".to_string()));
    let mut bare = unsafe_fn("f", "unsafe extern fn f()", vec![]);
    bare.abi = Some(None);
    assert_eq!(hotpatch(None, false, bare).unwrap().abi, None);
}

#[test]
fn checked_shim_goes_through_c_unwind() {
    let mut sig = unsafe_fn("f", "unsafe extern \"C\" fn f()", vec![]);
    sig.abi = Some(Some("C".to_string()));
    let shim = hotpatch(Some("checked"), true, sig).unwrap();
    assert!(shim.is_checked);
    assert_eq!(shim.abi, Some("C-unwind".to_string()));
}

#[test]
fn args_without_identifier_are_unchecked() {
    assert_eq!(Args::parse(None, false), Ok(Args { is_checked: false }));
    assert_eq!(Args::parse(None, true), Ok(Args { is_checked: false }));
}

#[test]
fn args_know_checked_only() {
    assert_eq!(Args::parse(Some("checked"), true), Ok(Args { is_checked: true }));
    assert_eq!(Args::parse(Some("checked"), false), Err(ArgsError::CheckedDisabled));
    assert_eq!(Args::parse(Some("check"), true), Err(ArgsError::Unsupported));
    assert_eq!(Args::parse(Some("Checked"), true), Err(ArgsError::Unsupported));
    assert_eq!(Args::parse(Some(""), false), Err(ArgsError::Unsupported));
}

#[test]
fn args_errors_have_their_messages() {
    assert_eq!(
        ArgsError::Unsupported.message(),
        "unsupported attribute, is not one of: \"checked\""
    );
    assert_eq!(ArgsError::CheckedDisabled.message(), "feature \"checked\" is disabled");
}

#[test]
fn const_function_is_rejected() {
    let mut sig = unsafe_fn("f", "const unsafe fn f()", vec![]);
    sig.constness = true;
    assert!(matches!(HotpatchFn::parse(sig), Err(Rejection::Const)));
}

#[test]
fn safe_function_is_rejected() {
    let mut sig = unsafe_fn("f", "fn f()", vec![]);
    sig.unsafety = false;
    assert!(matches!(HotpatchFn::parse(sig), Err(Rejection::NotUnsafe)));
}

#[test]
fn extern_rust_function_is_rejected() {
    let mut sig = unsafe_fn("f", "unsafe extern \"Rust\" fn f()", vec![]);
    sig.abi = Some(Some("Rust".to_string()));
    assert!(matches!(HotpatchFn::parse(sig), Err(Rejection::ExternRust)));
}

#[test]
fn receiver_is_rejected() {
    let sig = unsafe_fn(
        "f",
        "unsafe fn f(a: i32, &self)",
        vec![FnArg::Typed(ident("a"), false), FnArg::Receiver],
    );
    assert!(matches!(HotpatchFn::parse(sig), Err(Rejection::Receiver)));
}

#[test]
fn generic_function_is_rejected() {
    let mut with_type = unsafe_fn("f", "unsafe fn f<T>()", vec![]);
    with_type.type_params = 1;
    assert!(matches!(HotpatchFn::parse(with_type), Err(Rejection::Generics)));
    let mut with_const = unsafe_fn("f", "unsafe fn f<const N: usize>()", vec![]);
    with_const.const_params = 1;
    assert!(matches!(HotpatchFn::parse(with_const), Err(Rejection::Generics)));
}

#[test]
fn impl_trait_argument_is_rejected() {
    let sig = unsafe_fn(
        "f",
        "unsafe fn f(a: i32, b: impl Copy)",
        vec![FnArg::Typed(ident("a"), false), FnArg::Typed(ident("b"), true)],
    );
    assert!(matches!(HotpatchFn::parse(sig), Err(Rejection::ImplTrait)));
}

#[test]
fn first_broken_rule_is_reported() {
    let mut sig = unsafe_fn("f", "const fn f<T>(self)", vec![FnArg::Receiver]);
    sig.constness = true;
    sig.unsafety = false;
    sig.type_params = 1;
    assert!(matches!(HotpatchFn::parse(sig), Err(Rejection::Const)));
    let mut sig = unsafe_fn("f", "fn f<T>(self)", vec![FnArg::Receiver]);
    sig.unsafety = false;
    sig.type_params = 1;
    assert!(matches!(HotpatchFn::parse(sig), Err(Rejection::NotUnsafe)));
    let mut sig = unsafe_fn("f", "unsafe fn f<T>(self)", vec![FnArg::Receiver]);
    sig.type_params = 1;
    assert!(matches!(HotpatchFn::parse(sig), Err(Rejection::Receiver)));
}

#[test]
fn rejections_have_their_messages() {
    assert_eq!(Rejection::Const.message(), "a hot-patch function cannot be `const`");
    assert_eq!(Rejection::NotUnsafe.message(), "a hot-patch function must be marked `unsafe`");
    assert_eq!(
        Rejection::ExternRust.message(),
        "a hot-patch function cannot be `extern \"Rust\"`"
    );
    assert_eq!(Rejection::Receiver.message(), "a hot-patch function cannot use `Self`");
    assert_eq!(
        Rejection::Generics.message(),
        "a hot-patch function cannot use non-lifetime generics"
    );
    assert_eq!(
        Rejection::ImplTrait.message(),
        "a hot-patch function cannot use `impl Trait` type parameters"
    );
}

#[test]
fn parse_names_the_inner_function() {
    let parsed = HotpatchFn::parse(unsafe_fn("test_lib_version", "unsafe fn f()", vec![])).unwrap();
    assert_eq!(parsed.inner, "test_lib_version_inner");
    assert_eq!(parsed.outer.ident, "test_lib_version");
}

#[test]
fn patterns_are_handed_on() {
    assert_eq!(fn_input_pat_to_ts(&ident("x")), Ok("x".to_string()));
    assert_eq!(fn_input_pat_to_ts(&Pat::Paren(Box::new(ident("x")))), Ok("x".to_string()));
    assert_eq!(fn_input_pat_to_ts(&Pat::Reference(Box::new(ident("x")))), Ok("x".to_string()));
    assert_eq!(
        fn_input_pat_to_ts(&Pat::Struct("P".to_string(), vec![])),
        Ok("P { }".to_string())
    );
    let nested = Pat::TupleStruct(
        "Outer".to_string(),
        vec![
            Pat::Reference(Box::new(ident("a"))),
            Pat::TupleStruct("Inner".to_string(), vec![ident("b")]),
        ],
    );
    assert_eq!(fn_input_pat_to_ts(&nested), Ok("Outer(a, Inner(b, ), )".to_string()));
}

#[test]
fn other_patterns_are_unsupported() {
    assert_eq!(fn_input_pat_to_ts(&Pat::Other), Err(UnsupportedPattern));
    assert_eq!(fn_input_pat_to_ts(&Pat::Paren(Box::new(Pat::Other))), Err(UnsupportedPattern));
    let nested = Pat::TupleStruct("T".to_string(), vec![ident("a"), Pat::Other, ident("b")]);
    assert_eq!(fn_input_pat_to_ts(&nested), Err(UnsupportedPattern));
    assert_eq!(
        UnsupportedPattern.message(),
        "unsupported type pattern in function input position"
    );
}

#[test]
fn generator_reports_the_first_failure() {
    let mut sig = unsafe_fn("f", "fn f(_: i32)", vec![FnArg::Typed(Pat::Other, false)]);
    sig.unsafety = false;
    assert!(matches!(
        hotpatch(Some("unchecked"), true, sig),
        Err(MacroError::Args(ArgsError::Unsupported))
    ));
    let mut sig = unsafe_fn("f", "fn f(_: i32)", vec![FnArg::Typed(Pat::Other, false)]);
    sig.unsafety = false;
    assert!(matches!(
        hotpatch(None, true, sig),
        Err(MacroError::Rejected(Rejection::NotUnsafe))
    ));
    let sig = unsafe_fn("f", "unsafe fn f(_: i32)", vec![FnArg::Typed(Pat::Other, false)]);
    assert!(matches!(hotpatch(None, true, sig), Err(MacroError::Pattern(UnsupportedPattern))));
}
