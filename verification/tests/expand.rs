use speare::expand::{
    check_output, check_signature, expand_handlers, has_ctx_arg, has_handler_attr, matches_ctx_arg,
    matches_self, segment_matches_ctx, ExpandError, Expansion, HandlerImpl,
};
use speare::syntax::{
    ident_is, FnArg, GenericArgument, ImplItem, ItemImpl, Method, Path, PathArguments,
    PathSegment, ReturnType, Type,
};
use speare::{handler, on_exit, on_init, process, subscriptions};

fn segment(name: &str, arguments: PathArguments) -> PathSegment {
    PathSegment { ident: name.to_string(), arguments }
}

fn ident_path(name: &str) -> Path {
    Path { leading_colon: false, segments: vec![segment(name, PathArguments::Absent)] }
}

fn named(name: &str) -> Type {
    Type::Path(ident_path(name))
}

fn generic(name: &str, args: Vec<GenericArgument>) -> Type {
    Type::Path(Path {
        leading_colon: false,
        segments: vec![segment(name, PathArguments::AngleBracketed(args))],
    })
}

fn reference(to: Type) -> Type {
    Type::Reference(Box::new(to))
}

fn ctx_of_self() -> FnArg {
    FnArg::Typed(reference(generic("Ctx", vec![GenericArgument::Type(named("Self"))])))
}

fn reply(ok: Type, err: Type) -> ReturnType {
    ReturnType::Type(generic("Reply", vec![GenericArgument::Type(ok), GenericArgument::Type(err)]))
}

fn method(name: &str, attrs: Vec<&str>, inputs: Vec<FnArg>, output: ReturnType) -> Method {
    Method {
        ident: name.to_string(),
        attrs: attrs.into_iter().map(ident_path).collect(),
        inputs,
        output,
    }
}

fn a_handler(name: &str, inputs: Vec<FnArg>, output: ReturnType) -> ImplItem {
    ImplItem::Fn(method(name, vec!["handler"], inputs, output))
}

fn block_of(items: Vec<ImplItem>) -> ItemImpl {
    ItemImpl { items }
}

fn bag() -> ItemImpl {
    block_of(vec![
        a_handler(
            "wait",
            vec![FnArg::Receiver, FnArg::Typed(named("Wait")), ctx_of_self()],
            reply(Type::Other, Type::Other),
        ),
        a_handler(
            "immediate",
            vec![FnArg::Receiver, FnArg::Typed(named("Immediate"))],
            reply(Type::Other, named("Never")),
        ),
        a_handler(
            "get",
            vec![FnArg::Receiver, FnArg::Typed(named("Get")), ctx_of_self()],
            reply(generic("Vec", vec![GenericArgument::Type(named("u8"))]), Type::Other),
        ),
    ])
}

fn fault_of(inputs: Vec<FnArg>, output: ReturnType) -> Result<Vec<HandlerImpl>, ExpandError> {
    expand_handlers(&block_of(vec![a_handler("h", inputs, output)]))
}

fn two_args() -> Vec<FnArg> {
    vec![FnArg::Receiver, FnArg::Typed(named("Msg"))]
}

#[test]
fn every_handler_gets_one_impl_in_item_order() {
    let generated = expand_handlers(&bag()).unwrap();
    assert_eq!(
        generated,
        vec![
            HandlerImpl { item: 0, passes_ctx: true },
            HandlerImpl { item: 1, passes_ctx: false },
            HandlerImpl { item: 2, passes_ctx: true },
        ]
    );
}

#[test]
fn generated_impl_names_message_ok_and_err_types() {
    let block = bag();
    let generated = expand_handlers(&block).unwrap();
    assert_eq!(generated[0].message_type(&block), Some(&named("Wait")));
    assert_eq!(generated[1].message_type(&block), Some(&named("Immediate")));
    assert_eq!(generated[1].ok_type(&block), Some(&GenericArgument::Type(Type::Other)));
    assert_eq!(generated[1].err_type(&block), Some(&GenericArgument::Type(named("Never"))));
    assert_eq!(
        generated[2].ok_type(&block),
        Some(&GenericArgument::Type(generic("Vec", vec![GenericArgument::Type(named("u8"))])))
    );
    assert_eq!(generated[2].method(&block).unwrap().ident, "get");
    assert_eq!(generated[2].reply_arguments(&block).unwrap().len(), 2);
}

#[test]
fn accessors_answer_none_where_the_block_has_no_such_part() {
    let block = block_of(vec![
        ImplItem::Other,
        ImplItem::Fn(method("lonely", vec![], vec![FnArg::Receiver], ReturnType::Default)),
        ImplItem::Fn(method(
            "odd",
            vec![],
            vec![FnArg::Receiver, FnArg::Receiver],
            ReturnType::Type(generic("Reply", vec![GenericArgument::Other])),
        )),
    ]);
    let at = |item: usize| HandlerImpl { item, passes_ctx: false };
    assert_eq!(at(0).method(&block), None);
    assert_eq!(at(7).method(&block), None);
    assert_eq!(at(0).message_type(&block), None);
    assert_eq!(at(1).message_type(&block), None);
    assert_eq!(at(2).message_type(&block), None);
    assert_eq!(at(1).reply_arguments(&block), None);
    assert_eq!(at(1).ok_type(&block), None);
    assert_eq!(at(2).ok_type(&block), Some(&GenericArgument::Other));
    assert_eq!(at(2).err_type(&block), None);
}

#[test]
fn items_without_the_attribute_are_left_alone() {
    let block = block_of(vec![
        ImplItem::Fn(method("helper", vec!["inline"], vec![], ReturnType::Default)),
        ImplItem::Other,
        a_handler("h", two_args(), reply(Type::Other, Type::Other)),
        ImplItem::Fn(method("plain", vec![], vec![FnArg::Receiver], ReturnType::Default)),
    ]);
    assert_eq!(expand_handlers(&block), Ok(vec![HandlerImpl { item: 2, passes_ctx: false }]));
}

#[test]
fn empty_block_generates_nothing() {
    assert_eq!(expand_handlers(&block_of(vec![])), Ok(vec![]));
    assert_eq!(process(&block_of(vec![])), Expansion::Generated(vec![]));
}

#[test]
fn handler_without_arguments_is_refused() {
    assert_eq!(fault_of(vec![], reply(Type::Other, Type::Other)), Err(ExpandError::MissingSelf));
}

#[test]
fn handler_without_message_is_refused() {
    assert_eq!(
        fault_of(vec![FnArg::Receiver], reply(Type::Other, Type::Other)),
        Err(ExpandError::MissingMessage)
    );
}

#[test]
fn handler_with_untyped_message_is_refused() {
    assert_eq!(
        fault_of(vec![FnArg::Receiver, FnArg::Receiver], reply(Type::Other, Type::Other)),
        Err(ExpandError::UntypedMessage)
    );
}

#[test]
fn handler_without_return_type_is_refused() {
    assert_eq!(fault_of(two_args(), ReturnType::Default), Err(ExpandError::NotResult));
}

#[test]
fn handler_whose_return_type_is_no_path_is_refused() {
    assert_eq!(fault_of(two_args(), ReturnType::Type(Type::Other)), Err(ExpandError::NotResult));
    assert_eq!(
        fault_of(two_args(), ReturnType::Type(reference(named("Reply")))),
        Err(ExpandError::NotResult)
    );
    let no_segments = Type::Path(Path { leading_colon: false, segments: vec![] });
    assert_eq!(fault_of(two_args(), ReturnType::Type(no_segments)), Err(ExpandError::NotResult));
}

#[test]
fn handler_that_returns_result_is_refused() {
    let result = generic(
        "Result",
        vec![GenericArgument::Type(Type::Other), GenericArgument::Type(Type::Other)],
    );
    assert_eq!(fault_of(two_args(), ReturnType::Type(result)), Err(ExpandError::NotReply));
}

#[test]
fn only_the_last_segment_of_the_return_type_counts() {
    let args = || {
        PathArguments::AngleBracketed(vec![
            GenericArgument::Type(Type::Other),
            GenericArgument::Type(Type::Other),
        ])
    };
    let qualified = Type::Path(Path {
        leading_colon: true,
        segments: vec![segment("speare", PathArguments::Absent), segment("Reply", args())],
    });
    assert_eq!(
        fault_of(two_args(), ReturnType::Type(qualified)),
        Ok(vec![HandlerImpl { item: 0, passes_ctx: false }])
    );
    let inner = Type::Path(Path {
        leading_colon: false,
        segments: vec![segment("Reply", args()), segment("Inner", args())],
    });
    assert_eq!(fault_of(two_args(), ReturnType::Type(inner)), Err(ExpandError::NotReply));
}

#[test]
fn reply_without_generics_is_refused() {
    assert_eq!(
        fault_of(two_args(), ReturnType::Type(named("Reply"))),
        Err(ExpandError::MissingGenerics)
    );
    let call = Type::Path(Path {
        leading_colon: false,
        segments: vec![segment("Reply", PathArguments::Parenthesized)],
    });
    assert_eq!(fault_of(two_args(), ReturnType::Type(call)), Err(ExpandError::MissingGenerics));
}

#[test]
fn reply_with_one_or_three_generics_is_refused() {
    let one = generic("Reply", vec![GenericArgument::Type(Type::Other)]);
    assert_eq!(fault_of(two_args(), ReturnType::Type(one)), Err(ExpandError::WrongGenericsCount));
    let three = generic(
        "Reply",
        vec![GenericArgument::Other, GenericArgument::Other, GenericArgument::Other],
    );
    assert_eq!(
        fault_of(two_args(), ReturnType::Type(three)),
        Err(ExpandError::WrongGenericsCount)
    );
    let none = generic("Reply", vec![]);
    assert_eq!(fault_of(two_args(), ReturnType::Type(none)), Err(ExpandError::WrongGenericsCount));
}

#[test]
fn arguments_are_checked_before_the_return_type() {
    assert_eq!(fault_of(vec![], ReturnType::Default), Err(ExpandError::MissingSelf));
    assert_eq!(
        fault_of(vec![FnArg::Receiver], ReturnType::Type(named("Reply"))),
        Err(ExpandError::MissingMessage)
    );
}

#[test]
fn first_argument_need_not_be_a_receiver() {
    let inputs = vec![FnArg::Typed(named("A")), FnArg::Typed(named("B"))];
    let block = block_of(vec![a_handler("h", inputs, reply(Type::Other, Type::Other))]);
    let generated = expand_handlers(&block).unwrap();
    assert_eq!(generated, vec![HandlerImpl { item: 0, passes_ctx: false }]);
    assert_eq!(generated[0].message_type(&block), Some(&named("B")));
}

#[test]
fn first_faulty_handler_decides() {
    let block = block_of(vec![
        a_handler("good", two_args(), reply(Type::Other, Type::Other)),
        ImplItem::Fn(method("skipped", vec![], vec![], ReturnType::Default)),
        a_handler("second", two_args(), ReturnType::Type(named("Reply"))),
        a_handler("third", vec![], ReturnType::Default),
    ]);
    assert_eq!(expand_handlers(&block), Err(ExpandError::MissingGenerics));
    assert_eq!(
        process(&block),
        Expansion::CompileError("Result return type must have its generics declared.")
    );
}

#[test]
fn process_generates_for_a_block_that_keeps_the_rules() {
    assert_eq!(
        process(&bag()),
        Expansion::Generated(vec![
            HandlerImpl { item: 0, passes_ctx: true },
            HandlerImpl { item: 1, passes_ctx: false },
            HandlerImpl { item: 2, passes_ctx: true },
        ])
    );
}

#[test]
fn each_fault_has_its_text() {
    assert_eq!(ExpandError::MissingSelf.message(), "Expected 'self' as first arg");
    assert_eq!(ExpandError::MissingMessage.message(), "Expected a message argument");
    assert_eq!(
        ExpandError::UntypedMessage.message(),
        "Expected a typed argument for the message"
    );
    assert_eq!(ExpandError::NotResult.message(), "Expected Result type for return value");
    assert_eq!(ExpandError::NotReply.message(), "Expected Reply type in handler return value");
    assert_eq!(
        ExpandError::MissingGenerics.message(),
        "Result return type must have its generics declared."
    );
    assert_eq!(
        ExpandError::WrongGenericsCount.message(),
        "Expected two generics for Reply type, Ok type and Err type"
    );
}

#[test]
fn attribute_must_be_the_bare_identifier() {
    let qualified = Path {
        leading_colon: false,
        segments: vec![
            segment("speare", PathArguments::Absent),
            segment("handler", PathArguments::Absent),
        ],
    };
    let mut m = method("h", vec![], vec![], ReturnType::Default);
    m.attrs = vec![qualified];
    assert!(!has_handler_attr(&m));
    m.attrs.push(ident_path("on_init"));
    assert!(!has_handler_attr(&m));
    m.attrs.push(ident_path("handler"));
    assert!(has_handler_attr(&m));
    assert_eq!(check_signature(&m), Some(ExpandError::MissingSelf));
}

#[test]
fn ident_comparison_is_exact() {
    assert!(ident_is(&"Reply".to_string(), "Reply"));
    assert!(!ident_is(&"reply".to_string(), "Reply"));
    assert!(!ident_is(&"Reply2".to_string(), "Reply"));
    assert!(!ident_is(&"".to_string(), "Reply"));
}

#[test]
fn path_is_ident_only_when_single_plain_segment() {
    assert!(ident_path("Self").is_ident("Self"));
    assert!(!ident_path("Selfish").is_ident("Self"));
    let rooted = Path { leading_colon: true, segments: vec![segment("Self", PathArguments::Absent)] };
    assert!(!rooted.is_ident("Self"));
    let with_args = Path {
        leading_colon: false,
        segments: vec![segment("Self", PathArguments::AngleBracketed(vec![]))],
    };
    assert!(!with_args.is_ident("Self"));
    let two = Path {
        leading_colon: false,
        segments: vec![segment("a", PathArguments::Absent), segment("Self", PathArguments::Absent)],
    };
    assert!(!two.is_ident("Self"));
    let empty = Path { leading_colon: false, segments: vec![] };
    assert!(!empty.is_ident("Self"));
}

#[test]
fn matches_self_wants_the_type_self() {
    assert!(matches_self(&GenericArgument::Type(named("Self"))));
    assert!(!matches_self(&GenericArgument::Type(named("Bag"))));
    assert!(!matches_self(&GenericArgument::Type(reference(named("Self")))));
    assert!(!matches_self(&GenericArgument::Type(Type::Other)));
    assert!(!matches_self(&GenericArgument::Other));
}

#[test]
fn matches_ctx_arg_wants_a_reference_to_ctx_of_self() {
    assert!(matches_ctx_arg(&ctx_of_self()));
    let by_value = FnArg::Typed(generic("Ctx", vec![GenericArgument::Type(named("Self"))]));
    assert!(!matches_ctx_arg(&by_value));
    let of_other = FnArg::Typed(reference(generic("Ctx", vec![GenericArgument::Type(named("Bag"))])));
    assert!(!matches_ctx_arg(&of_other));
    let bare = FnArg::Typed(reference(named("Ctx")));
    assert!(!matches_ctx_arg(&bare));
    let other_name = FnArg::Typed(reference(generic("Context", vec![GenericArgument::Type(named("Self"))])));
    assert!(!matches_ctx_arg(&other_name));
    assert!(!matches_ctx_arg(&FnArg::Receiver));
    assert!(!matches_ctx_arg(&FnArg::Typed(reference(Type::Other))));
    let twice = FnArg::Typed(reference(reference(generic(
        "Ctx",
        vec![GenericArgument::Type(named("Self"))],
    ))));
    assert!(!matches_ctx_arg(&twice));
}

#[test]
fn ctx_may_be_qualified_and_self_may_come_second() {
    let qualified = FnArg::Typed(reference(Type::Path(Path {
        leading_colon: false,
        segments: vec![
            segment("speare", PathArguments::Absent),
            segment(
                "Ctx",
                PathArguments::AngleBracketed(vec![
                    GenericArgument::Other,
                    GenericArgument::Type(named("Self")),
                ]),
            ),
        ],
    })));
    assert!(matches_ctx_arg(&qualified));
    assert!(segment_matches_ctx(&segment(
        "Ctx",
        PathArguments::AngleBracketed(vec![GenericArgument::Type(named("Self"))])
    )));
    assert!(!segment_matches_ctx(&segment("Ctx", PathArguments::Parenthesized)));
    assert!(!segment_matches_ctx(&segment("Ctx", PathArguments::AngleBracketed(vec![]))));
}

#[test]
fn ctx_is_found_at_any_place_among_the_arguments() {
    let first = method("h", vec![], vec![ctx_of_self(), FnArg::Typed(named("M"))], ReturnType::Default);
    assert!(has_ctx_arg(&first));
    let last = method(
        "h",
        vec![],
        vec![FnArg::Receiver, FnArg::Typed(named("M")), FnArg::Typed(named("N")), ctx_of_self()],
        ReturnType::Default,
    );
    assert!(has_ctx_arg(&last));
    let none = method("h", vec![], two_args(), ReturnType::Default);
    assert!(!has_ctx_arg(&none));
}

#[test]
fn check_output_follows_the_rules_in_order() {
    assert_eq!(check_output(&reply(Type::Other, Type::Other)), None);
    assert_eq!(check_output(&ReturnType::Default), Some(ExpandError::NotResult));
    assert_eq!(check_output(&ReturnType::Type(named("Outcome"))), Some(ExpandError::NotReply));
    assert_eq!(check_output(&ReturnType::Type(named("Reply"))), Some(ExpandError::MissingGenerics));
}

#[test]
fn markers_hand_the_item_back() {
    assert_eq!(subscriptions((), "fn a() {}".to_string()), "fn a() {}");
    assert_eq!(on_init("attr", vec![1u8, 2, 3]), vec![1u8, 2, 3]);
    assert_eq!(on_exit(0u8, 17u64), 17u64);
    assert_eq!(handler("ignored", bag()), bag());
}
