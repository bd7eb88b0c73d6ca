//! Handler registration: which methods of an `impl` block are handlers, what
//! is asked of their signatures, and what is generated for each.

use vstd::prelude::*;
use crate::syntax::{
    ident_is, path_is_ident, FnArg, GenericArgument, ImplItem, ItemImpl, Method, Path,
    PathArguments, PathSegment, ReturnType, Type,
};

verus! {

/// Why a handler's signature is refused.
#[derive(Clone, Copy, Debug, PartialEq, Eq, Structural)]
pub enum ExpandError {
    /// The method takes no argument at all.
    MissingSelf,
    /// The method takes one argument only.
    MissingMessage,
    /// The second argument is a receiver.
    UntypedMessage,
    /// No return type is written, or it is not a path.
    NotResult,
    /// The return type's last segment is not `Reply`.
    NotReply,
    /// `Reply` is written without angle brackets.
    MissingGenerics,
    /// `Reply` has more or fewer than two arguments.
    WrongGenericsCount,
}

impl ExpandError {
    /// The text shown to the author of the refused method.
    pub open spec fn text(self) -> Seq<char> {
        match self {
            ExpandError::MissingSelf => "Expected 'self' as first arg"@,
            ExpandError::MissingMessage => "Expected a message argument"@,
            ExpandError::UntypedMessage => "Expected a typed argument for the message"@,
            ExpandError::NotResult => "Expected Result type for return value"@,
            ExpandError::NotReply => "Expected Reply type in handler return value"@,
            ExpandError::MissingGenerics => "Result return type must have its generics declared."@,
            ExpandError::WrongGenericsCount =>
                "Expected two generics for Reply type, Ok type and Err type"@,
        }
    }

    /// The text shown to the author of the refused method.
    pub fn message(&self) -> (s: &'static str)
        ensures
            s@ == self.text(),
    {
        match self {
            ExpandError::MissingSelf => "Expected 'self' as first arg",
            ExpandError::MissingMessage => "Expected a message argument",
            ExpandError::UntypedMessage => "Expected a typed argument for the message",
            ExpandError::NotResult => "Expected Result type for return value",
            ExpandError::NotReply => "Expected Reply type in handler return value",
            ExpandError::MissingGenerics => "Result return type must have its generics declared.",
            ExpandError::WrongGenericsCount =>
                "Expected two generics for Reply type, Ok type and Err type",
        }
    }
}

/// Whether a generic argument is the type `Self`.
pub open spec fn is_self_argument(arg: &GenericArgument) -> bool {
    match arg {
        GenericArgument::Type(Type::Path(path)) => path_is_ident(path, "Self"@),
        _ => false,
    }
}

/// Whether a path segment is `Ctx` with `Self` among its arguments.
pub open spec fn is_ctx_of_self(segment: &PathSegment) -> bool {
    &&& segment.ident@ == "Ctx"@
    &&& match segment.arguments {
        PathArguments::AngleBracketed(args) => exists|i: int|
            0 <= i < args@.len() && #[trigger] is_self_argument(&args@[i]),
        _ => false,
    }
}

/// Whether a path has a segment that is `Ctx` of `Self`.
pub open spec fn names_ctx_of_self(path: &Path) -> bool {
    exists|i: int|
        0 <= i < path.segments@.len() && #[trigger] is_ctx_of_self(&path.segments@[i])
}

/// Whether an argument is a reference to the context of the actor itself,
/// such as `ctx: &Ctx<Self>`.
pub open spec fn is_ctx_argument(arg: &FnArg) -> bool {
    match arg {
        FnArg::Typed(Type::Reference(elem)) => match **elem {
            Type::Path(path) => names_ctx_of_self(&path),
            _ => false,
        },
        _ => false,
    }
}

/// Tells whether a generic argument is the type `Self`.
pub fn matches_self(arg: &GenericArgument) -> (found: bool)
    ensures
        found == is_self_argument(arg),
{
    match arg {
        GenericArgument::Type(Type::Path(path)) => path.is_ident("Self"),
        _ => false,
    }
}

/// Tells whether a path segment is `Ctx` with `Self` among its arguments.
#[verifier::loop_isolation(false)]
pub fn segment_matches_ctx(segment: &PathSegment) -> (found: bool)
    ensures
        found == is_ctx_of_self(segment),
{
    if !ident_is(&segment.ident, "Ctx") {
        return false;
    }
    match &segment.arguments {
        PathArguments::AngleBracketed(args) => {
            let mut i: usize = 0;
            while i < args.len()
                invariant
                    i <= args@.len(),
                    forall|j: int| 0 <= j < i ==> !#[trigger] is_self_argument(&args@[j]),
                decreases args@.len() - i,
            {
                if matches_self(&args[i]) {
                    assert(is_self_argument(&args@[i as int]));
                    return true;
                }
                i += 1;
            }
            false
        },
        _ => false,
    }
}

/// Tells whether an argument is a reference to the context of the actor
/// itself.
#[verifier::loop_isolation(false)]
pub fn matches_ctx_arg(arg: &FnArg) -> (found: bool)
    ensures
        found == is_ctx_argument(arg),
{
    match arg {
        FnArg::Typed(Type::Reference(elem)) => match &**elem {
            Type::Path(path) => {
                let mut i: usize = 0;
                while i < path.segments.len()
                    invariant
                        i <= path.segments@.len(),
                        forall|j: int|
                            0 <= j < i ==> !#[trigger] is_ctx_of_self(&path.segments@[j]),
                    decreases path.segments@.len() - i,
                {
                    if segment_matches_ctx(&path.segments[i]) {
                        assert(is_ctx_of_self(&path.segments@[i as int]));
                        return true;
                    }
                    i += 1;
                }
                false
            },
            _ => false,
        },
        _ => false,
    }
}

/// Whether a method carries the attribute `handler`.
pub open spec fn is_handler(method: &Method) -> bool {
    exists|i: int|
        0 <= i < method.attrs@.len() && #[trigger] path_is_ident(&method.attrs@[i], "handler"@)
}

/// Whether one of a method's arguments is a reference to the context of the
/// actor itself.
pub open spec fn takes_ctx(method: &Method) -> bool {
    exists|i: int| 0 <= i < method.inputs@.len() && #[trigger] is_ctx_argument(&method.inputs@[i])
}

/// What is asked of the return type of a handler: a path whose last segment
/// is `Reply` with two arguments in angle brackets.
pub open spec fn output_fault(output: &ReturnType) -> Option<ExpandError> {
    match output {
        ReturnType::Type(Type::Path(path)) => if path.segments@.len() == 0 {
            Some(ExpandError::NotResult)
        } else if path.segments@.last().ident@ != "Reply"@ {
            Some(ExpandError::NotReply)
        } else {
            match path.segments@.last().arguments {
                PathArguments::AngleBracketed(args) => if args@.len() == 2 {
                    None
                } else {
                    Some(ExpandError::WrongGenericsCount)
                },
                _ => Some(ExpandError::MissingGenerics),
            }
        },
        _ => Some(ExpandError::NotResult),
    }
}

/// The first rule that a handler's signature breaks, if it breaks one. The
/// arguments are looked at before the return type.
pub open spec fn signature_fault(method: &Method) -> Option<ExpandError> {
    if method.inputs@.len() == 0 {
        Some(ExpandError::MissingSelf)
    } else if method.inputs@.len() == 1 {
        Some(ExpandError::MissingMessage)
    } else if !(method.inputs@[1] is Typed) {
        Some(ExpandError::UntypedMessage)
    } else {
        output_fault(&method.output)
    }
}

/// Whether an item is a method that carries the attribute `handler`.
pub open spec fn is_handler_item(item: &ImplItem) -> bool {
    match item {
        ImplItem::Fn(method) => is_handler(method),
        ImplItem::Other => false,
    }
}

/// The rule that an item breaks. Only handlers are held to the rules.
pub open spec fn item_fault(item: &ImplItem) -> Option<ExpandError> {
    match item {
        ImplItem::Fn(method) => if is_handler(method) {
            signature_fault(method)
        } else {
            None
        },
        ImplItem::Other => None,
    }
}

/// Tells whether a method carries the attribute `handler`.
#[verifier::loop_isolation(false)]
pub fn has_handler_attr(method: &Method) -> (found: bool)
    ensures
        found == is_handler(method),
{
    let mut i: usize = 0;
    while i < method.attrs.len()
        invariant
            i <= method.attrs@.len(),
            forall|j: int| 0 <= j < i ==> !#[trigger] path_is_ident(&method.attrs@[j], "handler"@),
        decreases method.attrs@.len() - i,
    {
        if method.attrs[i].is_ident("handler") {
            assert(path_is_ident(&method.attrs@[i as int], "handler"@));
            return true;
        }
        i += 1;
    }
    false
}

/// Tells whether one of a method's arguments is a reference to the context
/// of the actor itself.
#[verifier::loop_isolation(false)]
pub fn has_ctx_arg(method: &Method) -> (found: bool)
    ensures
        found == takes_ctx(method),
{
    let mut i: usize = 0;
    while i < method.inputs.len()
        invariant
            i <= method.inputs@.len(),
            forall|j: int| 0 <= j < i ==> !#[trigger] is_ctx_argument(&method.inputs@[j]),
        decreases method.inputs@.len() - i,
    {
        if matches_ctx_arg(&method.inputs[i]) {
            assert(is_ctx_argument(&method.inputs@[i as int]));
            return true;
        }
        i += 1;
    }
    false
}

/// Holds a return type to the rules for handlers.
pub fn check_output(output: &ReturnType) -> (fault: Option<ExpandError>)
    ensures
        fault == output_fault(output),
{
    match output {
        ReturnType::Type(Type::Path(path)) => {
            let n: usize = path.segments.len();
            if n == 0 {
                return Some(ExpandError::NotResult);
            }
            let last = &path.segments[n - 1];
            if !ident_is(&last.ident, "Reply") {
                return Some(ExpandError::NotReply);
            }
            match &last.arguments {
                PathArguments::AngleBracketed(args) => if args.len() == 2 {
                    None
                } else {
                    Some(ExpandError::WrongGenericsCount)
                },
                _ => Some(ExpandError::MissingGenerics),
            }
        },
        _ => Some(ExpandError::NotResult),
    }
}

/// Holds a method's signature to the rules for handlers.
pub fn check_signature(method: &Method) -> (fault: Option<ExpandError>)
    ensures
        fault == signature_fault(method),
{
    if method.inputs.len() == 0 {
        return Some(ExpandError::MissingSelf);
    }
    if method.inputs.len() == 1 {
        return Some(ExpandError::MissingMessage);
    }
    match &method.inputs[1] {
        FnArg::Typed(_) => check_output(&method.output),
        FnArg::Receiver => Some(ExpandError::UntypedMessage),
    }
}

/// What is generated for one handler: an implementation of the handling
/// trait for the type of the method's second argument, which calls the
/// method.
#[derive(Clone, Copy, Debug, PartialEq, Eq, Structural)]
pub struct HandlerImpl {
    /// The place of the method among the items of the block.
    pub item: usize,
    /// Whether the call hands the context on to the method.
    pub passes_ctx: bool,
}

impl HandlerImpl {
    /// The method that the implementation calls.
    pub open spec fn method_of(self, block: &ItemImpl) -> Option<Method> {
        if self.item < block.items@.len() {
            match block.items@[self.item as int] {
                ImplItem::Fn(method) => Some(method),
                ImplItem::Other => None,
            }
        } else {
            None
        }
    }

    /// The message type: the type of the method's second argument.
    pub open spec fn message_type_of(self, block: &ItemImpl) -> Option<Type> {
        match self.method_of(block) {
            Some(method) => if method.inputs@.len() > 1 {
                match method.inputs@[1] {
                    FnArg::Typed(ty) => Some(ty),
                    FnArg::Receiver => None,
                }
            } else {
                None
            },
            None => None,
        }
    }

    /// The arguments of the last segment of the method's return type.
    pub open spec fn reply_arguments_of(self, block: &ItemImpl) -> Option<Seq<GenericArgument>> {
        match self.method_of(block) {
            Some(method) => match method.output {
                ReturnType::Type(Type::Path(path)) => if path.segments@.len() > 0 {
                    match path.segments@.last().arguments {
                        PathArguments::AngleBracketed(args) => Some(args@),
                        _ => None,
                    }
                } else {
                    None
                },
                _ => None,
            },
            None => None,
        }
    }

    /// The success type: the first argument of the return type.
    pub open spec fn ok_type_of(self, block: &ItemImpl) -> Option<GenericArgument> {
        match self.reply_arguments_of(block) {
            Some(args) => if args.len() > 0 {
                Some(args[0])
            } else {
                None
            },
            None => None,
        }
    }

    /// The failure type: the second argument of the return type.
    pub open spec fn err_type_of(self, block: &ItemImpl) -> Option<GenericArgument> {
        match self.reply_arguments_of(block) {
            Some(args) => if args.len() > 1 {
                Some(args[1])
            } else {
                None
            },
            None => None,
        }
    }

    /// Whether this is what is generated for a handler of `block` that keeps
    /// the rules.
    pub open spec fn describes(self, block: &ItemImpl) -> bool {
        &&& self.item < block.items@.len()
        &&& is_handler_item(&block.items@[self.item as int])
        &&& item_fault(&block.items@[self.item as int]) is None
        &&& self.passes_ctx == takes_ctx(&self.method_of(block).unwrap())
    }

    /// The method that the implementation calls, if `block` has a method at
    /// that place.
    pub fn method<'a>(&self, block: &'a ItemImpl) -> (found: Option<&'a Method>)
        ensures
            match found {
                Some(method) => self.method_of(block) == Some(*method),
                None => self.method_of(block) is None,
            },
    {
        if self.item < block.items.len() {
            match &block.items[self.item] {
                ImplItem::Fn(method) => Some(method),
                ImplItem::Other => None,
            }
        } else {
            None
        }
    }

    /// The message type, if the method has a typed second argument.
    pub fn message_type<'a>(&self, block: &'a ItemImpl) -> (found: Option<&'a Type>)
        ensures
            match found {
                Some(ty) => self.message_type_of(block) == Some(*ty),
                None => self.message_type_of(block) is None,
            },
    {
        match self.method(block) {
            Some(method) => if method.inputs.len() > 1 {
                match &method.inputs[1] {
                    FnArg::Typed(ty) => Some(ty),
                    FnArg::Receiver => None,
                }
            } else {
                None
            },
            None => None,
        }
    }

    /// The arguments of the last segment of the method's return type, if it
    /// is a path that ends in angle brackets.
    pub fn reply_arguments<'a>(&self, block: &'a ItemImpl) -> (found: Option<
        &'a Vec<GenericArgument>,
    >)
        ensures
            match found {
                Some(args) => self.reply_arguments_of(block) == Some(args@),
                None => self.reply_arguments_of(block) is None,
            },
    {
        match self.method(block) {
            Some(method) => match &method.output {
                ReturnType::Type(Type::Path(path)) => {
                    let n: usize = path.segments.len();
                    if n > 0 {
                        match &path.segments[n - 1].arguments {
                            PathArguments::AngleBracketed(args) => Some(args),
                            _ => None,
                        }
                    } else {
                        None
                    }
                },
                _ => None,
            },
            None => None,
        }
    }

    /// The success type, if the return type has a first argument.
    pub fn ok_type<'a>(&self, block: &'a ItemImpl) -> (found: Option<&'a GenericArgument>)
        ensures
            match found {
                Some(arg) => self.ok_type_of(block) == Some(*arg),
                None => self.ok_type_of(block) is None,
            },
    {
        match self.reply_arguments(block) {
            Some(args) => if args.len() > 0 {
                Some(&args[0])
            } else {
                None
            },
            None => None,
        }
    }

    /// The failure type, if the return type has a second argument.
    pub fn err_type<'a>(&self, block: &'a ItemImpl) -> (found: Option<&'a GenericArgument>)
        ensures
            match found {
                Some(arg) => self.err_type_of(block) == Some(*arg),
                None => self.err_type_of(block) is None,
            },
    {
        match self.reply_arguments(block) {
            Some(args) => if args.len() > 1 {
                Some(&args[1])
            } else {
                None
            },
            None => None,
        }
    }
}

/// A handler that keeps the rules has a message type, a success type and a
/// failure type.
pub proof fn generated_impl_is_complete(block: &ItemImpl, generated: HandlerImpl)
    requires
        generated.describes(block),
    ensures
        generated.message_type_of(block) is Some,
        generated.ok_type_of(block) is Some,
        generated.err_type_of(block) is Some,
{
}

/// Whether `e` is the fault of the first item of `block` that breaks a rule,
/// and `at` its place.
pub open spec fn first_fault_is(block: &ItemImpl, at: int, e: ExpandError) -> bool {
    &&& 0 <= at < block.items@.len()
    &&& item_fault(&block.items@[at]) == Some(e)
    &&& forall|j: int| 0 <= j < at ==> #[trigger] item_fault(&block.items@[j]) is None
}

/// Whether no item of `block` breaks a rule.
pub open spec fn keeps_rules(block: &ItemImpl) -> bool {
    forall|j: int| 0 <= j < block.items@.len() ==> #[trigger] item_fault(&block.items@[j]) is None
}

/// Whether `generated` holds one implementation for each handler of the
/// first `upto` items of `block`, in the order of the items, and nothing
/// else.
pub open spec fn covers_handlers(block: &ItemImpl, upto: int, generated: Seq<HandlerImpl>) -> bool {
    &&& forall|k: int|
        0 <= k < generated.len() ==> (#[trigger] generated[k]).item < upto
            && generated[k].describes(block)
    &&& forall|k: int, l: int|
        0 <= k < l < generated.len() ==> (#[trigger] generated[k]).item
            < (#[trigger] generated[l]).item
    &&& forall|j: int|
        0 <= j < upto && j < block.items@.len() && #[trigger] is_handler_item(&block.items@[j])
            ==> exists|k: int| 0 <= k < generated.len() && (#[trigger] generated[k]).item == j
}

/// Goes through the items of an `impl` block and states what is generated
/// for its handlers: one implementation for each, in the order of the items.
/// The first handler that breaks a rule ends the work with its fault.
#[verifier::loop_isolation(false)]
pub fn expand_handlers(block: &ItemImpl) -> (r: Result<Vec<HandlerImpl>, ExpandError>)
    ensures
        match r {
            Ok(generated) => keeps_rules(block) && covers_handlers(
                block,
                block.items@.len() as int,
                generated@,
            ),
            Err(e) => exists|at: int| first_fault_is(block, at, e),
        },
{
    let mut generated: Vec<HandlerImpl> = Vec::new();
    let mut i: usize = 0;
    while i < block.items.len()
        invariant
            i <= block.items@.len(),
            forall|j: int| 0 <= j < i ==> #[trigger] item_fault(&block.items@[j]) is None,
            covers_handlers(block, i as int, generated@),
        decreases block.items@.len() - i,
    {
        let ghost before = generated@;
        match &block.items[i] {
            ImplItem::Fn(method) => {
                if has_handler_attr(method) {
                    match check_signature(method) {
                        Some(e) => {
                            assert(first_fault_is(block, i as int, e));
                            return Err(e);
                        },
                        None => {
                            let passes_ctx = has_ctx_arg(method);
                            generated.push(HandlerImpl { item: i, passes_ctx });
                            proof {
                                let last = before.len() as int;
                                assert(generated@[last].item == i);
                                assert(generated@[last].describes(block));
                                assert forall|j: int|
                                    0 <= j < i + 1 && j < block.items@.len()
                                        && #[trigger] is_handler_item(
                                        &block.items@[j],
                                    ) implies exists|k: int|
                                    0 <= k < generated@.len() && (#[trigger] generated@[k]).item
                                        == j by {
                                    if j < i {
                                        let k = choose|k: int|
                                            0 <= k < before.len() && (#[trigger] before[k]).item
                                                == j;
                                        assert(generated@[k].item == j);
                                    } else {
                                        assert(generated@[last].item == j);
                                    }
                                }
                            }
                        },
                    }
                }
            },
            ImplItem::Other => {},
        }
        i += 1;
    }
    Ok(generated)
}

/// What comes of an `impl` block.
#[derive(Debug, PartialEq, Eq)]
pub enum Expansion {
    /// The block as it stands, followed by these implementations.
    Generated(Vec<HandlerImpl>),
    /// A compile error with this text, in place of the block.
    CompileError(&'static str),
}

/// States what comes of an `impl` block: the implementations for its
/// handlers, or a compile error that carries the text of the first fault.
pub fn process(block: &ItemImpl) -> (expansion: Expansion)
    ensures
        match expansion {
            Expansion::Generated(generated) => keeps_rules(block) && covers_handlers(
                block,
                block.items@.len() as int,
                generated@,
            ),
            Expansion::CompileError(text) => exists|at: int, e: ExpandError|
                first_fault_is(block, at, e) && text@ == e.text(),
        },
{
    match expand_handlers(block) {
        Ok(generated) => Expansion::Generated(generated),
        Err(e) => Expansion::CompileError(e.message()),
    }
}

/// Marks the method that lists an actor's subscriptions. The item stays as
/// it is.
pub fn subscriptions<A, T>(_attr: A, item: T) -> (kept: T)
    ensures
        kept == item,
{
    item
}

/// Marks the method that runs before an actor's first delivery. The item
/// stays as it is.
pub fn on_init<A, T>(_attr: A, item: T) -> (kept: T)
    ensures
        kept == item,
{
    item
}

/// Marks the method that runs when an actor ends. The item stays as it is.
pub fn on_exit<A, T>(_attr: A, item: T) -> (kept: T)
    ensures
        kept == item,
{
    item
}

/// Marks a method as the handler of the message type of its second
/// argument. The item stays as it is.
pub fn handler<A, T>(_attr: A, item: T) -> (kept: T)
    ensures
        kept == item,
{
    item
}

} // verus!
