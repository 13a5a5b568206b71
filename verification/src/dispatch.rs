//! The calldata dispatcher: from the selector and the encoded arguments of a
//! call to the handler of the function, and from what the handler returns to
//! the bytes that go back to the host.

use vstd::prelude::*;
use crate::abi::{
    all_sized, decode, decoding, encode, encoding, have_types, lemma_decode_encode, types_of,
    values_view, AbiTerm, AbiValue,
};
use crate::context::{released, static_view_of, Context};
use crate::error::{panic_payload, panic_selector, revert_data, PrecompileError, Result};
use crate::interface::{
    functions_view, param_types, types_of_params, FunctionKind, FunctionModel, InterfaceFunction,
};

verus! {

/// The bytes that a reverted call hands back to the host.
#[derive(Clone, Debug, PartialEq, Eq)]
pub struct RevertPayload {
    pub data: Vec<u8>,
}

/// Two functions of one contract that have the same selector.
#[derive(Clone, Copy, Debug, PartialEq, Eq, Structural)]
pub struct DuplicateSelector {
    pub first: usize,
    pub second: usize,
}

/// The bytes of each selector of a list.
pub open spec fn selectors_view(selectors: Seq<[u8; 4]>) -> Seq<Seq<u8>> {
    Seq::new(selectors.len(), |i: int| selectors[i]@)
}

/// Whether the selectors of a list differ from one another.
pub open spec fn selectors_distinct(selectors: Seq<Seq<u8>>) -> bool {
    forall|i: int, j: int|
        0 <= i < j < selectors.len() ==> #[trigger] selectors[i] != #[trigger] selectors[j]
}

/// Whether no selector before place `n` equals `selector`.
pub open spec fn no_selector_before(selectors: Seq<Seq<u8>>, n: int, selector: Seq<u8>) -> bool {
    forall|k: int| 0 <= k < n && k < selectors.len() ==> #[trigger] selectors[k] != selector
}

/// Decides whether two selectors are the same.
pub fn same_selector(a: &[u8; 4], b: &[u8; 4]) -> (r: bool)
    ensures
        r == (a@ == b@),
{
    let r = a[0] == b[0] && a[1] == b[1] && a[2] == b[2] && a[3] == b[3];
    assert(r == (a@ =~= b@));
    r
}

/// Looks for two equal selectors: the first selector that occurs earlier in
/// the list too, with the first place at which it occurs.
pub fn find_duplicate_selector(selectors: &Vec<[u8; 4]>) -> (r: Option<DuplicateSelector>)
    ensures
        match r {
            None => selectors_distinct(selectors_view(selectors@)),
            Some(d) => d.first < d.second && d.second < selectors@.len() && selectors@[d.first as int]@
                == selectors@[d.second as int]@ && selectors_distinct(
                selectors_view(selectors@).subrange(0, d.second as int),
            ) && no_selector_before(
                selectors_view(selectors@),
                d.first as int,
                selectors@[d.second as int]@,
            ),
        },
{
    let ghost sels = selectors_view(selectors@);
    let mut j: usize = 0;
    while j < selectors.len()
        invariant
            j <= selectors@.len(),
            sels == selectors_view(selectors@),
            selectors_distinct(sels.subrange(0, j as int)),
        decreases selectors@.len() - j,
    {
        let mut i: usize = 0;
        while i < j
            invariant
                i <= j < selectors@.len(),
                sels == selectors_view(selectors@),
                selectors_distinct(sels.subrange(0, j as int)),
                no_selector_before(sels, i as int, sels[j as int]),
            decreases j - i,
        {
            if same_selector(&selectors[i], &selectors[j]) {
                return Some(DuplicateSelector { first: i, second: j });
            }
            i = i + 1;
        }
        proof {
            let next = sels.subrange(0, j + 1);
            assert forall|a: int, b: int| 0 <= a < b < next.len() implies #[trigger] next[a]
                != #[trigger] next[b] by {
                if b < j {
                    assert(sels.subrange(0, j as int)[a] != sels.subrange(0, j as int)[b]);
                } else {
                    assert(sels[a] != sels[j as int]);
                }
            }
        }
        j = j + 1;
    }
    assert(sels.subrange(0, sels.len() as int) =~= sels);
    None
}

/// The selectors of the functions of a list.
pub open spec fn selectors_of(functions: Seq<FunctionModel>) -> Seq<Seq<u8>> {
    Seq::new(functions.len(), |i: int| functions[i].selector())
}

/// Computes the selector of each function of a list.
pub fn compute_selectors(functions: &Vec<InterfaceFunction>) -> (r: Vec<[u8; 4]>)
    ensures
        selectors_view(r@) == selectors_of(functions_view(functions@)),
{
    let mut out: Vec<[u8; 4]> = Vec::new();
    let mut i: usize = 0;
    while i < functions.len()
        invariant
            i <= functions@.len(),
            out@.len() == i,
            forall|k: int| 0 <= k < i ==> out@[k]@ == functions@[k]@.selector(),
        decreases functions@.len() - i,
    {
        out.push(functions[i].selector());
        i = i + 1;
    }
    assert(selectors_view(out@) =~= selectors_of(functions_view(functions@)));
    out
}

/// Where a call is routed: to the function at a place of the table, or to a
/// failure.
pub open spec fn routed(
    functions: Seq<FunctionModel>,
    input: Seq<u8>,
    is_static: bool,
    outcome: Result<int>,
) -> bool {
    let selectors = selectors_of(functions);
    match outcome {
        Ok(i) => input.len() >= 4 && 0 <= i < functions.len() && selectors[i] == input.subrange(
            0,
            4,
        ) && no_selector_before(selectors, i, input.subrange(0, 4)) && !(is_static
            && !functions[i].is_view),
        Err(PrecompileError::InvalidSelector) => input.len() < 4,
        Err(PrecompileError::UnknownSelector) => input.len() >= 4 && no_selector_before(
            selectors,
            functions.len() as int,
            input.subrange(0, 4),
        ),
        Err(PrecompileError::StateMutabilityViolation) => input.len() >= 4 && exists|i: int|
            0 <= i < functions.len() && #[trigger] selectors[i] == input.subrange(0, 4)
                && no_selector_before(selectors, i, input.subrange(0, 4)) && is_static
                && !functions[i].is_view,
        Err(_) => false,
    }
}

/// A place of the table as a number, a failure as it is.
pub open spec fn route_view(r: Result<usize>) -> Result<int> {
    match r {
        Ok(i) => Ok(i as int),
        Err(e) => Err(e),
    }
}

/// The functions of one contract with their selectors, no two of which are the
/// same.
pub struct DispatchTable {
    functions: Vec<InterfaceFunction>,
    selectors: Vec<[u8; 4]>,
}

impl DispatchTable {
    #[verifier::type_invariant]
    spec fn consistent(self) -> bool {
        selectors_view(self.selectors@) == selectors_of(functions_view(self.functions@))
            && selectors_distinct(selectors_view(self.selectors@))
    }

    /// The functions of the table.
    pub closed spec fn functions(&self) -> Seq<FunctionModel> {
        functions_view(self.functions@)
    }

    /// The table of the given functions. There is none where two of the
    /// functions have the same selector.
    pub fn new(functions: Vec<InterfaceFunction>) -> (r: core::result::Result<
        DispatchTable,
        DuplicateSelector,
    >)
        ensures
            match r {
                Ok(table) => table.functions() == functions_view(functions@) && selectors_distinct(
                    selectors_of(functions_view(functions@)),
                ),
                Err(d) => d.first < d.second && d.second < functions@.len()
                    && functions@[d.first as int]@.selector()
                    == functions@[d.second as int]@.selector(),
            },
    {
        let selectors = compute_selectors(&functions);
        match find_duplicate_selector(&selectors) {
            Some(d) => {
                proof {
                    let computed = selectors_view(selectors@);
                    let models = functions_view(functions@);
                    assert(computed.len() == selectors@.len());
                    assert(selectors_of(models).len() == models.len());
                    assert(models.len() == functions@.len());
                    assert(computed[d.first as int] == selectors@[d.first as int]@);
                    assert(computed[d.second as int] == selectors@[d.second as int]@);
                    assert(selectors_of(models)[d.first as int] == models[d.first as int].selector());
                    assert(selectors_of(models)[d.second as int]
                        == models[d.second as int].selector());
                }
                Err(d)
            },
            None => {
                let ghost models = functions_view(functions@);
                let table = DispatchTable { functions, selectors };
                assert(table.functions() == models);
                Ok(table)
            },
        }
    }

    /// The number of functions of the table. No two of them have the same
    /// selector, and every selector is four bytes.
    pub fn len(&self) -> (r: usize)
        ensures
            r == self.functions().len(),
            selectors_distinct(selectors_of(self.functions())),
            forall|i: int|
                0 <= i < self.functions().len() ==> (#[trigger] self.functions()[i]).selector().len()
                    == 4,
    {
        proof {
            use_type_invariant(self);
            assert forall|i: int| 0 <= i < self.functions().len() implies (
            #[trigger] self.functions()[i]).selector().len() == 4 by {
                assert(selectors_of(self.functions()).len() == self.functions().len());
                assert(selectors_view(self.selectors@).len() == self.selectors@.len());
                assert(selectors_of(self.functions())[i] == self.functions()[i].selector());
                assert(selectors_view(self.selectors@)[i] == self.selectors@[i]@);
            }
        }
        self.functions.len()
    }

    /// The function at place `i` of the table.
    pub fn function(&self, i: usize) -> (r: &InterfaceFunction)
        requires
            i < self.functions().len(),
        ensures
            r@ == self.functions()[i as int],
    {
        &self.functions[i]
    }

    /// Routes a call: finds the function that the first four bytes of the
    /// calldata name, and refuses one that changes state in a static call.
    pub fn route(&self, input: &[u8], is_static: bool) -> (r: Result<usize>)
        ensures
            routed(self.functions(), input@, is_static, route_view(r)),
    {
        proof {
            use_type_invariant(self);
        }
        if input.len() < 4 {
            return Err(PrecompileError::InvalidSelector);
        }
        let wanted: [u8; 4] = [input[0], input[1], input[2], input[3]];
        assert(wanted@ =~= input@.subrange(0, 4));
        let ghost selectors = selectors_of(self.functions());
        let mut i: usize = 0;
        while i < self.selectors.len()
            invariant
                i <= self.selectors@.len(),
                selectors == selectors_view(self.selectors@),
                selectors == selectors_of(functions_view(self.functions@)),
                input@.len() >= 4,
                wanted@ == input@.subrange(0, 4),
                no_selector_before(selectors, i as int, wanted@),
            decreases self.selectors@.len() - i,
        {
            if same_selector(&self.selectors[i], &wanted) {
                assert(selectors[i as int] == wanted@);
                if is_static && !self.functions[i].is_view {
                    return Err(PrecompileError::StateMutabilityViolation);
                }
                return Ok(i);
            }
            i = i + 1;
        }
        Err(PrecompileError::UnknownSelector)
    }
}

/// What a handler returned, as plain data.
pub open spec fn result_view(r: Result<Vec<AbiValue>>) -> Result<Seq<AbiTerm>> {
    match r {
        Ok(values) => Ok(values_view(values@)),
        Err(e) => Err(e),
    }
}

/// What went back to the host, as plain data.
pub open spec fn output_view(r: core::result::Result<Vec<u8>, RevertPayload>) -> core::result::Result<
    Seq<u8>,
    Seq<u8>,
> {
    match r {
        Ok(bytes) => Ok(bytes@),
        Err(payload) => Err(payload.data@),
    }
}

/// The handlers of a native contract.
pub trait NativeContract {
    /// Whether a call of `function` with the arguments `args`, begun in the
    /// context `before`, can end in the context `after` with `result`.
    spec fn handles(
        &self,
        function: FunctionModel,
        args: Seq<AbiTerm>,
        before: Context,
        after: Context,
        result: Result<Seq<AbiTerm>>,
    ) -> bool;

    /// Runs the handler of `function` on the decoded arguments.
    fn call(&self, ctx: &mut Context, function: &InterfaceFunction, args: &Vec<AbiValue>) -> (r:
        Result<Vec<AbiValue>>)
        ensures
            self.handles(
                function@,
                values_view(args@),
                *old(ctx),
                *final(ctx),
                result_view(r),
            ),
    ;
}

/// A native contract whose handlers are one function: it is handed the context,
/// the function that was called and the decoded arguments. A call does what
/// that function does; the dispatcher itself knows nothing of it.
pub struct FnContract<
    F: Fn(&mut Context, &InterfaceFunction, &Vec<AbiValue>) -> Result<Vec<AbiValue>>,
> {
    handler: F,
}

impl<F: Fn(&mut Context, &InterfaceFunction, &Vec<AbiValue>) -> Result<Vec<AbiValue>>> FnContract<
    F,
> {
    #[verifier::type_invariant]
    spec fn callable(self) -> bool {
        forall|ctx: &mut Context, function: &InterfaceFunction, args: &Vec<AbiValue>|
            call_requires(self.handler, (ctx, function, args))
    }

    /// The function that is the handlers of the contract.
    pub closed spec fn handler(&self) -> F {
        self.handler
    }

    /// The contract whose handlers are `handler`, a function that can be
    /// called on every context, function and list of arguments.
    pub fn new(handler: F) -> (r: Self)
        requires
            forall|ctx: &mut Context, function: &InterfaceFunction, args: &Vec<AbiValue>|
                call_requires(handler, (ctx, function, args)),
        ensures
            r.handler() == handler,
    {
        FnContract { handler }
    }
}

impl<
    F: Fn(&mut Context, &InterfaceFunction, &Vec<AbiValue>) -> Result<Vec<AbiValue>>,
> NativeContract for FnContract<F> {
    open spec fn handles(
        &self,
        function: FunctionModel,
        args: Seq<AbiTerm>,
        before: Context,
        after: Context,
        result: Result<Seq<AbiTerm>>,
    ) -> bool {
        true
    }

    fn call(&self, ctx: &mut Context, function: &InterfaceFunction, args: &Vec<AbiValue>) -> (r:
        Result<Vec<AbiValue>>)
        ensures
            exists|inner: &mut Context|
                *inner == *old(ctx) && #[trigger] call_ensures(
                    self.handler(),
                    (inner, function, args),
                    r,
                ) && *final(inner) == *final(ctx),
    {
        proof {
            use_type_invariant(self);
        }
        let r = (self.handler)(ctx, function, args);
        assert(self.handler() == self.handler);
        r
    }
}

/// The bytes that go back to the host for what a handler returned: the
/// encoding of the returned values, nothing for a function that returns
/// nothing, and a revert payload for a failure. Returned values that do not
/// have the types that the function declares revert with the panic selector.
pub open spec fn outcome_bytes(function: FunctionModel, result: Result<Seq<AbiTerm>>) -> core::result::Result<
    Seq<u8>,
    Seq<u8>,
> {
    match result {
        Err(e) => Err(revert_data(e)),
        Ok(values) => if function.kind() == FunctionKind::MutateVoid {
            Ok(Seq::empty())
        } else if types_of(values) == function.return_type {
            Ok(encoding(values))
        } else {
            Err(panic_selector())
        },
    }
}

/// Turns what a handler returned into the bytes that go back to the host.
pub fn encode_outcome(function: &InterfaceFunction, result: Result<Vec<AbiValue>>) -> (r:
    core::result::Result<Vec<u8>, RevertPayload>)
    ensures
        output_view(r) == outcome_bytes(function@, result_view(result)),
{
    match result {
        Err(e) => Err(RevertPayload { data: e.revert_payload() }),
        Ok(values) => {
            match function.kind() {
                FunctionKind::MutateVoid => Ok(Vec::new()),
                _ => {
                    if have_types(&values, &function.return_type) {
                        Ok(encode(&values))
                    } else {
                        Err(RevertPayload { data: panic_payload() })
                    }
                },
            }
        },
    }
}

/// The arguments that the calldata carries behind its selector.
pub open spec fn argument_bytes(input: Seq<u8>) -> Seq<u8> {
    input.subrange(4, input.len() as int)
}

/// Whether the handler of `function`, run on `args` in the context `before`,
/// can end in the context `after` with `out` going back to the host.
pub open spec fn handled_call<C: NativeContract>(
    contract: &C,
    function: FunctionModel,
    args: Seq<AbiTerm>,
    before: Context,
    after: Context,
    out: core::result::Result<Seq<u8>, Seq<u8>>,
) -> bool {
    exists|result: Result<Seq<AbiTerm>>| #[trigger]
        contract.handles(function, args, before, after, result) && out == outcome_bytes(
            function,
            result,
        )
}

/// Whether a call of `function` with the arguments `args`, made from the
/// context `before`, can end with that context as `after` and with `out` going
/// back to the host.
///
/// A static call runs the handler in a context of its own that reads the store
/// of `before` and cannot write it, and leaves `before` as it was. Any other
/// call runs the handler in `before`; what the handler leaves is the store and
/// the log afterwards, under the frames of `before`.
pub open spec fn called<C: NativeContract>(
    contract: &C,
    function: FunctionModel,
    args: Seq<AbiTerm>,
    is_static: bool,
    before: Context,
    after: Context,
    out: core::result::Result<Seq<u8>, Seq<u8>>,
) -> bool {
    if is_static {
        after == before && exists|inner: Context, left: Context|
            static_view_of(before, inner) && #[trigger] handled_call(
                contract,
                function,
                args,
                inner,
                left,
                out,
            )
    } else {
        exists|left: Context| #[trigger]
            handled_call(contract, function, args, before, left, out) && released(
                before,
                left,
                after,
            )
    }
}

/// Whether a call that is routed as `route` says can end in the context `after`
/// with `out` going back to the host.
pub open spec fn dispatched_to<C: NativeContract>(
    contract: &C,
    functions: Seq<FunctionModel>,
    input: Seq<u8>,
    is_static: bool,
    before: Context,
    after: Context,
    out: core::result::Result<Seq<u8>, Seq<u8>>,
    route: Result<int>,
) -> bool {
    match route {
        Err(e) => after == before && out == Err::<Seq<u8>, Seq<u8>>(revert_data(e)),
        Ok(i) => match decoding(param_types(functions[i].params), argument_bytes(input)) {
            None => after == before && out == Err::<Seq<u8>, Seq<u8>>(
                revert_data(PrecompileError::AbiDecodeError(functions[i].name)),
            ),
            Some(args) => called(contract, functions[i], args, is_static, before, after, out),
        },
    }
}

/// Whether a call with the calldata `input`, begun in the context `before`, can
/// end in the context `after` with `out` going back to the host.
///
/// A call that is not routed to a function, or whose arguments do not decode,
/// reverts and leaves the context as it was. Else the handler of the function
/// ran on the decoded arguments, and what it returned went back encoded.
pub open spec fn dispatched<C: NativeContract>(
    contract: &C,
    functions: Seq<FunctionModel>,
    input: Seq<u8>,
    is_static: bool,
    before: Context,
    after: Context,
    out: core::result::Result<Seq<u8>, Seq<u8>>,
) -> bool {
    exists|route: Result<int>| #[trigger]
        routed(functions, input, is_static, route) && dispatched_to(
            contract,
            functions,
            input,
            is_static,
            before,
            after,
            out,
            route,
        )
}

/// Copies the bytes of the calldata behind the selector.
fn arguments_of(input: &[u8]) -> (r: Vec<u8>)
    requires
        input@.len() >= 4,
    ensures
        r@ == argument_bytes(input@),
{
    let total = input.len();
    let mut out: Vec<u8> = Vec::new();
    let mut i: usize = 4;
    while i < total
        invariant
            4 <= i <= total,
            total == input@.len(),
            out@ == input@.subrange(4, i as int),
        decreases total - i,
    {
        out.push(input[i]);
        assert(out@ =~= input@.subrange(4, i + 1));
        i = i + 1;
    }
    out
}

/// Dispatches a call to a handler of `contract`.
///
/// The frames are afterwards those from before, whatever the handler did to
/// them. A static call leaves the context as it was: the handler reads the
/// store and can neither write nor log.
pub fn dispatch<C: NativeContract>(
    contract: &C,
    table: &DispatchTable,
    ctx: &mut Context,
    input: &[u8],
    is_static: bool,
) -> (r: core::result::Result<Vec<u8>, RevertPayload>)
    ensures
        dispatched(
            contract,
            table.functions(),
            input@,
            is_static,
            *old(ctx),
            *final(ctx),
            output_view(r),
        ),
        final(ctx).stack@ == old(ctx).stack@,
        is_static ==> *final(ctx) == *old(ctx),
{
    let routing = table.route(input, is_static);
    let ghost route = route_view(routing);
    match routing {
        Err(e) => {
            let out = Err(RevertPayload { data: e.revert_payload() });
            assert(routed(table.functions(), input@, is_static, route));
            assert(dispatched_to(
                contract,
                table.functions(),
                input@,
                is_static,
                *old(ctx),
                *ctx,
                output_view(out),
                route,
            ));
            out
        },
        Ok(i) => {
            let function = table.function(i);
            let types = types_of_params(&function.params);
            let arguments = arguments_of(input);
            match decode(&types, arguments.as_slice()) {
                None => {
                    let e = PrecompileError::AbiDecodeError(function.name);
                    let out = Err(RevertPayload { data: e.revert_payload() });
                    assert(routed(table.functions(), input@, is_static, route));
                    assert(dispatched_to(
                        contract,
                        table.functions(),
                        input@,
                        is_static,
                        *old(ctx),
                        *ctx,
                        output_view(out),
                        route,
                    ));
                    out
                },
                Some(args) => {
                    let out = call_handler(contract, function, &args, ctx, is_static);
                    proof {
                        assert(routed(table.functions(), input@, is_static, route));
                        assert(dispatched_to(
                            contract,
                            table.functions(),
                            input@,
                            is_static,
                            *old(ctx),
                            *ctx,
                            output_view(out),
                            route,
                        ));
                    }
                    out
                },
            }
        },
    }
}

/// Runs the handler of `function` on the decoded arguments, in a context of
/// its own for a static call, and encodes what it returned.
pub fn call_handler<C: NativeContract>(
    contract: &C,
    function: &InterfaceFunction,
    args: &Vec<AbiValue>,
    ctx: &mut Context,
    is_static: bool,
) -> (out: core::result::Result<Vec<u8>, RevertPayload>)
    ensures
        called(
            contract,
            function@,
            values_view(args@),
            is_static,
            *old(ctx),
            *final(ctx),
            output_view(out),
        ),
        final(ctx).stack@ == old(ctx).stack@,
        is_static ==> *final(ctx) == *old(ctx),
{
    if is_static {
        let mut inner = ctx.static_view();
        let ghost view = inner;
        let result = contract.call(&mut inner, function, args);
        let ghost handled = result_view(result);
        let out = encode_outcome(function, result);
        proof {
            assert(contract.handles(function@, values_view(args@), view, inner, handled));
            assert(handled_call(
                contract,
                function@,
                values_view(args@),
                view,
                inner,
                output_view(out),
            ));
        }
        out
    } else {
        let frames = ctx.stack.duplicate();
        let result = contract.call(ctx, function, args);
        let ghost left = *ctx;
        let ghost handled = result_view(result);
        ctx.stack = frames;
        let out = encode_outcome(function, result);
        proof {
            assert(contract.handles(function@, values_view(args@), *old(ctx), left, handled));
            assert(handled_call(
                contract,
                function@,
                values_view(args@),
                *old(ctx),
                left,
                output_view(out),
            ));
            assert(released(*old(ctx), left, *ctx));
        }
        out
    }
}

/// Where calldata that begins with the selector of the function at `i` is
/// routed, given that no two functions have the same selector.
pub open spec fn route_of(functions: Seq<FunctionModel>, i: int, is_static: bool) -> Result<int> {
    if is_static && !functions[i].is_view {
        Err(PrecompileError::StateMutabilityViolation)
    } else {
        Ok(i)
    }
}

/// With distinct selectors, calldata that begins with the selector of a
/// function is routed in one way only.
pub proof fn lemma_route_unique(
    functions: Seq<FunctionModel>,
    input: Seq<u8>,
    is_static: bool,
    i: int,
    route: Result<int>,
)
    requires
        selectors_distinct(selectors_of(functions)),
        0 <= i < functions.len(),
        input.len() >= 4,
        functions[i].selector() == input.subrange(0, 4),
    ensures
        routed(functions, input, is_static, route_of(functions, i, is_static)),
        routed(functions, input, is_static, route) ==> route == route_of(functions, i, is_static),
{
    let selectors = selectors_of(functions);
    let wanted = input.subrange(0, 4);
    assert(selectors[i] == wanted);
    assert(no_selector_before(selectors, i, wanted)) by {
        assert forall|k: int| 0 <= k < i && k < selectors.len() implies #[trigger] selectors[k]
            != wanted by {
            assert(selectors[k] != selectors[i]);
        }
    }
    if routed(functions, input, is_static, route) {
        match route {
            Ok(j) => {
                if j < i {
                    assert(selectors[j] != selectors[i]);
                } else if j > i {
                    assert(selectors[i] != wanted);
                }
            },
            Err(PrecompileError::StateMutabilityViolation) => {
                let j = choose|j: int|
                    0 <= j < functions.len() && #[trigger] selectors[j] == wanted
                        && no_selector_before(selectors, j, wanted) && is_static
                        && !functions[j].is_view;
                if j < i {
                    assert(selectors[j] != selectors[i]);
                } else if j > i {
                    assert(selectors[i] != wanted);
                }
            },
            Err(PrecompileError::UnknownSelector) => {
                assert(selectors[i] != wanted);
            },
            Err(_) => {},
        }
    }
}

/// Calldata that is made of the selector of a function and the encoding of
/// arguments for it is dispatched to the handler of that function, with those
/// arguments, and what goes back to the host is what the handler returned,
/// encoded; a static call runs the handler where it cannot write. This holds
/// where no two functions have the same selector, the encoding of the
/// arguments is short enough for its lengths to be told in 64 bits, and the
/// call is not a static call of a function that changes state.
pub proof fn lemma_selector_dispatch<C: NativeContract>(
    contract: &C,
    functions: Seq<FunctionModel>,
    i: int,
    args: Seq<AbiTerm>,
    is_static: bool,
    before: Context,
    after: Context,
    out: core::result::Result<Seq<u8>, Seq<u8>>,
)
    requires
        selectors_distinct(selectors_of(functions)),
        0 <= i < functions.len(),
        functions[i].selector().len() == 4,
        all_sized(args),
        encoding(args).len() <= u64::MAX,
        types_of(args) == param_types(functions[i].params),
        !(is_static && !functions[i].is_view),
    ensures
        dispatched(
            contract,
            functions,
            functions[i].selector() + encoding(args),
            is_static,
            before,
            after,
            out,
        ) <==> called(contract, functions[i], args, is_static, before, after, out),
{
    let input = functions[i].selector() + encoding(args);
    assert(input.subrange(0, 4) =~= functions[i].selector());
    assert(argument_bytes(input) =~= encoding(args));
    lemma_decode_encode(args);
    let expected = route_of(functions, i, is_static);
    lemma_route_unique(functions, input, is_static, i, expected);
    if dispatched(contract, functions, input, is_static, before, after, out) {
        let route = choose|route: Result<int>| #[trigger]
            routed(functions, input, is_static, route) && dispatched_to(
                contract,
                functions,
                input,
                is_static,
                before,
                after,
                out,
                route,
            );
        lemma_route_unique(functions, input, is_static, i, route);
    }
    if called(contract, functions[i], args, is_static, before, after, out) {
        assert(dispatched_to(
            contract,
            functions,
            input,
            is_static,
            before,
            after,
            out,
            expected,
        ));
    }
}

/// A static call of a function that changes state reverts with the error for
/// it, whatever the arguments are, and leaves the context as it was.
pub proof fn lemma_static_purity<C: NativeContract>(
    contract: &C,
    functions: Seq<FunctionModel>,
    i: int,
    input: Seq<u8>,
    before: Context,
    after: Context,
    out: core::result::Result<Seq<u8>, Seq<u8>>,
)
    requires
        selectors_distinct(selectors_of(functions)),
        0 <= i < functions.len(),
        input.len() >= 4,
        functions[i].selector() == input.subrange(0, 4),
        !functions[i].is_view,
        dispatched(contract, functions, input, true, before, after, out),
    ensures
        after == before,
        out == Err::<Seq<u8>, Seq<u8>>(revert_data(PrecompileError::StateMutabilityViolation)),
{
    let route = choose|route: Result<int>| #[trigger]
        routed(functions, input, true, route) && dispatched_to(
            contract,
            functions,
            input,
            true,
            before,
            after,
            out,
            route,
        );
    lemma_route_unique(functions, input, true, i, route);
}

/// A static call leaves the context as it was, whatever the calldata is and
/// whatever the handler that it reaches does.
pub proof fn lemma_static_call_writes_nothing<C: NativeContract>(
    contract: &C,
    functions: Seq<FunctionModel>,
    input: Seq<u8>,
    before: Context,
    after: Context,
    out: core::result::Result<Seq<u8>, Seq<u8>>,
)
    requires
        dispatched(contract, functions, input, true, before, after, out),
    ensures
        after == before,
{
}

} // verus!
