//! The entry point that the host calls a native contract through: it frames the
//! call, runs the dispatcher, and hands back output and revert flag.

use vstd::prelude::*;
use crate::context::{entered, framed, unframed, Context};
use crate::dispatch::{dispatch, dispatched, DispatchTable, NativeContract};
use crate::primitives::{Address, U256};

verus! {

/// What the host hands over with a call.
#[derive(Clone, Debug)]
pub struct CallInput {
    pub caller: Address,
    pub callee_address: Address,
    pub value: U256,
    pub input: Vec<u8>,
    pub gas: u64,
    pub is_static: bool,
}

/// What goes back to the host: the output or the revert payload, the gas that
/// the core itself used, and whether the call reverted.
#[derive(Clone, Debug, PartialEq, Eq)]
pub struct CallOutput {
    pub output: Vec<u8>,
    pub gas_used: u64,
    pub reverted: bool,
}

/// What a call handed back, as the dispatcher sees it.
pub open spec fn as_outcome(out: CallOutput) -> core::result::Result<Seq<u8>, Seq<u8>> {
    if out.reverted {
        Err(out.output@)
    } else {
        Ok(out.output@)
    }
}

/// Whether a call of the contract at `address`, begun in the context `before`,
/// can end in the context `after` with `out` going back to the host: the call
/// was dispatched inside a frame for `address`, which is gone afterwards.
pub open spec fn precompile_called<C: NativeContract>(
    contract: &C,
    table: &DispatchTable,
    address: Seq<u8>,
    input: Seq<u8>,
    is_static: bool,
    before: Context,
    after: Context,
    out: CallOutput,
) -> bool {
    exists|entered_at: Context, left_at: Context| #[trigger]
        framed(before, entered_at, address) && #[trigger] unframed(left_at, after) && dispatched(
            contract,
            table.functions(),
            input,
            is_static,
            entered_at,
            left_at,
            as_outcome(out),
        )
}

/// Runs a call of the host on `contract`.
///
/// No frame is left behind, whatever the call does. A static call writes
/// nothing and logs nothing, whatever the handler does. The core meters no gas
/// of its own.
pub fn call_precompile<C: NativeContract>(
    contract: &C,
    table: &DispatchTable,
    ctx: &mut Context,
    call: &CallInput,
) -> (r: CallOutput)
    ensures
        precompile_called(
            contract,
            table,
            call.callee_address@,
            call.input@,
            call.is_static,
            *old(ctx),
            *final(ctx),
            r,
        ),
        final(ctx).stack@ == old(ctx).stack@,
        call.is_static ==> final(ctx).storage == old(ctx).storage && final(ctx).logs == old(
            ctx,
        ).logs,
        r.gas_used == 0,
{
    ctx.enter(call.callee_address);
    let ghost entered_at = *ctx;
    let result = dispatch(contract, table, ctx, call.input.as_slice(), call.is_static);
    let ghost left_at = *ctx;
    ctx.exit();
    let out = match result {
        Ok(bytes) => CallOutput { output: bytes, gas_used: 0, reverted: false },
        Err(payload) => CallOutput { output: payload.data, gas_used: 0, reverted: true },
    };
    proof {
        assert(entered(old(ctx).stack@, call.callee_address@).drop_last() =~= old(ctx).stack@);
        assert(framed(*old(ctx), entered_at, call.callee_address@));
        assert(unframed(left_at, *ctx));
    }
    out
}

/// A static call of the host leaves the store, the log and the frames as they
/// were, whatever the calldata is and whatever the contract does with it.
pub proof fn lemma_static_precompile_call<C: NativeContract>(
    contract: &C,
    table: &DispatchTable,
    address: Seq<u8>,
    input: Seq<u8>,
    before: Context,
    after: Context,
    out: CallOutput,
)
    requires
        precompile_called(contract, table, address, input, true, before, after, out),
    ensures
        after.storage == before.storage,
        after.logs == before.logs,
        after.stack@ == before.stack@,
{
    assert(entered(before.stack@, address).drop_last() =~= before.stack@);
}

} // verus!
