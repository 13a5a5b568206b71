//! Two small native contracts on top of the handlers that resolve their address
//! from the active frame: a token, and a rewards pool that the token calls.

use vstd::prelude::*;
use crate::abi::{AbiTerm, AbiType, AbiValue};
use crate::context::{entered, framed, released, static_framed, Context, Store};
use crate::emit::{emit_event, event_record, indexed_topics};
use crate::error::{PrecompileError, Result};
use crate::handlers::lemma_whole_word;
use crate::typed::{TypedMapping, TypedSlot};
use crate::hash::mapping_slot;
use crate::dispatch::NativeContract;
use crate::interface::{
    event, event_model, same_text, EventModel, FunctionModel, InterfaceEvent, InterfaceFunction,
    TypePath,
};
use crate::primitives::{
    checked_div, checked_sub, left_padded, uint_word, word_modulus, word_value, wrapping_add,
    Address, U256,
};


verus! {

/// The slot of the total supply of the token.
pub open spec fn supply_slot() -> Seq<u8> {
    uint_word(0)
}

/// The slot of the balance of `account`.
pub open spec fn balance_slot(account: Seq<u8>) -> Seq<u8> {
    mapping_slot(left_padded(account), uint_word(1))
}

/// The address of the rewards contract.
pub open spec fn rewards_address() -> Seq<u8> {
    Seq::new(20, |i: int| 0xEEu8)
}

/// The slot of the pool of the rewards contract.
pub open spec fn pool_slot() -> Seq<u8> {
    uint_word(0)
}

/// The number that the store holds at `slot` of `address`.
pub open spec fn stored(storage: &Store, address: Seq<u8>, slot: Seq<u8>) -> nat {
    word_value(storage.word_at(address, slot))
}

/// Whether the two stores hold the same word in every cell but the two named
/// ones of `address`.
pub open spec fn same_but(
    before: &Store,
    after: &Store,
    address: Seq<u8>,
    slot1: Seq<u8>,
    slot2: Seq<u8>,
) -> bool {
    forall|a: Seq<u8>, s: Seq<u8>|
        !(a == address && (s == slot1 || s == slot2)) ==> #[trigger] after.word_at(a, s)
            == before.word_at(a, s)
}

/// The sum of two numbers, reduced to the range of a word.
pub open spec fn wrapped_sum(a: nat, b: nat) -> nat {
    (a + b) % word_modulus()
}

/// The event that a transfer of the token is logged as.
pub open spec fn transfer_event_model() -> EventModel {
    event_model(seq!["ITIP20"@], "transfer", "Transfer").indexed("from", AbiType::Address).indexed(
        "to",
        AbiType::Address,
    ).data("amount", AbiType::Uint256)
}

/// The event that a transfer of the token is logged as.
pub fn transfer_event() -> (r: InterfaceEvent)
    ensures
        r@ == transfer_event_model(),
{
    let interface = TypePath::from_ident("ITIP20");
    event(&interface, "transfer", "Transfer").indexed("from", AbiType::Address).indexed(
        "to",
        AbiType::Address,
    ).data("amount", AbiType::Uint256)
}

/// The values of a transfer event.
pub open spec fn transfer_values(from: Seq<u8>, to: Seq<u8>, amount: Seq<u8>) -> Seq<AbiTerm> {
    seq![AbiTerm::Address(from), AbiTerm::Address(to), AbiTerm::Uint256(amount)]
}

/// Whether a mint of `amount` to `to`, begun in the context `before`, can end
/// in the context `after` with `result`.
///
/// Without an active frame and in a static call it fails and writes nothing.
/// Else the total supply and the balance of `to` grow by `amount`, both reduced
/// to the range of a word, and no other cell changes.
pub open spec fn minted(
    before: Context,
    after: Context,
    to: Seq<u8>,
    amount: nat,
    result: Result<()>,
) -> bool {
    let a = before.address();
    after.stack@ == before.stack@ && after.is_static() == before.is_static() && after.logs@
        == before.logs@ && match before.refusal() {
        Some(e) => result == Err::<(), PrecompileError>(e) && after.storage == before.storage,
        None => result is Ok && stored(&after.storage, a, supply_slot()) == wrapped_sum(
            stored(&before.storage, a, supply_slot()),
            amount,
        ) && (balance_slot(to) != supply_slot() ==> stored(&after.storage, a, balance_slot(to))
            == wrapped_sum(stored(&before.storage, a, balance_slot(to)), amount)) && same_but(
            &before.storage,
            &after.storage,
            a,
            supply_slot(),
            balance_slot(to),
        ),
    }
}

/// Whether a transfer of `amount` from `from` to `to`, begun in the context
/// `before`, can end in the context `after` with `result`.
///
/// Without an active frame and in a static call it fails, and so it does where
/// `from` holds less than `amount`; then nothing is written and nothing is
/// logged. Else the balance of `to` is its old balance and `amount`, reduced to
/// the range of a word; the balance of `from`, where it is another account, is
/// its old balance less `amount`; no other cell changes; and the transfer is
/// logged.
pub open spec fn transferred(
    before: Context,
    after: Context,
    from: Address,
    to: Address,
    amount: U256,
    result: Result<()>,
) -> bool {
    let a = before.address();
    let held = before.storage.word_at(a, balance_slot(from@));
    after.stack@ == before.stack@ && after.is_static() == before.is_static()
        && match before.refusal() {
        Some(e) => result == Err::<(), PrecompileError>(e) && after.storage == before.storage
            && after.logs@ == before.logs@,
        None => if word_value(held) < amount.value() {
            after.storage == before.storage && after.logs@ == before.logs@ && match result {
                Err(PrecompileError::InsufficientBalance { account, balance, needed }) => account@
                    == from@ && balance@ == held && needed@ == amount@,
                _ => false,
            }
        } else {
            result is Ok && stored(&after.storage, a, balance_slot(to@)) == wrapped_sum(
                stored(&before.storage, a, balance_slot(to@)),
                amount.value(),
            ) && (balance_slot(from@) != balance_slot(to@) ==> stored(
                &after.storage,
                a,
                balance_slot(from@),
            ) == stored(&before.storage, a, balance_slot(from@)) - amount.value()) && same_but(
                &before.storage,
                &after.storage,
                a,
                balance_slot(from@),
                balance_slot(to@),
            ) && after.log() == before.log().push(
                event_record(transfer_event_model(), a, transfer_values(from@, to@, amount@)),
            )
        },
    }
}

/// After two writes under one address, the cell written last holds what was
/// written to it, the other cell too where it is another one, and no other
/// cell has changed.
pub proof fn lemma_two_writes(
    before: &Store,
    after: &Store,
    address: Seq<u8>,
    slot1: Seq<u8>,
    word1: Seq<u8>,
    slot2: Seq<u8>,
    word2: Seq<u8>,
)
    requires
        after@ == before@.insert((address, slot1), word1).insert((address, slot2), word2),
    ensures
        after.word_at(address, slot2) == word2,
        slot1 != slot2 ==> after.word_at(address, slot1) == word1,
        same_but(before, after, address, slot1, slot2),
{
    assert forall|a: Seq<u8>, s: Seq<u8>|
        !(a == address && (s == slot1 || s == slot2)) implies #[trigger] after.word_at(a, s)
        == before.word_at(a, s) by {
        assert((a, s) != (address, slot1));
        assert((a, s) != (address, slot2));
    }
    if slot1 != slot2 {
        assert((address, slot1) != (address, slot2));
    }
}

/// Logs a transfer of the token.
fn log_transfer(ctx: &mut Context, from: Address, to: Address, amount: U256) -> (r: Result<()>)
    ensures
        match r {
            Ok(_) => old(ctx).refusal() is None && final(ctx).log() == old(ctx).log().push(
                event_record(
                    transfer_event_model(),
                    old(ctx).address(),
                    transfer_values(from@, to@, amount@),
                ),
            ),
            Err(e) => old(ctx).refusal() == Some(e) && final(ctx).logs == old(ctx).logs,
        },
        final(ctx).stack == old(ctx).stack,
        final(ctx).storage == old(ctx).storage,
{
    let values = vec![AbiValue::Address(from), AbiValue::Address(to), AbiValue::Uint256(amount)];
    let logged = transfer_event();
    proof {
        let vals = crate::abi::values_view(values@);
        assert(vals =~= transfer_values(from@, to@, amount@));
        let params = transfer_event_model().params;
        assert(params.len() == 3);
        assert(params[0] == ("from", AbiType::Address, true));
        assert(params[1] == ("to", AbiType::Address, true));
        assert(params[2] == ("amount", AbiType::Uint256, false));
        assert(crate::abi::types_of(vals) =~= crate::interface::event_param_types(params));
        reveal_with_fuel(indexed_topics, 4);
        assert(indexed_topics(params, vals, 3).len() == 2);
    }
    emit_event(ctx, &logged, &values)
}

/// Whether, after a transfer that left the context `mid`, the reward for it was
/// distributed, and `after` is what that left: the distribution ran in a frame
/// of the rewards contract on top of the frames of `mid`, and `after` has the
/// store and the log that it left, under the frames of `mid`.
pub open spec fn rewarded(mid: Context, after: Context, amount: nat) -> bool {
    exists|inner: Context, left: Context| #[trigger]
        framed(mid, inner, rewards_address()) && #[trigger] distributed(
            inner,
            left,
            amount,
            Ok::<(), PrecompileError>(()),
        ) && released(mid, left, after)
}

/// A distribution that runs in a frame on top of a context that can be
/// written succeeds.
proof fn lemma_distribution_succeeds(mid: Context, after: Context, amount: nat, r: Result<()>)
    requires
        mid.refusal() is None,
        exists|inner: Context, left: Context| #[trigger]
            framed(mid, inner, rewards_address()) && #[trigger] distributed(
                inner,
                left,
                amount,
                r,
            ) && released(mid, left, after),
    ensures
        r == Ok::<(), PrecompileError>(()),
        rewarded(mid, after, amount),
{
    let (inner, left) = choose|inner: Context, left: Context| #[trigger]
        framed(mid, inner, rewards_address()) && #[trigger] distributed(inner, left, amount, r)
            && released(mid, left, after);
    assert(inner.refusal() is None);
    match r {
        Ok(unit) => {
            assert(unit == ());
        },
        Err(_) => {},
    }
}

/// What the distribution of a reward leaves: the pool of the rewards contract
/// has grown by the hundredth part of the amount, rounded down, no other cell
/// has changed, nothing was logged, and the frames are those from before.
pub proof fn lemma_rewarded_pool(mid: Context, after: Context, amount: nat)
    requires
        rewarded(mid, after, amount),
    ensures
        !mid.is_static(),
        after.stack@ == mid.stack@,
        after.logs@ == mid.logs@,
        stored(&after.storage, rewards_address(), pool_slot()) == wrapped_sum(
            stored(&mid.storage, rewards_address(), pool_slot()),
            amount / 100,
        ),
        same_but(&mid.storage, &after.storage, rewards_address(), pool_slot(), pool_slot()),
{
    let (inner, left) = choose|inner: Context, left: Context| #[trigger]
        framed(mid, inner, rewards_address()) && #[trigger] distributed(
            inner,
            left,
            amount,
            Ok::<(), PrecompileError>(()),
        ) && released(mid, left, after);
    assert(inner.address() == rewards_address());
}

/// Whether a transfer with rewards, begun in the context `before`, can end in
/// the context `after` with `result`.
///
/// It is a transfer, and where the transfer succeeds a distribution of the
/// reward in a frame of the rewards contract. A transfer that fails is all
/// that happens.
pub open spec fn transferred_with_rewards(
    before: Context,
    after: Context,
    from: Address,
    to: Address,
    amount: U256,
    result: Result<()>,
) -> bool {
    exists|mid: Context| #[trigger]
        transferred(before, mid, from, to, amount, result) && if result is Ok {
            rewarded(mid, after, amount.value())
        } else {
            after == mid
        }
}

/// A token whose storage is found under the address of the active frame.
pub struct ThreadLocalToken {
    total_supply: TypedSlot<U256>,
    balances: TypedMapping<Address, U256>,
}

impl ThreadLocalToken {
    #[verifier::type_invariant]
    spec fn laid_out(self) -> bool {
        self.total_supply.field().slot_spec() == supply_slot()
            && self.total_supply.field().offset_spec() == 0
            && self.total_supply.field().width_spec() == 32 && self.balances.base_spec()
            == uint_word(1)
    }

    /// The handler of the total supply.
    pub closed spec fn supply_handler(&self) -> TypedSlot<U256> {
        self.total_supply
    }

    /// The handler of the balances.
    pub closed spec fn balances_handler(&self) -> TypedMapping<Address, U256> {
        self.balances
    }

    /// The instance of the token: the total supply at slot zero, the balances
    /// in the mapping at slot one.
    pub fn _new() -> (r: Self)
        ensures
            r.supply_handler().field().slot_spec() == supply_slot(),
            r.supply_handler().field().offset_spec() == 0,
            r.balances_handler().base_spec() == uint_word(1),
    {
        Self {
            total_supply: TypedSlot::new(U256::from_uint(0)),
            balances: TypedMapping::new(U256::from_uint(1)),
        }
    }

    /// Runs `f` on the instance of the token at `address`, in a frame of its
    /// own, for a call that only reads. `f` reads the store of `ctx` and cannot
    /// write it: a handler that writes or logs fails there. `ctx` is afterwards
    /// as it was, whatever `f` returns and whatever it did.
    pub fn staticcall<F, R>(ctx: &mut Context, address: Address, f: F) -> (r: Result<R>) where
        F: FnOnce(&Self, &mut Context) -> Result<R>,
        requires
            forall|x: &Self, y: &mut Context|
                static_framed(*old(ctx), *y, address@) ==> call_requires(f, (x, y)),
        ensures
            *final(ctx) == *old(ctx),
            exists|x: &Self, y: &mut Context|
                static_framed(*old(ctx), *y, address@) && #[trigger] call_ensures(f, (x, y), r),
    {
        let instance = Self::_new();
        let body = |inner: &mut Context| -> (out: Result<R>)
            requires
                forall|x: &Self, y: &mut Context| *y == *old(inner) ==> call_requires(f, (x, y)),
            ensures
                exists|x: &Self, y: &mut Context|
                    *y == *old(inner) && #[trigger] call_ensures(f, (x, y), out) && *final(y)
                        == *final(inner),
            { f(&instance, inner) };
        ctx.with_static_frame(address, body)
    }

    /// Runs `f` on the instance of the token at `address`, in a frame of its
    /// own. The frame is pushed before `f` runs, and after it the frames are
    /// again those from before, whatever `f` returns and whatever it did to the
    /// frames.
    pub fn call_mut<F, R>(ctx: &mut Context, address: Address, f: F) -> (r: Result<R>) where
        F: FnOnce(&Self, &mut Context) -> Result<R>,
        requires
            forall|x: &Self, y: &mut Context|
                framed(*old(ctx), *y, address@) ==> call_requires(f, (x, y)),
        ensures
            final(ctx).stack@ == old(ctx).stack@,
            exists|x: &Self, y: &mut Context|
                framed(*old(ctx), *y, address@) && #[trigger] call_ensures(f, (x, y), r)
                    && released(*old(ctx), *final(y), *final(ctx)),
    {
        let instance = Self::_new();
        let body = |inner: &mut Context| -> (out: Result<R>)
            requires
                forall|x: &Self, y: &mut Context| *y == *old(inner) ==> call_requires(f, (x, y)),
            ensures
                exists|x: &Self, y: &mut Context|
                    *y == *old(inner) && #[trigger] call_ensures(f, (x, y), out) && *final(y)
                        == *final(inner),
            { f(&instance, inner) };
        ctx.with_frame(address, body)
    }

    /// The total supply.
    pub fn total_supply(&self, ctx: &Context) -> (r: Result<U256>)
        ensures
            r is Ok <==> ctx.active(),
            r is Ok ==> r->Ok_0@ == ctx.storage.word_at(ctx.address(), supply_slot()),
            r is Err ==> r->Err_0 == PrecompileError::NoActiveContext,
    {
        proof {
            use_type_invariant(self);
            let word = ctx.storage.word_at(ctx.address(), supply_slot());
            ctx.storage.lemma_word_len(ctx.address(), supply_slot());
            lemma_whole_word(word, word);
        }
        self.total_supply.read_tl(ctx)
    }

    /// The balance of `account`.
    pub fn balance_of(&self, ctx: &Context, account: Address) -> (r: Result<U256>)
        ensures
            r is Ok <==> ctx.active(),
            r is Ok ==> r->Ok_0@ == ctx.storage.word_at(ctx.address(), balance_slot(account@)),
            r is Err ==> r->Err_0 == PrecompileError::NoActiveContext,
    {
        proof {
            use_type_invariant(self);
            let word = ctx.storage.word_at(ctx.address(), balance_slot(account@));
            ctx.storage.lemma_word_len(ctx.address(), balance_slot(account@));
            lemma_whole_word(word, word);
        }
        self.balances.at(&account).read_tl(ctx)
    }

    /// Sets the total supply.
    fn set_total_supply(&self, ctx: &mut Context, value: U256) -> (r: Result<()>)
        ensures
            match r {
                Ok(_) => old(ctx).refusal() is None
                    && final(ctx).storage@ == old(ctx).storage@.insert(
                    (old(ctx).address(), supply_slot()),
                    value@,
                ),
                Err(e) => old(ctx).refusal() == Some(e)
                    && final(ctx).storage == old(ctx).storage,
            },
            final(ctx).is_static() == old(ctx).is_static(),
            final(ctx).stack@ == old(ctx).stack@,
            final(ctx).logs@ == old(ctx).logs@,
    {
        proof {
            use_type_invariant(self);
            let word = ctx.storage.word_at(ctx.address(), supply_slot());
            ctx.storage.lemma_word_len(ctx.address(), supply_slot());
            lemma_whole_word(word, value@);
        }
        self.total_supply.write_tl(ctx, &value)
    }

    /// Sets the balance of `account`.
    fn set_balance(&self, ctx: &mut Context, account: Address, balance: U256) -> (r: Result<()>)
        ensures
            match r {
                Ok(_) => old(ctx).refusal() is None
                    && final(ctx).storage@ == old(ctx).storage@.insert(
                    (old(ctx).address(), balance_slot(account@)),
                    balance@,
                ),
                Err(e) => old(ctx).refusal() == Some(e)
                    && final(ctx).storage == old(ctx).storage,
            },
            final(ctx).is_static() == old(ctx).is_static(),
            final(ctx).stack@ == old(ctx).stack@,
            final(ctx).logs@ == old(ctx).logs@,
    {
        proof {
            use_type_invariant(self);
            let word = ctx.storage.word_at(ctx.address(), balance_slot(account@));
            ctx.storage.lemma_word_len(ctx.address(), balance_slot(account@));
            lemma_whole_word(word, balance@);
        }
        self.balances.at(&account).write_tl(ctx, &balance)
    }

    /// Mints `amount` to `to`. In a static call it fails and writes nothing.
    pub fn mint(&self, ctx: &mut Context, to: Address, amount: U256) -> (r: Result<()>)
        ensures
            minted(*old(ctx), *final(ctx), to@, amount.value(), r),
    {
        match ctx.check_writable() {
            Ok(_) => {},
            Err(e) => {
                return Err(e);
            },
        }
        let balance = match self.balance_of(ctx, to) {
            Ok(balance) => balance,
            Err(e) => {
                return Err(e);
            },
        };
        let supply = match self.total_supply(ctx) {
            Ok(supply) => supply,
            Err(e) => {
                return Err(e);
            },
        };
        match self.set_balance(ctx, to, wrapping_add(&balance, &amount)) {
            Ok(_) => {},
            Err(e) => {
                return Err(e);
            },
        }
        match self.set_total_supply(ctx, wrapping_add(&supply, &amount)) {
            Ok(_) => {},
            Err(e) => {
                return Err(e);
            },
        }
        Ok(())
    }

    /// Transfers `amount` from `from` to `to`. Both balances are read before
    /// either is written. In a static call it fails and writes nothing.
    pub fn transfer(&self, ctx: &mut Context, from: Address, to: Address, amount: U256) -> (r:
        Result<()>)
        ensures
            transferred(*old(ctx), *final(ctx), from, to, amount, r),
    {
        match ctx.check_writable() {
            Ok(_) => {},
            Err(e) => {
                return Err(e);
            },
        }
        let from_balance = match self.balance_of(ctx, from) {
            Ok(balance) => balance,
            Err(e) => {
                return Err(e);
            },
        };
        let to_balance = match self.balance_of(ctx, to) {
            Ok(balance) => balance,
            Err(e) => {
                return Err(e);
            },
        };
        let left = match checked_sub(&from_balance, &amount) {
            Some(left) => left,
            None => {
                return Err(
                    PrecompileError::InsufficientBalance {
                        account: from,
                        balance: from_balance,
                        needed: amount,
                    },
                );
            },
        };
        let received = wrapping_add(&to_balance, &amount);
        match self.set_balances(ctx, from, left, to, received) {
            Ok(_) => {},
            Err(e) => {
                return Err(e);
            },
        }
        log_transfer(ctx, from, to, amount)
    }

    /// Sets the balance of `from`, then that of `to`.
    fn set_balances(
        &self,
        ctx: &mut Context,
        from: Address,
        left: U256,
        to: Address,
        received: U256,
    ) -> (r: Result<()>)
        requires
            old(ctx).refusal() is None,
        ensures
            r is Ok,
            final(ctx).storage.word_at(old(ctx).address(), balance_slot(to@)) == received@,
            balance_slot(from@) != balance_slot(to@) ==> final(ctx).storage.word_at(
                old(ctx).address(),
                balance_slot(from@),
            ) == left@,
            same_but(
                &old(ctx).storage,
                &final(ctx).storage,
                old(ctx).address(),
                balance_slot(from@),
                balance_slot(to@),
            ),
            final(ctx).is_static() == old(ctx).is_static(),
            final(ctx).stack@ == old(ctx).stack@,
            final(ctx).logs@ == old(ctx).logs@,
    {
        match self.set_balance(ctx, from, left) {
            Ok(_) => {},
            Err(e) => {
                return Err(e);
            },
        }
        match self.set_balance(ctx, to, received) {
            Ok(_) => {},
            Err(e) => {
                return Err(e);
            },
        }
        proof {
            lemma_two_writes(
                &old(ctx).storage,
                &ctx.storage,
                old(ctx).address(),
                balance_slot(from@),
                left@,
                balance_slot(to@),
                received@,
            );
        }
        Ok(())
    }

    /// Transfers `amount` from `from` to `to`, and has the rewards contract add
    /// the reward for the transfer to its pool.
    pub fn transfer_with_rewards(
        &self,
        ctx: &mut Context,
        from: Address,
        to: Address,
        amount: U256,
    ) -> (r: Result<()>)
        ensures
            transferred_with_rewards(*old(ctx), *final(ctx), from, to, amount, r),
    {
        match self.transfer(ctx, from, to, amount) {
            Ok(_) => {},
            Err(e) => {
                let r = Err(e);
                assert(transferred(*old(ctx), *ctx, from, to, amount, r));
                return r;
            },
        }
        let ghost mid = *ctx;
        let distribute = |rewards: &ThreadLocalRewards, c: &mut Context| -> (res: Result<()>)
            ensures
                distributed(*old(c), *final(c), amount.value(), res),
            { rewards.distribute(c, amount) };
        let r = ThreadLocalRewards::call_mut(ctx, rewards_address_value(), distribute);
        proof {
            assert(mid.refusal() is None);
            assert(exists|inner: Context, left: Context| #[trigger]
                framed(mid, inner, rewards_address()) && #[trigger] distributed(
                    inner,
                    left,
                    amount.value(),
                    r,
                ) && released(mid, left, *ctx));
            lemma_distribution_succeeds(mid, *ctx, amount.value(), r);
            assert(transferred(*old(ctx), mid, from, to, amount, r));
        }
        r
    }
}


/// The address of the rewards contract.
pub fn rewards_address_value() -> (r: Address)
    ensures
        r@ == rewards_address(),
{
    let r = Address::new(
        [
            0xEE, 0xEE, 0xEE, 0xEE, 0xEE, 0xEE, 0xEE, 0xEE, 0xEE, 0xEE,
            0xEE, 0xEE, 0xEE, 0xEE, 0xEE, 0xEE, 0xEE, 0xEE, 0xEE, 0xEE,
        ],
    );
    assert(r@ =~= rewards_address());
    r
}

/// Whether a distribution for a transfer of `amount`, begun in the context
/// `before`, can end in the context `after` with `result`.
///
/// Without an active frame and in a static call it fails and writes nothing.
/// Else the pool grows by the hundredth part of `amount`, rounded down, and no
/// other cell changes.
pub open spec fn distributed(before: Context, after: Context, amount: nat, result: Result<()>) -> bool {
    let a = before.address();
    after.stack@ == before.stack@ && after.is_static() == before.is_static() && after.logs@
        == before.logs@ && match before.refusal() {
        Some(e) => result == Err::<(), PrecompileError>(e) && after.storage == before.storage,
        None => result is Ok && stored(&after.storage, a, pool_slot()) == wrapped_sum(
            stored(&before.storage, a, pool_slot()),
            amount / 100,
        ) && same_but(&before.storage, &after.storage, a, pool_slot(), pool_slot()),
    }
}

/// A rewards pool whose storage is found under the address of the active frame.
pub struct ThreadLocalRewards {
    rewards_pool: TypedSlot<U256>,
}

impl ThreadLocalRewards {
    #[verifier::type_invariant]
    spec fn laid_out(self) -> bool {
        self.rewards_pool.field().slot_spec() == pool_slot()
            && self.rewards_pool.field().offset_spec() == 0
            && self.rewards_pool.field().width_spec() == 32
    }

    /// The handler of the pool.
    pub closed spec fn pool_handler(&self) -> TypedSlot<U256> {
        self.rewards_pool
    }

    /// The instance of the rewards contract: the pool at slot zero.
    pub fn _new() -> (r: Self)
        ensures
            r.pool_handler().field().slot_spec() == pool_slot(),
            r.pool_handler().field().offset_spec() == 0,
    {
        Self { rewards_pool: TypedSlot::new(U256::from_uint(0)) }
    }

    /// Runs `f` on the instance of the rewards contract at `address`, in a frame of its
    /// own, for a call that only reads. `f` reads the store of `ctx` and cannot
    /// write it: a handler that writes or logs fails there. `ctx` is afterwards
    /// as it was, whatever `f` returns and whatever it did.
    pub fn staticcall<F, R>(ctx: &mut Context, address: Address, f: F) -> (r: Result<R>) where
        F: FnOnce(&Self, &mut Context) -> Result<R>,
        requires
            forall|x: &Self, y: &mut Context|
                static_framed(*old(ctx), *y, address@) ==> call_requires(f, (x, y)),
        ensures
            *final(ctx) == *old(ctx),
            exists|x: &Self, y: &mut Context|
                static_framed(*old(ctx), *y, address@) && #[trigger] call_ensures(f, (x, y), r),
    {
        let instance = Self::_new();
        let body = |inner: &mut Context| -> (out: Result<R>)
            requires
                forall|x: &Self, y: &mut Context| *y == *old(inner) ==> call_requires(f, (x, y)),
            ensures
                exists|x: &Self, y: &mut Context|
                    *y == *old(inner) && #[trigger] call_ensures(f, (x, y), out) && *final(y)
                        == *final(inner),
            { f(&instance, inner) };
        ctx.with_static_frame(address, body)
    }

    /// The pool.
    pub fn get_pool(&self, ctx: &Context) -> (r: Result<U256>)
        ensures
            r is Ok <==> ctx.active(),
            r is Ok ==> r->Ok_0@ == ctx.storage.word_at(ctx.address(), pool_slot()),
            r is Err ==> r->Err_0 == PrecompileError::NoActiveContext,
    {
        proof {
            use_type_invariant(self);
            let word = ctx.storage.word_at(ctx.address(), pool_slot());
            ctx.storage.lemma_word_len(ctx.address(), pool_slot());
            lemma_whole_word(word, word);
        }
        self.rewards_pool.read_tl(ctx)
    }

    /// Adds the reward for a transfer of `transfer_amount` to the pool. In a
    /// static call it fails and writes nothing.
    pub fn distribute(&self, ctx: &mut Context, transfer_amount: U256) -> (r: Result<()>)
        ensures
            distributed(*old(ctx), *final(ctx), transfer_amount.value(), r),
    {
        match ctx.check_writable() {
            Ok(_) => {},
            Err(e) => {
                return Err(e);
            },
        }
        let hundred = U256::from_u64(100);
        let reward = match checked_div(&transfer_amount, &hundred) {
            Some(reward) => reward,
            None => U256::from_uint(0),
        };
        let pool = match self.get_pool(ctx) {
            Ok(pool) => pool,
            Err(e) => {
                return Err(e);
            },
        };
        let grown = wrapping_add(&pool, &reward);
        proof {
            use_type_invariant(self);
            let word = ctx.storage.word_at(ctx.address(), pool_slot());
            ctx.storage.lemma_word_len(ctx.address(), pool_slot());
            lemma_whole_word(word, grown@);
        }
        match self.rewards_pool.write_tl(ctx, &grown) {
            Ok(_) => {},
            Err(e) => {
                return Err(e);
            },
        }
        proof {
            assert forall|a: Seq<u8>, s: Seq<u8>|
                !(a == old(ctx).address() && s == pool_slot()) implies #[trigger] ctx.storage.word_at(
                a,
                s,
            ) == old(ctx).storage.word_at(a, s) by {
                assert((a, s) != (old(ctx).address(), pool_slot()));
            }
        }
        Ok(())
    }

    /// Runs `f` on the instance of the rewards contract at `address`, in a frame
    /// of its own. The frame is pushed before `f` runs, and after it the frames
    /// are again those from before, whatever `f` returns and whatever it did to
    /// the frames.
    pub fn call_mut<F, R>(ctx: &mut Context, address: Address, f: F) -> (r: Result<R>) where
        F: FnOnce(&Self, &mut Context) -> Result<R>,
        requires
            forall|x: &Self, y: &mut Context|
                framed(*old(ctx), *y, address@) ==> call_requires(f, (x, y)),
        ensures
            final(ctx).stack@ == old(ctx).stack@,
            exists|x: &Self, y: &mut Context|
                framed(*old(ctx), *y, address@) && #[trigger] call_ensures(f, (x, y), r)
                    && released(*old(ctx), *final(y), *final(ctx)),
    {
        let instance = Self::_new();
        let body = |inner: &mut Context| -> (out: Result<R>)
            requires
                forall|x: &Self, y: &mut Context| *y == *old(inner) ==> call_requires(f, (x, y)),
            ensures
                exists|x: &Self, y: &mut Context|
                    *y == *old(inner) && #[trigger] call_ensures(f, (x, y), out) && *final(y)
                        == *final(inner),
            { f(&instance, inner) };
        ctx.with_frame(address, body)
    }
}

/// What a handler that returns nothing hands to the dispatcher.
pub open spec fn nothing_returned(result: Result<Seq<AbiTerm>>) -> Result<()> {
    match result {
        Ok(_) => Ok(()),
        Err(e) => Err(e),
    }
}

/// What a handler that reads one word hands to the dispatcher.
pub open spec fn word_returned(ctx: Context, slot: Seq<u8>) -> Result<Seq<AbiTerm>> {
    if ctx.active() {
        Ok(seq![AbiTerm::Uint256(ctx.storage.word_at(ctx.address(), slot))])
    } else {
        Err(PrecompileError::NoActiveContext)
    }
}

impl NativeContract for ThreadLocalToken {
    /// The token handles `mint`, `balance_of` and `total_supply`. A function of
    /// another name is unknown to it; arguments of another shape than the
    /// function takes do not decode; and `mint` is refused where the caller
    /// says that it only reads.
    open spec fn handles(
        &self,
        function: FunctionModel,
        args: Seq<AbiTerm>,
        before: Context,
        after: Context,
        result: Result<Seq<AbiTerm>>,
    ) -> bool {
        if function.name@ == "mint"@ {
            if function.is_view {
                after == before && result == Err::<Seq<AbiTerm>, PrecompileError>(
                    PrecompileError::StateMutabilityViolation,
                )
            } else if args.len() == 2 && args[0] is Address && args[1] is Uint256 {
                minted(
                    before,
                    after,
                    args[0]->Address_0,
                    word_value(args[1]->Uint256_0),
                    nothing_returned(result),
                ) && (result is Ok ==> result->Ok_0 == Seq::<AbiTerm>::empty())
            } else {
                after == before && result == Err::<Seq<AbiTerm>, PrecompileError>(
                    PrecompileError::AbiDecodeError(function.name),
                )
            }
        } else if function.name@ == "balance_of"@ {
            after == before && if args.len() == 1 && args[0] is Address {
                result == word_returned(before, balance_slot(args[0]->Address_0))
            } else {
                result == Err::<Seq<AbiTerm>, PrecompileError>(
                    PrecompileError::AbiDecodeError(function.name),
                )
            }
        } else if function.name@ == "total_supply"@ {
            after == before && if args.len() == 0 {
                result == word_returned(before, supply_slot())
            } else {
                result == Err::<Seq<AbiTerm>, PrecompileError>(
                    PrecompileError::AbiDecodeError(function.name),
                )
            }
        } else {
            after == before && result == Err::<Seq<AbiTerm>, PrecompileError>(
                PrecompileError::UnknownSelector,
            )
        }
    }

    fn call(&self, ctx: &mut Context, function: &InterfaceFunction, args: &Vec<AbiValue>) -> (r:
        Result<Vec<AbiValue>>) {
        let ghost vals = crate::abi::values_view(args@);
        if same_text(function.name, "mint") {
            if function.is_view {
                return Err(PrecompileError::StateMutabilityViolation);
            }
            if args.len() == 2 {
                match (&args[0], &args[1]) {
                    (AbiValue::Address(to), AbiValue::Uint256(amount)) => {
                        assert(vals[0] == AbiTerm::Address(to@));
                        assert(vals[1] == AbiTerm::Uint256(amount@));
                        return match self.mint(ctx, *to, *amount) {
                            Ok(_) => {
                                let out: Vec<AbiValue> = Vec::new();
                                assert(crate::abi::values_view(out@) =~= Seq::<AbiTerm>::empty());
                                Ok(out)
                            },
                            Err(e) => Err(e),
                        };
                    },
                    _ => {
                        assert(vals[0] == args@[0]@ && vals[1] == args@[1]@);
                    },
                }
            }
            Err(PrecompileError::AbiDecodeError(function.name))
        } else if same_text(function.name, "balance_of") {
            if args.len() == 1 {
                match &args[0] {
                    AbiValue::Address(account) => {
                        assert(vals[0] == AbiTerm::Address(account@));
                        return match self.balance_of(ctx, *account) {
                            Ok(balance) => {
                                let out = vec![AbiValue::Uint256(balance)];
                                assert(crate::abi::values_view(out@) =~= seq![
                                    AbiTerm::Uint256(balance@),
                                ]);
                                Ok(out)
                            },
                            Err(e) => Err(e),
                        };
                    },
                    _ => {
                        assert(vals[0] == args@[0]@);
                    },
                }
            }
            Err(PrecompileError::AbiDecodeError(function.name))
        } else if same_text(function.name, "total_supply") {
            if args.len() == 0 {
                return match self.total_supply(ctx) {
                    Ok(supply) => {
                        let out = vec![AbiValue::Uint256(supply)];
                        assert(crate::abi::values_view(out@) =~= seq![AbiTerm::Uint256(supply@)]);
                        Ok(out)
                    },
                    Err(e) => Err(e),
                };
            }
            Err(PrecompileError::AbiDecodeError(function.name))
        } else {
            Err(PrecompileError::UnknownSelector)
        }
    }
}

/// In a static call nothing of the two contracts writes: with a frame active,
/// minting, transferring, transferring with rewards and distributing all fail
/// with the error for a write in a static call, and the store, the log and the
/// frames are afterwards as they were.
pub proof fn lemma_static_frame_refuses(
    before: Context,
    after: Context,
    from: Address,
    to: Address,
    amount: U256,
    result: Result<()>,
)
    requires
        before.active(),
        before.is_static(),
        minted(before, after, to@, amount.value(), result) || transferred(
            before,
            after,
            from,
            to,
            amount,
            result,
        ) || transferred_with_rewards(before, after, from, to, amount, result) || distributed(
            before,
            after,
            amount.value(),
            result,
        ),
    ensures
        result == Err::<(), PrecompileError>(PrecompileError::StateMutabilityViolation),
        after.storage == before.storage,
        after.logs@ == before.logs@,
        after.stack@ == before.stack@,
{
}

} // verus!
