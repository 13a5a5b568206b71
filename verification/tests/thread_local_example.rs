use precompile_core::context::Context;
use precompile_core::error::{PrecompileError, Result};
use precompile_core::primitives::{Address, U256};
use precompile_core::storage::Storage;
use precompile_core::thread_local_example::{
    rewards_address_value, ThreadLocalRewards, ThreadLocalToken,
};

#[test]
fn test_pure_thread_local() {
    let storage = Storage::new();
    let mut ctx = Context::new(storage);

    let token_address = Address::new([0x01; 20]);
    let alice = Address::new([0xA1; 20]);
    let bob = Address::new([0xB0; 20]);

    let r: Result<()> = ThreadLocalToken::call_mut(&mut ctx, token_address, |token, ctx| {
        token.mint(ctx, alice, U256::from_u64(1000))?;
        assert_eq!(token.balance_of(ctx, alice)?, U256::from_u64(1000));
        assert_eq!(token.total_supply(ctx)?, U256::from_u64(1000));

        token.transfer(ctx, alice, bob, U256::from_u64(100))?;
        assert_eq!(token.balance_of(ctx, alice)?, U256::from_u64(900));
        assert_eq!(token.balance_of(ctx, bob)?, U256::from_u64(100));

        Ok(())
    });
    r.unwrap();
}

#[test]
fn test_cross_contract_calls() {
    let storage = Storage::new();
    let mut ctx = Context::new(storage);

    let token_address = Address::new([0x01; 20]);
    let alice = Address::new([0xA1; 20]);
    let bob = Address::new([0xB0; 20]);

    let r: Result<()> = ThreadLocalToken::call_mut(&mut ctx, token_address, |token, ctx| {
        token.mint(ctx, alice, U256::from_u64(1000))?;

        token.transfer_with_rewards(ctx, alice, bob, U256::from_u64(100))?;
        assert_eq!(token.balance_of(ctx, alice)?, U256::from_u64(900));
        assert_eq!(token.balance_of(ctx, bob)?, U256::from_u64(100));

        Ok(())
    });
    r.unwrap();

    let r: Result<()> =
        ThreadLocalRewards::staticcall(&mut ctx, rewards_address_value(), |rewards, ctx| {
            let pool = rewards.get_pool(ctx)?;
            assert_eq!(pool, U256::from_u64(1));
            Ok(())
        });
    r.unwrap();
}

#[test]
fn test_nested_call_depth() {
    let storage = Storage::new();
    let mut ctx = Context::new(storage);
    let addr1 = Address::new([0x01; 20]);
    let addr2 = Address::new([0x02; 20]);
    let addr3 = Address::new([0x03; 20]);

    let r: Result<()> = ThreadLocalToken::staticcall(&mut ctx, addr1, |_token1, ctx| {
        assert_eq!(ctx.call_depth(), 1);

        ThreadLocalToken::staticcall(ctx, addr2, |_token2, ctx| {
            assert_eq!(ctx.call_depth(), 2);

            ThreadLocalToken::staticcall(ctx, addr3, |_token3, ctx| {
                assert_eq!(ctx.call_depth(), 3);
                Ok(())
            })?;

            assert_eq!(ctx.call_depth(), 2);
            Ok(())
        })?;

        assert_eq!(ctx.call_depth(), 1);
        Ok(())
    });
    r.unwrap();
    assert_eq!(ctx.call_depth(), 0);
}

#[test]
fn transfer_logs_the_event_with_its_topics() {
    let mut ctx = Context::new(Storage::new());
    let token_address = Address::new([0x01; 20]);
    let alice = Address::new([0xA1; 20]);
    let bob = Address::new([0xB0; 20]);
    let token = ThreadLocalToken::_new();
    ctx.enter(token_address);
    token.mint(&mut ctx, alice, U256::from_u64(1000)).unwrap();
    assert!(ctx.logs.is_empty());
    token.transfer(&mut ctx, alice, bob, U256::from_u64(100)).unwrap();
    ctx.exit();

    assert_eq!(ctx.logs.len(), 1);
    let record = &ctx.logs[0];
    assert_eq!(record.address, token_address);
    assert_eq!(record.topics.len(), 3);
    assert_eq!(
        const_hex::encode(record.topics[0].to_be_bytes()),
        "ddf252ad1be2c89b69c2b068fc378daa952ba7f163c4a11628f55a4df523b3ef"
    );
    assert_eq!(record.topics[1], alice.to_word());
    assert_eq!(record.topics[2], bob.to_word());
    assert_eq!(record.data, U256::from_u64(100).to_be_bytes().to_vec());
}

#[test]
fn transfer_of_more_than_the_balance_changes_nothing() {
    let mut ctx = Context::new(Storage::new());
    let alice = Address::new([0xA1; 20]);
    let bob = Address::new([0xB0; 20]);
    let token = ThreadLocalToken::_new();
    ctx.enter(Address::new([0x01; 20]));
    token.mint(&mut ctx, alice, U256::from_u64(1000)).unwrap();
    token.transfer(&mut ctx, alice, bob, U256::from_u64(100)).unwrap();
    let logs_before = ctx.logs.len();

    let r = token.transfer(&mut ctx, alice, bob, U256::from_u64(10_000));
    assert_eq!(
        r.unwrap_err(),
        PrecompileError::InsufficientBalance {
            account: alice,
            balance: U256::from_u64(900),
            needed: U256::from_u64(10_000),
        }
    );
    assert_eq!(token.balance_of(&ctx, alice).unwrap(), U256::from_u64(900));
    assert_eq!(token.balance_of(&ctx, bob).unwrap(), U256::from_u64(100));
    assert_eq!(token.total_supply(&ctx).unwrap(), U256::from_u64(1000));
    assert_eq!(ctx.logs.len(), logs_before);
}

#[test]
fn rewards_run_in_a_frame_of_their_own() {
    let mut ctx = Context::new(Storage::new());
    let token_address = Address::new([0x01; 20]);
    let alice = Address::new([0xA1; 20]);
    let bob = Address::new([0xB0; 20]);

    let r: Result<()> = ThreadLocalToken::call_mut(&mut ctx, token_address, |token, ctx| {
        token.mint(ctx, alice, U256::from_u64(1000))?;
        token.transfer(ctx, alice, bob, U256::from_u64(100))?;
        assert_eq!(ctx.current_address()?, token_address);
        ThreadLocalRewards::call_mut(ctx, rewards_address_value(), |rewards, ctx| {
            assert_eq!(ctx.call_depth(), 2);
            assert_eq!(ctx.current_address()?, rewards_address_value());
            rewards.distribute(ctx, U256::from_u64(100))
        })?;
        assert_eq!(ctx.call_depth(), 1);
        assert_eq!(ctx.current_address()?, token_address);
        // The pool lives under the address of the rewards contract, not here.
        assert_eq!(ThreadLocalRewards::_new().get_pool(ctx)?, U256::from_u64(1000));
        Ok(())
    });
    r.unwrap();
    assert_eq!(ctx.call_depth(), 0);
    assert_eq!(
        ctx.storage.sload(&rewards_address_value(), &U256::zero()),
        U256::from_u64(1)
    );
}

#[test]
fn handlers_fail_outside_any_frame() {
    let mut ctx = Context::new(Storage::new());
    let token = ThreadLocalToken::_new();
    let alice = Address::new([0xA1; 20]);
    assert_eq!(token.total_supply(&ctx).unwrap_err(), PrecompileError::NoActiveContext);
    assert_eq!(
        token.mint(&mut ctx, alice, U256::from_u64(1)).unwrap_err(),
        PrecompileError::NoActiveContext
    );
    assert_eq!(
        token.transfer_with_rewards(&mut ctx, alice, alice, U256::zero()).unwrap_err(),
        PrecompileError::NoActiveContext
    );
    assert_eq!(ctx.current_address().unwrap_err(), PrecompileError::NoActiveContext);
    assert_eq!(ctx.call_depth(), 0);
}

#[test]
fn mint_wraps_at_the_range_of_a_word() {
    let mut ctx = Context::new(Storage::new());
    let token = ThreadLocalToken::_new();
    let alice = Address::new([0xA1; 20]);
    ctx.enter(Address::new([0x01; 20]));
    token.mint(&mut ctx, alice, U256::from_be_bytes([0xff; 32])).unwrap();
    token.mint(&mut ctx, alice, U256::from_u64(3)).unwrap();
    assert_eq!(token.balance_of(&ctx, alice).unwrap(), U256::from_u64(2));
    assert_eq!(token.total_supply(&ctx).unwrap(), U256::from_u64(2));
}

#[test]
fn reward_is_the_hundredth_part_rounded_down() {
    let mut ctx = Context::new(Storage::new());
    let rewards = ThreadLocalRewards::_new();
    ctx.enter(rewards_address_value());
    rewards.distribute(&mut ctx, U256::from_u64(99)).unwrap();
    assert_eq!(rewards.get_pool(&ctx).unwrap(), U256::zero());
    rewards.distribute(&mut ctx, U256::from_u64(1234)).unwrap();
    assert_eq!(rewards.get_pool(&ctx).unwrap(), U256::from_u64(12));
    rewards.distribute(&mut ctx, U256::from_u64(250)).unwrap();
    assert_eq!(rewards.get_pool(&ctx).unwrap(), U256::from_u64(14));
}

#[test]
fn static_call_refuses_every_write() {
    let mut ctx = Context::new(Storage::new());
    let token_address = Address::new([0x01; 20]);
    let alice = Address::new([0xA1; 20]);
    let bob = Address::new([0xB0; 20]);
    let r: Result<()> = ThreadLocalToken::call_mut(&mut ctx, token_address, |token, ctx| {
        token.mint(ctx, alice, U256::from_u64(1000))?;
        token.transfer(ctx, alice, bob, U256::from_u64(100))
    });
    r.unwrap();
    let logs_before = ctx.logs.len();
    assert_eq!(logs_before, 1);

    let r: Result<()> = ThreadLocalToken::staticcall(&mut ctx, token_address, |token, ctx| {
        assert!(ctx.in_static_call());
        token.mint(ctx, alice, U256::from_u64(5))
    });
    assert_eq!(r.unwrap_err(), PrecompileError::StateMutabilityViolation);

    let r: Result<()> = ThreadLocalToken::staticcall(&mut ctx, token_address, |token, ctx| {
        token.transfer(ctx, alice, bob, U256::from_u64(5))
    });
    assert_eq!(r.unwrap_err(), PrecompileError::StateMutabilityViolation);

    let r: Result<()> = ThreadLocalToken::staticcall(&mut ctx, token_address, |token, ctx| {
        token.transfer_with_rewards(ctx, alice, bob, U256::from_u64(500))
    });
    assert_eq!(r.unwrap_err(), PrecompileError::StateMutabilityViolation);

    let r: Result<()> =
        ThreadLocalRewards::staticcall(&mut ctx, rewards_address_value(), |rewards, ctx| {
            rewards.distribute(ctx, U256::from_u64(500))
        });
    assert_eq!(r.unwrap_err(), PrecompileError::StateMutabilityViolation);

    assert!(!ctx.in_static_call());
    assert_eq!(ctx.call_depth(), 0);
    assert_eq!(ctx.logs.len(), logs_before);
    let supply = U256::zero();
    assert_eq!(ctx.storage.sload(&token_address, &supply), U256::from_u64(1000));
    assert_eq!(ctx.storage.sload(&rewards_address_value(), &U256::zero()), U256::zero());
    let r: Result<(U256, U256)> =
        ThreadLocalToken::staticcall(&mut ctx, token_address, |token, ctx| {
            Ok((token.balance_of(ctx, alice)?, token.balance_of(ctx, bob)?))
        });
    assert_eq!(r.unwrap(), (U256::from_u64(900), U256::from_u64(100)));
}

#[test]
fn static_call_that_ignores_the_refusal_still_writes_nothing() {
    let mut ctx = Context::new(Storage::new());
    let token_address = Address::new([0x01; 20]);
    let alice = Address::new([0xA1; 20]);
    let r: Result<()> = ThreadLocalToken::call_mut(&mut ctx, token_address, |token, ctx| {
        token.mint(ctx, alice, U256::from_u64(7))
    });
    r.unwrap();

    let r: Result<u32> = ThreadLocalToken::staticcall(&mut ctx, token_address, |token, ctx| {
        let refused = token.mint(ctx, alice, U256::from_u64(1));
        assert_eq!(refused.unwrap_err(), PrecompileError::StateMutabilityViolation);
        let refused = ctx.sstore(&U256::from_u64(3), &U256::from_u64(9));
        assert_eq!(refused.unwrap_err(), PrecompileError::StateMutabilityViolation);
        let refused = ctx.emit(vec![U256::one()], vec![1, 2, 3]);
        assert_eq!(refused.unwrap_err(), PrecompileError::StateMutabilityViolation);
        assert_eq!(token.balance_of(ctx, alice)?, U256::from_u64(7));
        assert!(ctx.logs.is_empty());
        Ok(ctx.call_depth())
    });
    assert_eq!(r, Ok(1));
    assert_eq!(ctx.call_depth(), 0);
    assert!(ctx.logs.is_empty());
    assert_eq!(ctx.storage.sload(&token_address, &U256::from_u64(3)), U256::zero());
    assert_eq!(ctx.storage.sload(&token_address, &U256::zero()), U256::from_u64(7));
}

#[test]
fn call_nested_in_a_static_call_is_static_too() {
    let mut ctx = Context::new(Storage::new());
    let token_address = Address::new([0x01; 20]);
    let alice = Address::new([0xA1; 20]);

    let r: Result<()> = ThreadLocalToken::staticcall(&mut ctx, token_address, |_token, ctx| {
        assert_eq!(ctx.call_depth(), 1);
        let inner: Result<()> =
            ThreadLocalRewards::call_mut(ctx, rewards_address_value(), |rewards, ctx| {
                assert!(ctx.in_static_call());
                assert_eq!(ctx.call_depth(), 2);
                assert_eq!(ctx.current_address()?, rewards_address_value());
                rewards.distribute(ctx, U256::from_u64(1000))
            });
        assert_eq!(inner.unwrap_err(), PrecompileError::StateMutabilityViolation);
        assert_eq!(ctx.call_depth(), 1);
        ThreadLocalToken::call_mut(ctx, token_address, |token, ctx| {
            token.mint(ctx, alice, U256::from_u64(1))
        })
    });
    assert_eq!(r.unwrap_err(), PrecompileError::StateMutabilityViolation);
    assert_eq!(ctx.call_depth(), 0);
    assert_eq!(ctx.storage.sload(&rewards_address_value(), &U256::zero()), U256::zero());
    assert_eq!(ctx.storage.sload(&token_address, &U256::zero()), U256::zero());
}

#[test]
fn frames_are_restored_whatever_the_closure_did() {
    let mut ctx = Context::new(Storage::new());
    let token_address = Address::new([0x01; 20]);
    let other = Address::new([0x02; 20]);
    ctx.enter(other);

    let failure = PrecompileError::AbiDecodeError("stop");
    let r: Result<()> = ThreadLocalToken::call_mut(&mut ctx, token_address, |_token, ctx| {
        assert_eq!(ctx.call_depth(), 2);
        assert_eq!(ctx.current_address()?, token_address);
        ctx.enter(Address::new([0x03; 20]));
        ctx.enter(Address::new([0x04; 20]));
        Err(PrecompileError::AbiDecodeError("stop"))
    });
    assert_eq!(r.unwrap_err(), failure);
    assert_eq!(ctx.call_depth(), 1);
    assert_eq!(ctx.current_address().unwrap(), other);

    let r: Result<()> = ThreadLocalToken::call_mut(&mut ctx, token_address, |_token, ctx| {
        ctx.exit();
        ctx.exit();
        Ok(())
    });
    r.unwrap();
    assert_eq!(ctx.call_depth(), 1);
    assert_eq!(ctx.current_address().unwrap(), other);

    let r: Result<u32> = ThreadLocalToken::staticcall(&mut ctx, token_address, |_token, ctx| {
        assert_eq!(ctx.current_address()?, token_address);
        ctx.enter(Address::new([0x03; 20]));
        Ok(ctx.call_depth())
    });
    assert_eq!(r, Ok(3));
    assert_eq!(ctx.call_depth(), 1);
    assert_eq!(ctx.current_address().unwrap(), other);

    let r: Result<()> = ThreadLocalRewards::staticcall(&mut ctx, token_address, |_rewards, ctx| {
        ctx.exit();
        ctx.exit();
        Err(PrecompileError::UnknownSelector)
    });
    assert_eq!(r.unwrap_err(), PrecompileError::UnknownSelector);
    assert_eq!(ctx.call_depth(), 1);
    assert_eq!(ctx.current_address().unwrap(), other);
}

#[test]
fn rewards_of_a_transfer_leave_the_token_frame_on_top() {
    let mut ctx = Context::new(Storage::new());
    let token_address = Address::new([0x01; 20]);
    let alice = Address::new([0xA1; 20]);
    let bob = Address::new([0xB0; 20]);
    let r: Result<()> = ThreadLocalToken::call_mut(&mut ctx, token_address, |token, ctx| {
        token.mint(ctx, alice, U256::from_u64(1000))?;
        token.transfer_with_rewards(ctx, alice, bob, U256::from_u64(250))?;
        assert_eq!(ctx.call_depth(), 1);
        assert_eq!(ctx.current_address()?, token_address);
        let failed = token.transfer_with_rewards(ctx, alice, bob, U256::from_u64(5000));
        assert!(failed.is_err());
        assert_eq!(ctx.call_depth(), 1);
        assert_eq!(ctx.current_address()?, token_address);
        Ok(())
    });
    r.unwrap();
    assert_eq!(ctx.storage.sload(&rewards_address_value(), &U256::zero()), U256::from_u64(2));
}
