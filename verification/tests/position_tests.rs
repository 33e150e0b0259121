use cp_amm::position::{Position, UserRewardInfo};
use cp_amm::u256::U256;
use cp_amm::PoolError;

fn zero_u256() -> U256 {
    U256 { lo: 0, hi: 0 }
}

fn empty_position() -> Position {
    Position {
        unlocked_liquidity: 0,
        permanent_locked_liquidity: 0,
        fee_a_per_token_checkpoint: zero_u256(),
        fee_b_per_token_checkpoint: zero_u256(),
        fee_a_pending: 0,
        fee_b_pending: 0,
        reward_infos: [
            UserRewardInfo { reward_per_token_checkpoint: zero_u256(), reward_pendings: 0 },
            UserRewardInfo { reward_per_token_checkpoint: zero_u256(), reward_pendings: 0 },
        ],
    }
}

#[test]
fn test_position_add_and_remove_liquidity() {
    let mut position = empty_position();
    position.add_liquidity(500).unwrap();
    position.add_liquidity(200).unwrap();
    assert_eq!(position.unlocked_liquidity, 700);
    position.remove_unlocked_liquidity(300).unwrap();
    assert_eq!(position.unlocked_liquidity, 400);
    assert_eq!(
        position.remove_unlocked_liquidity(401),
        Err(PoolError::MathOverflow)
    );
    assert_eq!(position.unlocked_liquidity, 400);
}

#[test]
fn test_position_fee_crediting() {
    let mut position = empty_position();
    position.add_liquidity(1 << 62).unwrap();
    // the accumulator advances by 3 fee units per unit of liquidity, in
    // 2^128 scale; with liquidity 2^62 the position earns 3 * 2^62 tokens
    let acc = U256 { lo: 0, hi: 3 };
    position.update_fee(acc, zero_u256()).unwrap();
    assert_eq!(position.fee_a_pending, 3 << 62);
    assert_eq!(position.fee_b_pending, 0);
    assert_eq!(position.fee_a_per_token_checkpoint, acc);
    // a second sync against the same accumulator credits nothing more
    position.update_fee(acc, zero_u256()).unwrap();
    assert_eq!(position.fee_a_pending, 3 << 62);
    let (a, b) = position.claim_fee();
    assert_eq!((a, b), (3 << 62, 0));
    assert_eq!(position.fee_a_pending, 0);
    assert_eq!(position.fee_b_pending, 0);
}

#[test]
fn test_position_fee_checkpoint_behind_fails() {
    // an accumulator behind the checkpoint signals corrupted state
    let mut position = empty_position();
    position.fee_a_per_token_checkpoint = U256 { lo: 10, hi: 0 };
    let res = position.update_fee(zero_u256(), zero_u256());
    assert_eq!(res, Err(PoolError::MathOverflow));
}

#[test]
fn test_position_claim_reward() {
    let mut position = empty_position();
    position.reward_infos = [
        UserRewardInfo { reward_per_token_checkpoint: zero_u256(), reward_pendings: 77 },
        UserRewardInfo { reward_per_token_checkpoint: zero_u256(), reward_pendings: 88 },
    ];
    assert_eq!(position.claim_reward(1), Ok(88));
    assert_eq!(position.reward_infos[1].reward_pendings, 0);
    assert_eq!(position.reward_infos[0].reward_pendings, 77);
    assert_eq!(position.claim_reward(2), Err(PoolError::InvalidRewardIndex));
}
