use cp_amm::token::{
    calculate_inverse_fee, calculate_pre_fee_amount, calculate_transfer_fee_excluded_amount,
    calculate_transfer_fee_included_amount, TokenProgramFlags, TransferFee,
};

fn one_percent() -> TransferFee {
    TransferFee { transfer_fee_basis_points: 100, maximum_fee: 1_000_000_000 }
}

#[test]
fn test_transfer_fee_excluded_amount() {
    let fee = one_percent();
    let r = calculate_transfer_fee_excluded_amount(Some(fee), 10_000).unwrap();
    assert_eq!(r.transfer_fee, 100);
    assert_eq!(r.amount, 9_900);
    // no schedule, no fee
    let r = calculate_transfer_fee_excluded_amount(None, 10_000).unwrap();
    assert_eq!(r.amount, 10_000);
    assert_eq!(r.transfer_fee, 0);
}

#[test]
fn test_transfer_fee_cap_applies() {
    let fee = TransferFee { transfer_fee_basis_points: 100, maximum_fee: 5 };
    let r = calculate_transfer_fee_excluded_amount(Some(fee), 10_000).unwrap();
    assert_eq!(r.transfer_fee, 5);
    assert_eq!(r.amount, 9_995);
}

#[test]
fn test_transfer_fee_round_trip() {
    // grossing up and then excluding returns at least the target amount
    let fee = one_percent();
    let included = calculate_transfer_fee_included_amount(Some(fee), 9_900).unwrap();
    // the token program's inverse rounds in its own favour: one extra unit
    assert_eq!(included.amount, 10_001);
    assert_eq!(included.transfer_fee, 101);
    let back = calculate_transfer_fee_excluded_amount(Some(fee), included.amount).unwrap();
    assert!(back.amount >= 9_900);
}

#[test]
fn test_pre_fee_amount_edges() {
    let fee = one_percent();
    assert_eq!(calculate_pre_fee_amount(&fee, 0), Some(0));
    let zero_rate = TransferFee { transfer_fee_basis_points: 0, maximum_fee: 9 };
    assert_eq!(calculate_pre_fee_amount(&zero_rate, 123), Some(123));
    // at a 100% rate the cap is simply added on top
    let full_rate = TransferFee { transfer_fee_basis_points: 10_000, maximum_fee: 7 };
    assert_eq!(calculate_pre_fee_amount(&full_rate, 123), Some(130));
    // overflowing the 64-bit range must fail, not wrap
    assert_eq!(calculate_pre_fee_amount(&full_rate, u64::MAX), None);
    assert_eq!(calculate_inverse_fee(&fee, 9_900), Some(101));
}

#[test]
fn test_included_amount_zero_is_zero() {
    let fee = one_percent();
    let r = calculate_transfer_fee_included_amount(Some(fee), 0).unwrap();
    assert_eq!(r.amount, 0);
    assert_eq!(r.transfer_fee, 0);
}

#[test]
fn test_token_program_flags_codes() {
    assert_eq!(
        TokenProgramFlags::try_from_u8(0),
        Ok(TokenProgramFlags::TokenProgram)
    );
    assert_eq!(
        TokenProgramFlags::try_from_u8(1),
        Ok(TokenProgramFlags::TokenProgram2022)
    );
    assert!(TokenProgramFlags::try_from_u8(2).is_err());
}
