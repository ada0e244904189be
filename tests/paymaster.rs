use nexus_svm::keys::Pubkey;
use nexus_svm::paymaster::{
    add_supported_token, decode_context, encode_context, initialize_paymaster, parse_paymaster_data, post_op,
    set_active, settle_gas_cost, update_config, validate_paymaster_user_op, validate_sponsored_payment,
    validate_token_payment, withdraw, Paymaster, PaymasterConfig, PaymasterError, PaymentContext, PaymentMethod,
    PostOpMode,
};

fn key(b: u8) -> Pubkey {
    Pubkey::new([b; 32])
}

fn config(allowed: Vec<Pubkey>) -> PaymasterConfig {
    PaymasterConfig {
        max_operations_per_hour: 100,
        max_cost_per_operation: 1_000,
        allowed_users: allowed,
        rate_limit_per_user: 10,
        require_pre_deposit: false,
    }
}

fn paymaster_with_token(rate: u64) -> Paymaster {
    let owner = key(1);
    let mut p = initialize_paymaster(owner, key(2), config(vec![]));
    add_supported_token(&mut p, &owner, key(50), rate, None).unwrap();
    p
}

fn token_data(mint: Pubkey, max_token_amount: u64) -> Vec<u8> {
    let mut d = vec![1u8];
    d.extend_from_slice(&mint.bytes);
    d.extend_from_slice(&max_token_amount.to_le_bytes());
    d
}

#[test]
fn paymaster_data_encodings() {
    assert!(matches!(parse_paymaster_data(&[0]), Ok(PaymentMethod::Sponsored)));
    match parse_paymaster_data(&token_data(key(50), 777)) {
        Ok(PaymentMethod::TokenPayment { token_mint, max_token_amount }) => {
            assert_eq!(token_mint, key(50));
            assert_eq!(max_token_amount, 777);
        }
        other => panic!("unexpected {:?}", other),
    }
    assert_eq!(parse_paymaster_data(&[]).unwrap_err(), PaymasterError::InvalidPaymasterData);
    assert_eq!(parse_paymaster_data(&[0, 0]).unwrap_err(), PaymasterError::InvalidPaymasterData);
    assert_eq!(parse_paymaster_data(&[2]).unwrap_err(), PaymasterError::InvalidPaymasterData);
    let mut truncated = token_data(key(50), 777);
    truncated.pop();
    assert_eq!(parse_paymaster_data(&truncated).unwrap_err(), PaymasterError::InvalidPaymasterData);
}

#[test]
fn context_round_trips_and_matches_borsh_layout() {
    let c = PaymentContext {
        payment_method: PaymentMethod::TokenPayment { token_mint: key(50), max_token_amount: 900 },
        user: key(3),
        pre_charge: 500,
        token_account: Some(key(4)),
    };
    let bytes = encode_context(&c);
    let reference = borsh::to_vec(&(1u8, [50u8; 32], 900u64, [3u8; 32], 500u64, Some([4u8; 32]))).unwrap();
    assert_eq!(bytes, reference);
    let d = decode_context(&bytes).unwrap();
    assert_eq!(d.user, key(3));
    assert_eq!(d.pre_charge, 500);
    assert_eq!(d.token_account, Some(key(4)));
    assert!(matches!(d.payment_method, PaymentMethod::TokenPayment { max_token_amount: 900, .. }));
    let s = PaymentContext { payment_method: PaymentMethod::Sponsored, user: key(3), pre_charge: 7, token_account: None };
    let sb = encode_context(&s);
    assert_eq!(sb.len(), 42);
    assert!(matches!(decode_context(&sb).unwrap().payment_method, PaymentMethod::Sponsored));
    let mut longer = sb.clone();
    longer.push(0);
    assert!(decode_context(&longer).is_none());
    let mut bad_flag = sb;
    bad_flag[41] = 2;
    assert!(decode_context(&bad_flag).is_none());
}

#[test]
fn sponsored_validation_policy() {
    let owner = key(1);
    let p = initialize_paymaster(owner, key(2), config(vec![key(3)]));
    assert_eq!(validate_sponsored_payment(&p, key(4), 10).unwrap_err(), PaymasterError::UserNotAllowed);
    assert_eq!(validate_sponsored_payment(&p, key(3), 1_001).unwrap_err(), PaymasterError::CostTooHigh);
    let v = validate_sponsored_payment(&p, key(3), 1_000).unwrap();
    assert_eq!(v.valid_after, 0);
    assert_eq!(v.valid_until, u64::MAX);
    assert_eq!(v.authorizer, owner);
    let c = decode_context(&v.context).unwrap();
    assert_eq!(c.pre_charge, 1_000);
    assert_eq!(c.user, key(3));
    let open = initialize_paymaster(owner, key(2), config(vec![]));
    assert!(validate_sponsored_payment(&open, key(9), 5).is_ok());
}

#[test]
fn token_validation_prices_gas() {
    let p = paymaster_with_token(5);
    let v = validate_token_payment(&p, key(3), key(4), key(50), 500, 100).unwrap();
    assert_eq!(decode_context(&v.context).unwrap().pre_charge, 500);
    assert_eq!(
        validate_token_payment(&p, key(3), key(4), key(50), 499, 100).unwrap_err(),
        PaymasterError::InsufficientTokenBalance
    );
    assert_eq!(
        validate_token_payment(&p, key(3), key(4), key(51), 500, 100).unwrap_err(),
        PaymasterError::TokenNotSupported
    );
    assert_eq!(
        validate_token_payment(&p, key(3), key(4), key(50), u64::MAX, u64::MAX).unwrap_err(),
        PaymasterError::InsufficientTokenBalance
    );
}

#[test]
fn validate_user_op_dispatch() {
    let owner = key(1);
    let mut p = paymaster_with_token(5);
    let v = validate_paymaster_user_op(&p, key(3), &token_data(key(50), 600), 100, Some(key(4))).unwrap();
    assert_eq!(decode_context(&v.context).unwrap().token_account, Some(key(4)));
    assert_eq!(
        validate_paymaster_user_op(&p, key(3), &token_data(key(50), 600), 100, None).unwrap_err(),
        PaymasterError::MissingTokenAccount
    );
    assert_eq!(
        validate_paymaster_user_op(&p, key(3), &[7], 100, None).unwrap_err(),
        PaymasterError::InvalidPaymasterData
    );
    assert!(validate_paymaster_user_op(&p, key(3), &[0], 100, None).is_ok());
    set_active(&mut p, &owner, false).unwrap();
    assert_eq!(
        validate_paymaster_user_op(&p, key(3), &[0], 100, None).unwrap_err(),
        PaymasterError::PaymasterInactive
    );
    assert_eq!(set_active(&mut p, &key(9), true), Err(PaymasterError::NotOwner));
}

#[test]
fn token_refund_after_settlement() {
    let mut p = paymaster_with_token(5);
    let v = validate_token_payment(&p, key(3), key(4), key(50), 500, 100).unwrap();
    let settled = post_op(&mut p, PostOpMode::OpSucceeded, &v.context, 60).unwrap();
    assert_eq!(settled.tokens_charged, 300);
    assert_eq!(settled.refund, 200);
    assert_eq!(p.supported_tokens[0].total_collected, 300);
    assert_eq!(p.total_operations, 1);
    let reverted = post_op(&mut p, PostOpMode::OpReverted, &v.context, 200).unwrap();
    assert_eq!(reverted.tokens_charged, 1000);
    assert_eq!(reverted.refund, 0);
    assert_eq!(p.supported_tokens[0].total_collected, 1300);
}

#[test]
fn sponsored_settlement_and_post_op_revert() {
    let mut p = paymaster_with_token(5);
    let v = validate_sponsored_payment(&p, key(3), 100).unwrap();
    post_op(&mut p, PostOpMode::OpReverted, &v.context, 80).unwrap();
    assert_eq!(p.total_sponsored, 80);
    let r = post_op(&mut p, PostOpMode::PostOpReverted, &v.context, 80).unwrap();
    assert_eq!(r.mode, PostOpMode::PostOpReverted);
    assert_eq!(p.total_sponsored, 80);
    assert_eq!(p.total_operations, 1);
    assert_eq!(post_op(&mut p, PostOpMode::OpSucceeded, &[1, 2, 3], 1).unwrap_err(), PaymasterError::InvalidContext);
    assert_eq!(p.total_operations, 1);
}

#[test]
fn settlement_overflow_changes_nothing() {
    let mut p = paymaster_with_token(5);
    let c = PaymentContext { payment_method: PaymentMethod::Sponsored, user: key(3), pre_charge: 1, token_account: None };
    settle_gas_cost(&mut p, PostOpMode::OpSucceeded, &c, u64::MAX).unwrap();
    assert_eq!(
        settle_gas_cost(&mut p, PostOpMode::OpSucceeded, &c, 1).unwrap_err(),
        PaymasterError::ArithmeticOverflow
    );
    assert_eq!(p.total_sponsored, u64::MAX);
    assert_eq!(p.total_operations, 1);
}

#[test]
fn token_registry_rules() {
    let owner = key(1);
    let mut p = paymaster_with_token(5);
    assert_eq!(add_supported_token(&mut p, &owner, key(50), 3, None), Err(PaymasterError::TokenAlreadySupported));
    assert_eq!(add_supported_token(&mut p, &owner, key(51), 0, None), Err(PaymasterError::InvalidTokenRate));
    assert_eq!(add_supported_token(&mut p, &key(2), key(51), 3, None), Err(PaymasterError::NotOwner));
    for i in 0..19u8 {
        assert_eq!(add_supported_token(&mut p, &owner, key(60 + i), 1, None), Ok(()));
    }
    assert_eq!(add_supported_token(&mut p, &owner, key(90), 1, None), Err(PaymasterError::TooManyTokens));
}

#[test]
fn owner_operations() {
    let owner = key(1);
    let mut p = paymaster_with_token(5);
    assert_eq!(update_config(&mut p, &key(2), config(vec![])), Err(PaymasterError::NotOwner));
    assert_eq!(update_config(&mut p, &owner, config(vec![key(7)])), Ok(()));
    assert_eq!(p.config.allowed_users.len(), 1);
    let w = withdraw(&p, &owner, Some(key(50)), 42).unwrap();
    assert_eq!(w.amount, 42);
    assert_eq!(w.destination, owner);
    assert_eq!(withdraw(&p, &key(2), None, 1).unwrap_err(), PaymasterError::NotOwner);
}
