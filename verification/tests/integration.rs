use prop_amm::integration::{
    process_prop_amm_update, AccountState, CurrentParams, MatcherCtx, UpdateError,
    PROP_AMM_UPDATE_LEN,
};
use prop_amm::{PropAmmUpdateParams, PROP_AMM_UPDATE_TAG};

#[test]
fn test_update_params_encode_decode() {
    let params = PropAmmUpdateParams {
        base_spread_bps: 10,
        trading_fee_bps: 5,
        impact_k_bps: 100,
        max_fill_abs: 1_000_000,
        max_inventory_abs: 100_000,
    };

    let encoded = params.encode();
    let decoded = PropAmmUpdateParams::parse(&encoded).unwrap();

    assert_eq!(params.base_spread_bps, decoded.base_spread_bps);
    assert_eq!(params.trading_fee_bps, decoded.trading_fee_bps);
    assert_eq!(params.impact_k_bps, decoded.impact_k_bps);
    assert_eq!(params.max_fill_abs, decoded.max_fill_abs);
    assert_eq!(params.max_inventory_abs, decoded.max_inventory_abs);
}

#[test]
fn test_update_params_wrong_tag() {
    let mut data = [0u8; PROP_AMM_UPDATE_LEN];
    data[0] = 99; // Wrong tag
    assert!(PropAmmUpdateParams::parse(&data).is_err());
}

#[test]
fn test_update_params_too_short() {
    let data = [0u8; 10];
    assert!(PropAmmUpdateParams::parse(&data).is_err());
}

fn sample_params() -> PropAmmUpdateParams {
    PropAmmUpdateParams {
        base_spread_bps: 10,
        trading_fee_bps: 5,
        impact_k_bps: 100,
        max_fill_abs: 1_000_000,
        max_inventory_abs: 100_000,
    }
}

#[test]
fn encode_exact_bytes() {
    let data = sample_params().encode();
    assert_eq!(
        data,
        [
            3, 10, 0, 0, 0, 5, 0, 0, 0, 100, 0, 0, 0, 0x40, 0x42, 0x0F, 0, 0, 0, 0, 0, 0xA0,
            0x86, 0x01, 0, 0, 0, 0, 0
        ]
    );
}

#[test]
fn parse_exact_values_and_extra_bytes() {
    let mut data = vec![PROP_AMM_UPDATE_TAG];
    data.extend_from_slice(&0x0102_0304u32.to_le_bytes());
    data.extend_from_slice(&u32::MAX.to_le_bytes());
    data.extend_from_slice(&7u32.to_le_bytes());
    data.extend_from_slice(&u64::MAX.to_le_bytes());
    data.extend_from_slice(&0x1122_3344_5566_7788u64.to_le_bytes());
    data.extend_from_slice(&[9, 9, 9]);
    let p = PropAmmUpdateParams::parse(&data).unwrap();
    assert_eq!(p.base_spread_bps, 0x0102_0304);
    assert_eq!(p.trading_fee_bps, u32::MAX);
    assert_eq!(p.impact_k_bps, 7);
    assert_eq!(p.max_fill_abs, u64::MAX as u128);
    assert_eq!(p.max_inventory_abs, 0x1122_3344_5566_7788);
    assert_eq!(p.encode()[..], data[..PROP_AMM_UPDATE_LEN]);
}

#[test]
fn parse_error_kind() {
    assert_eq!(
        PropAmmUpdateParams::parse(&[3u8; 28]).unwrap_err(),
        UpdateError::InvalidInstructionData
    );
    let mut data = sample_params().encode();
    data[0] = 2;
    assert_eq!(
        PropAmmUpdateParams::parse(&data).unwrap_err(),
        UpdateError::InvalidInstructionData
    );
}

const PROGRAM: [u8; 32] = [7; 32];
const LP: [u8; 32] = [1; 32];

fn sample_ctx() -> MatcherCtx {
    MatcherCtx {
        lp_pda: LP,
        max_total_bps: 100,
        base_spread_bps: 1,
        trading_fee_bps: 2,
        impact_k_bps: 3,
        max_fill_abs: 4,
        max_inventory_abs: 5,
        inventory_base: -6,
        last_oracle_price_e6: 7,
        last_exec_price_e6: 8,
    }
}

fn accounts() -> Vec<AccountState> {
    vec![
        AccountState { key: LP, owner: [0; 32], is_signer: true, data_len: 0 },
        AccountState { key: [2; 32], owner: PROGRAM, is_signer: false, data_len: 320 },
    ]
}

fn assert_ctx_eq(a: &MatcherCtx, b: &MatcherCtx) {
    assert_eq!(a.lp_pda, b.lp_pda);
    assert_eq!(a.max_total_bps, b.max_total_bps);
    assert_eq!(a.base_spread_bps, b.base_spread_bps);
    assert_eq!(a.trading_fee_bps, b.trading_fee_bps);
    assert_eq!(a.impact_k_bps, b.impact_k_bps);
    assert_eq!(a.max_fill_abs, b.max_fill_abs);
    assert_eq!(a.max_inventory_abs, b.max_inventory_abs);
    assert_eq!(a.inventory_base, b.inventory_base);
    assert_eq!(a.last_oracle_price_e6, b.last_oracle_price_e6);
    assert_eq!(a.last_exec_price_e6, b.last_exec_price_e6);
}

#[test]
fn update_accepted() {
    let mut ctx = sample_ctx();
    let data = sample_params().encode();
    let conf = process_prop_amm_update(&PROGRAM, &accounts(), &data, &mut ctx).unwrap();
    assert_eq!(conf.exec_price_e6, 10);
    assert_eq!(conf.exec_size, 5);
    assert_eq!(conf.oracle_price_e6, 100);
    let c = CurrentParams::from_ctx(&ctx);
    assert_eq!(c.base_spread_bps, 10);
    assert_eq!(c.trading_fee_bps, 5);
    assert_eq!(c.impact_k_bps, 100);
    assert_eq!(c.max_fill_abs, 1_000_000);
    assert_eq!(c.max_inventory_abs, 100_000);
    assert_eq!(c.inventory_base, -6);
    assert_eq!(c.last_oracle_price_e6, 7);
    assert_eq!(c.last_exec_price_e6, 8);
    assert_eq!(ctx.lp_pda, LP);
    assert_eq!(ctx.max_total_bps, 100);
}

fn expect_refusal(
    accts: &[AccountState],
    data: &[u8],
    ctx: MatcherCtx,
    expected: UpdateError,
) {
    let mut after = ctx;
    let r = process_prop_amm_update(&PROGRAM, accts, data, &mut after);
    assert_eq!(r.unwrap_err(), expected);
    assert_ctx_eq(&after, &ctx);
}

#[test]
fn update_refusals() {
    let data = sample_params().encode();
    let ctx = sample_ctx();

    expect_refusal(&accounts()[..1], &data, ctx, UpdateError::NotEnoughAccountKeys);

    let mut a = accounts();
    a[1].owner = [8; 32];
    expect_refusal(&a, &data, ctx, UpdateError::IncorrectProgramId);

    let mut a = accounts();
    a[1].data_len = 319;
    expect_refusal(&a, &data, ctx, UpdateError::AccountDataTooSmall);

    let mut a = accounts();
    a[0].is_signer = false;
    expect_refusal(&a, &data, ctx, UpdateError::MissingRequiredSignature);

    expect_refusal(&accounts(), &data[..28], ctx, UpdateError::InvalidInstructionData);

    let mut a = accounts();
    a[0].key = [9; 32];
    expect_refusal(&a, &data, ctx, UpdateError::InvalidAccountData);

    let mut over = sample_params();
    over.base_spread_bps = 96;
    expect_refusal(&accounts(), &over.encode(), ctx, UpdateError::InvalidAccountData);
}

#[test]
fn update_at_limit_accepted() {
    let mut ctx = sample_ctx();
    let mut p = sample_params();
    p.base_spread_bps = 95;
    assert!(process_prop_amm_update(&PROGRAM, &accounts(), &p.encode(), &mut ctx).is_ok());
    assert_eq!(ctx.base_spread_bps, 95);
}

#[test]
fn saturating_total_refused() {
    let mut ctx = sample_ctx();
    ctx.max_total_bps = u32::MAX - 1;
    let mut p = sample_params();
    p.base_spread_bps = u32::MAX;
    p.trading_fee_bps = 1;
    let r = process_prop_amm_update(&PROGRAM, &accounts(), &p.encode(), &mut ctx);
    assert_eq!(r.unwrap_err(), UpdateError::InvalidAccountData);
    ctx.max_total_bps = u32::MAX;
    assert!(process_prop_amm_update(&PROGRAM, &accounts(), &p.encode(), &mut ctx).is_ok());
}
