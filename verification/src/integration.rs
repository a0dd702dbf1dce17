//! Dynamic prop-AMM integration.
//!
//! The parameter-update instruction (its byte layout, how it is parsed and
//! encoded) and the decision logic of the update handler, which lets an
//! off-chain keeper adjust the vAMM's spread, fee and size limits.

use vstd::prelude::*;

use crate::le_bytes::{le_bytes, le_value, pow256, read_le, write_le};

verus! {

/// Instruction tag for a dynamic parameter update.
pub const PROP_AMM_UPDATE_TAG: u8 = 3;

/// Length of the update instruction:
///
/// | offset | field             | type | size |
/// |--------|-------------------|------|------|
/// | 0      | tag               | u8   | 1    |
/// | 1-5    | base_spread_bps   | u32  | 4    |
/// | 5-9    | trading_fee_bps   | u32  | 4    |
/// | 9-13   | impact_k_bps      | u32  | 4    |
/// | 13-21  | max_fill_abs      | u128 | 8    |
/// | 21-29  | max_inventory_abs | u128 | 8    |
pub const PROP_AMM_UPDATE_LEN: usize = 29;

/// Minimum size of the matcher context account.
pub const MIN_CTX_ACCOUNT_LEN: usize = 320;

/// Why an update instruction is refused.
#[derive(Clone, Copy, Debug, PartialEq, Eq, Structural)]
pub enum UpdateError {
    /// Fewer accounts than the instruction needs
    NotEnoughAccountKeys,
    /// The context account is not owned by this program
    IncorrectProgramId,
    /// The context account is too small
    AccountDataTooSmall,
    /// The LP PDA did not sign
    MissingRequiredSignature,
    /// The instruction data is too short or carries the wrong tag
    InvalidInstructionData,
    /// The signer is not the context's LP PDA, or the new parameters exceed
    /// the context's limit
    InvalidAccountData,
}

/// Parameters carried by an update instruction.
#[derive(Clone, Copy, Debug)]
pub struct PropAmmUpdateParams {
    pub base_spread_bps: u32,
    pub trading_fee_bps: u32,
    pub impact_k_bps: u32,
    pub max_fill_abs: u128,
    pub max_inventory_abs: u128,
}

/// The encoded instruction for some parameters.
pub open spec fn update_layout(p: PropAmmUpdateParams) -> Seq<u8> {
    seq![PROP_AMM_UPDATE_TAG] + le_bytes(p.base_spread_bps as nat, 4) + le_bytes(
        p.trading_fee_bps as nat,
        4,
    ) + le_bytes(p.impact_k_bps as nat, 4) + le_bytes(p.max_fill_abs as nat, 8) + le_bytes(
        p.max_inventory_abs as nat,
        8,
    )
}

/// The size limits fit the 8 bytes that the layout gives them.
pub open spec fn fits_layout(p: PropAmmUpdateParams) -> bool {
    p.max_fill_abs <= u64::MAX && p.max_inventory_abs <= u64::MAX
}

/// What parsing some instruction data gives.
pub open spec fn parse_update(d: Seq<u8>) -> core::result::Result<PropAmmUpdateParams, UpdateError> {
    if d.len() < PROP_AMM_UPDATE_LEN || d[0] != PROP_AMM_UPDATE_TAG {
        Err(UpdateError::InvalidInstructionData)
    } else {
        Ok(
            PropAmmUpdateParams {
                base_spread_bps: le_value(d.subrange(1, 5)) as u32,
                trading_fee_bps: le_value(d.subrange(5, 9)) as u32,
                impact_k_bps: le_value(d.subrange(9, 13)) as u32,
                max_fill_abs: le_value(d.subrange(13, 21)) as u128,
                max_inventory_abs: le_value(d.subrange(21, 29)) as u128,
            },
        )
    }
}

/// Parsing an encoded instruction gives back the parameters that were
/// encoded.
pub proof fn lemma_parse_after_encode(p: PropAmmUpdateParams)
    requires
        fits_layout(p),
    ensures
        parse_update(update_layout(p)) == Ok::<PropAmmUpdateParams, UpdateError>(p),
{
    let d = update_layout(p);
    crate::le_bytes::lemma_pow256_values();
    crate::le_bytes::lemma_le_bytes_len(p.base_spread_bps as nat, 4);
    crate::le_bytes::lemma_le_bytes_len(p.trading_fee_bps as nat, 4);
    crate::le_bytes::lemma_le_bytes_len(p.impact_k_bps as nat, 4);
    crate::le_bytes::lemma_le_bytes_len(p.max_fill_abs as nat, 8);
    crate::le_bytes::lemma_le_bytes_len(p.max_inventory_abs as nat, 8);
    assert(d.subrange(1, 5) =~= le_bytes(p.base_spread_bps as nat, 4));
    assert(d.subrange(5, 9) =~= le_bytes(p.trading_fee_bps as nat, 4));
    assert(d.subrange(9, 13) =~= le_bytes(p.impact_k_bps as nat, 4));
    assert(d.subrange(13, 21) =~= le_bytes(p.max_fill_abs as nat, 8));
    assert(d.subrange(21, 29) =~= le_bytes(p.max_inventory_abs as nat, 8));
    crate::le_bytes::lemma_le_value_of_bytes(p.base_spread_bps as nat, 4);
    crate::le_bytes::lemma_le_value_of_bytes(p.trading_fee_bps as nat, 4);
    crate::le_bytes::lemma_le_value_of_bytes(p.impact_k_bps as nat, 4);
    crate::le_bytes::lemma_le_value_of_bytes(p.max_fill_abs as nat, 8);
    crate::le_bytes::lemma_le_value_of_bytes(p.max_inventory_abs as nat, 8);
    vstd::arithmetic::div_mod::lemma_small_mod(p.base_spread_bps as nat, 0x1_0000_0000);
    vstd::arithmetic::div_mod::lemma_small_mod(p.trading_fee_bps as nat, 0x1_0000_0000);
    vstd::arithmetic::div_mod::lemma_small_mod(p.impact_k_bps as nat, 0x1_0000_0000);
    vstd::arithmetic::div_mod::lemma_small_mod(p.max_fill_abs as nat, 0x1_0000_0000_0000_0000);
    vstd::arithmetic::div_mod::lemma_small_mod(
        p.max_inventory_abs as nat,
        0x1_0000_0000_0000_0000,
    );
}

/// Whatever parses successfully re-encodes to the first
/// `PROP_AMM_UPDATE_LEN` bytes of the data it came from.
pub proof fn lemma_encode_after_parse(d: Seq<u8>)
    requires
        parse_update(d) is Ok,
    ensures
        fits_layout(parse_update(d)->Ok_0),
        update_layout(parse_update(d)->Ok_0) == d.take(PROP_AMM_UPDATE_LEN as int),
{
    let p = parse_update(d)->Ok_0;
    crate::le_bytes::lemma_pow256_values();
    crate::le_bytes::lemma_le_value_bound(d.subrange(1, 5));
    crate::le_bytes::lemma_le_value_bound(d.subrange(5, 9));
    crate::le_bytes::lemma_le_value_bound(d.subrange(9, 13));
    crate::le_bytes::lemma_le_value_bound(d.subrange(13, 21));
    crate::le_bytes::lemma_le_value_bound(d.subrange(21, 29));
    crate::le_bytes::lemma_le_bytes_of_value(d.subrange(1, 5));
    crate::le_bytes::lemma_le_bytes_of_value(d.subrange(5, 9));
    crate::le_bytes::lemma_le_bytes_of_value(d.subrange(9, 13));
    crate::le_bytes::lemma_le_bytes_of_value(d.subrange(13, 21));
    crate::le_bytes::lemma_le_bytes_of_value(d.subrange(21, 29));
    assert(update_layout(p) =~= d.take(PROP_AMM_UPDATE_LEN as int));
}

/// Parsing succeeds exactly on data of at least `PROP_AMM_UPDATE_LEN` bytes
/// that starts with the update tag, and reads only those first bytes.
pub proof fn lemma_parse_accepts(d: Seq<u8>, extra: Seq<u8>)
    ensures
        (parse_update(d) is Ok) == (d.len() >= PROP_AMM_UPDATE_LEN && d[0] == PROP_AMM_UPDATE_TAG),
        d.len() >= PROP_AMM_UPDATE_LEN ==> parse_update(d + extra) == parse_update(d),
{
    if d.len() >= PROP_AMM_UPDATE_LEN {
        let e = d + extra;
        assert(e.subrange(1, 5) =~= d.subrange(1, 5));
        assert(e.subrange(5, 9) =~= d.subrange(5, 9));
        assert(e.subrange(9, 13) =~= d.subrange(9, 13));
        assert(e.subrange(13, 21) =~= d.subrange(13, 21));
        assert(e.subrange(21, 29) =~= d.subrange(21, 29));
    }
}

/// The encoding starts with the tag, then gives each field least
/// significant byte first: byte `1 + i` is byte `i` of the base spread,
/// byte `5 + i` of the fee, byte `9 + i` of the impact coefficient, byte
/// `13 + j` of the max fill and byte `21 + j` of the max inventory.
pub proof fn lemma_layout_bytes(p: PropAmmUpdateParams, i: int, j: int)
    requires
        0 <= i < 4,
        0 <= j < 8,
    ensures
        update_layout(p).len() == PROP_AMM_UPDATE_LEN,
        update_layout(p)[0] == PROP_AMM_UPDATE_TAG,
        update_layout(p)[1 + i] == (p.base_spread_bps as nat / pow256(i as nat)) % 256,
        update_layout(p)[5 + i] == (p.trading_fee_bps as nat / pow256(i as nat)) % 256,
        update_layout(p)[9 + i] == (p.impact_k_bps as nat / pow256(i as nat)) % 256,
        update_layout(p)[13 + j] == (p.max_fill_abs as nat / pow256(j as nat)) % 256,
        update_layout(p)[21 + j] == (p.max_inventory_abs as nat / pow256(j as nat)) % 256,
{
    crate::le_bytes::lemma_le_bytes_len(p.base_spread_bps as nat, 4);
    crate::le_bytes::lemma_le_bytes_len(p.trading_fee_bps as nat, 4);
    crate::le_bytes::lemma_le_bytes_len(p.impact_k_bps as nat, 4);
    crate::le_bytes::lemma_le_bytes_len(p.max_fill_abs as nat, 8);
    crate::le_bytes::lemma_le_bytes_len(p.max_inventory_abs as nat, 8);
    crate::le_bytes::lemma_le_bytes_digit(p.base_spread_bps as nat, 4, i);
    crate::le_bytes::lemma_le_bytes_digit(p.trading_fee_bps as nat, 4, i);
    crate::le_bytes::lemma_le_bytes_digit(p.impact_k_bps as nat, 4, i);
    crate::le_bytes::lemma_le_bytes_digit(p.max_fill_abs as nat, 8, j);
    crate::le_bytes::lemma_le_bytes_digit(p.max_inventory_abs as nat, 8, j);
}

impl PropAmmUpdateParams {
    /// Parse update parameters from instruction data.
    pub fn parse(data: &[u8]) -> (r: core::result::Result<Self, UpdateError>)
        ensures
            r == parse_update(data@),
    {
        if data.len() < PROP_AMM_UPDATE_LEN {
            return Err(UpdateError::InvalidInstructionData);
        }
        if data[0] != PROP_AMM_UPDATE_TAG {
            return Err(UpdateError::InvalidInstructionData);
        }
        proof {
            crate::le_bytes::lemma_pow256_values();
        }
        let base_spread_bps = read_le(data, 1, 4) as u32;
        let trading_fee_bps = read_le(data, 5, 4) as u32;
        let impact_k_bps = read_le(data, 9, 4) as u32;
        let max_fill_abs = read_le(data, 13, 8);
        let max_inventory_abs = read_le(data, 21, 8);
        Ok(Self { base_spread_bps, trading_fee_bps, impact_k_bps, max_fill_abs, max_inventory_abs })
    }

    /// Encode to instruction data.
    pub fn encode(&self) -> (data: [u8; PROP_AMM_UPDATE_LEN])
        requires
            fits_layout(*self),
        ensures
            data@ == update_layout(*self),
    {
        let mut data = [0u8;PROP_AMM_UPDATE_LEN];
        data[0] = PROP_AMM_UPDATE_TAG;
        write_le(&mut data, 1, self.base_spread_bps as u128, 4);
        write_le(&mut data, 5, self.trading_fee_bps as u128, 4);
        write_le(&mut data, 9, self.impact_k_bps as u128, 4);
        write_le(&mut data, 13, self.max_fill_abs, 8);
        write_le(&mut data, 21, self.max_inventory_abs, 8);
        proof {
            crate::le_bytes::lemma_le_bytes_len(self.base_spread_bps as nat, 4);
            crate::le_bytes::lemma_le_bytes_len(self.trading_fee_bps as nat, 4);
            crate::le_bytes::lemma_le_bytes_len(self.impact_k_bps as nat, 4);
            crate::le_bytes::lemma_le_bytes_len(self.max_fill_abs as nat, 8);
            crate::le_bytes::lemma_le_bytes_len(self.max_inventory_abs as nat, 8);
        }
        assert(data@ =~= update_layout(*self));
        data
    }
}

/// The matcher context fields that the parameter update reads and writes.
/// The context's byte layout belongs to the host program, which decodes
/// the account data into this value and writes it back.
#[derive(Clone, Copy, Debug)]
pub struct MatcherCtx {
    /// The LP PDA allowed to update the parameters
    pub lp_pda: [u8; 32],
    /// Limit on base spread plus trading fee (bps)
    pub max_total_bps: u32,
    pub base_spread_bps: u32,
    pub trading_fee_bps: u32,
    pub impact_k_bps: u32,
    pub max_fill_abs: u128,
    pub max_inventory_abs: u128,
    pub inventory_base: i128,
    pub last_oracle_price_e6: u64,
    pub last_exec_price_e6: u64,
}

/// What the update handler reads of an account.
#[derive(Clone, Copy, Debug)]
pub struct AccountState {
    /// The account's address
    pub key: [u8; 32],
    /// The program that owns the account
    pub owner: [u8; 32],
    /// Whether the account signed the transaction
    pub is_signer: bool,
    /// Length of the account's data
    pub data_len: usize,
}

/// What the update handler reports back on success, in the fields of the
/// matcher's return record that it reuses for the confirmation.
#[derive(Clone, Copy, Debug)]
pub struct UpdateConfirmation {
    /// The new base spread
    pub exec_price_e6: u64,
    /// The new trading fee
    pub exec_size: i128,
    /// The new impact coefficient
    pub oracle_price_e6: u64,
}

/// `a + b`, saturating at `u32::MAX`.
pub open spec fn saturating_add_u32(a: u32, b: u32) -> u32 {
    if a + b > u32::MAX {
        u32::MAX
    } else {
        (a + b) as u32
    }
}

/// The context with the parameters of an update written into it.
pub open spec fn with_params(ctx: MatcherCtx, p: PropAmmUpdateParams) -> MatcherCtx {
    MatcherCtx {
        base_spread_bps: p.base_spread_bps,
        trading_fee_bps: p.trading_fee_bps,
        impact_k_bps: p.impact_k_bps,
        max_fill_abs: p.max_fill_abs,
        max_inventory_abs: p.max_inventory_abs,
        ..ctx
    }
}

/// The outcome of an update instruction: the checks in order (accounts,
/// owner, size, signature, instruction data, LP PDA, the spread-plus-fee
/// limit), and on success the context with the new parameters.
pub open spec fn update_outcome(
    program_id: [u8; 32],
    accounts: Seq<AccountState>,
    data: Seq<u8>,
    ctx: MatcherCtx,
) -> core::result::Result<MatcherCtx, UpdateError> {
    if accounts.len() < 2 {
        Err(UpdateError::NotEnoughAccountKeys)
    } else if accounts[1].owner != program_id {
        Err(UpdateError::IncorrectProgramId)
    } else if accounts[1].data_len < MIN_CTX_ACCOUNT_LEN {
        Err(UpdateError::AccountDataTooSmall)
    } else if !accounts[0].is_signer {
        Err(UpdateError::MissingRequiredSignature)
    } else {
        match parse_update(data) {
            Err(e) => Err(e),
            Ok(p) => if accounts[0].key != ctx.lp_pda {
                Err(UpdateError::InvalidAccountData)
            } else if saturating_add_u32(p.base_spread_bps, p.trading_fee_bps) > ctx.max_total_bps {
                Err(UpdateError::InvalidAccountData)
            } else {
                Ok(with_params(ctx, p))
            },
        }
    }
}

/// The confirmation reported for a context.
pub open spec fn confirmation(ctx: MatcherCtx) -> UpdateConfirmation {
    UpdateConfirmation {
        exec_price_e6: ctx.base_spread_bps as u64,
        exec_size: ctx.trading_fee_bps as i128,
        oracle_price_e6: ctx.impact_k_bps as u64,
    }
}

/// Whether two keys are the same.
fn same_key(a: &[u8; 32], b: &[u8; 32]) -> (r: bool)
    ensures
        r == (*a == *b),
{
    let mut i: usize = 0;
    while i < 32
        invariant
            i <= 32,
            forall|j: int| 0 <= j < i ==> a@[j] == b@[j],
        decreases 32 - i,
    {
        if a[i] != b[i] {
            return false;
        }
        i += 1;
    }
    assert(*a =~= *b);
    true
}

/// Process a dynamic parameter update (tag 3): the off-chain keeper updates
/// the pricing parameters in real time.
///
/// Accounts: 0, the LP PDA (signer, must match the one stored in the
/// context); 1, the matcher context account (writable, owned by this
/// program). `ctx` is the context decoded from account 1; on success it
/// holds the new parameters, on failure it is left as it was.
pub fn process_prop_amm_update(
    program_id: &[u8; 32],
    accounts: &[AccountState],
    instruction_data: &[u8],
    ctx: &mut MatcherCtx,
) -> (r: core::result::Result<UpdateConfirmation, UpdateError>)
    ensures
        match r {
            Ok(conf) => update_outcome(*program_id, accounts@, instruction_data@, *old(ctx)) == Ok::<
                MatcherCtx,
                UpdateError,
            >(*final(ctx)) && conf == confirmation(*final(ctx)),
            Err(e) => update_outcome(*program_id, accounts@, instruction_data@, *old(ctx)) == Err::<
                MatcherCtx,
                UpdateError,
            >(e) && *final(ctx) == *old(ctx),
        },
{
    if accounts.len() < 2 {
        return Err(UpdateError::NotEnoughAccountKeys);
    }
    let lp_pda = &accounts[0];
    let ctx_account = &accounts[1];
    // verify ownership
    if !same_key(&ctx_account.owner, program_id) {
        return Err(UpdateError::IncorrectProgramId);
    }
    // verify minimum size
    if ctx_account.data_len < MIN_CTX_ACCOUNT_LEN {
        return Err(UpdateError::AccountDataTooSmall);
    }
    // require the LP PDA's signature (authorization)
    if !lp_pda.is_signer {
        return Err(UpdateError::MissingRequiredSignature);
    }
    // parse the update parameters
    let params = match PropAmmUpdateParams::parse(instruction_data) {
        Ok(p) => p,
        Err(e) => return Err(e),
    };
    // the signer must be the context's LP PDA (authorization)
    if !same_key(&lp_pda.key, &ctx.lp_pda) {
        return Err(UpdateError::InvalidAccountData);
    }
    // validate the new parameters
    let total_fixed = params.base_spread_bps.saturating_add(params.trading_fee_bps);
    if total_fixed > ctx.max_total_bps {
        return Err(UpdateError::InvalidAccountData);
    }
    // update the parameters
    ctx.base_spread_bps = params.base_spread_bps;
    ctx.trading_fee_bps = params.trading_fee_bps;
    ctx.impact_k_bps = params.impact_k_bps;
    ctx.max_fill_abs = params.max_fill_abs;
    ctx.max_inventory_abs = params.max_inventory_abs;
    // report the state now in force
    Ok(
        UpdateConfirmation {
            exec_price_e6: ctx.base_spread_bps as u64,
            exec_size: ctx.trading_fee_bps as i128,
            oracle_price_e6: ctx.impact_k_bps as u64,
        },
    )
}

/// Current pricing parameters read from the context (for keeper polling).
#[derive(Clone, Copy, Debug)]
pub struct CurrentParams {
    pub base_spread_bps: u32,
    pub trading_fee_bps: u32,
    pub impact_k_bps: u32,
    pub max_fill_abs: u128,
    pub max_inventory_abs: u128,
    pub inventory_base: i128,
    pub last_oracle_price_e6: u64,
    pub last_exec_price_e6: u64,
}

/// The current parameters held by a context.
pub open spec fn current_params(ctx: MatcherCtx) -> CurrentParams {
    CurrentParams {
        base_spread_bps: ctx.base_spread_bps,
        trading_fee_bps: ctx.trading_fee_bps,
        impact_k_bps: ctx.impact_k_bps,
        max_fill_abs: ctx.max_fill_abs,
        max_inventory_abs: ctx.max_inventory_abs,
        inventory_base: ctx.inventory_base,
        last_oracle_price_e6: ctx.last_oracle_price_e6,
        last_exec_price_e6: ctx.last_exec_price_e6,
    }
}

/// After an accepted update, the context reports exactly the parameters
/// that the instruction carried, within the context's spread-plus-fee
/// limit, and everything else in it is as before.
pub proof fn lemma_update_then_read(
    program_id: [u8; 32],
    accounts: Seq<AccountState>,
    data: Seq<u8>,
    ctx: MatcherCtx,
)
    requires
        update_outcome(program_id, accounts, data, ctx) is Ok,
    ensures
        ({
            let new_ctx = update_outcome(program_id, accounts, data, ctx)->Ok_0;
            let p = parse_update(data)->Ok_0;
            let c = current_params(new_ctx);
            &&& parse_update(data) is Ok
            &&& c.base_spread_bps == p.base_spread_bps
            &&& c.trading_fee_bps == p.trading_fee_bps
            &&& c.impact_k_bps == p.impact_k_bps
            &&& c.max_fill_abs == p.max_fill_abs
            &&& c.max_inventory_abs == p.max_inventory_abs
            &&& c.inventory_base == ctx.inventory_base
            &&& c.last_oracle_price_e6 == ctx.last_oracle_price_e6
            &&& c.last_exec_price_e6 == ctx.last_exec_price_e6
            &&& new_ctx.lp_pda == ctx.lp_pda
            &&& new_ctx.max_total_bps == ctx.max_total_bps
            &&& saturating_add_u32(new_ctx.base_spread_bps, new_ctx.trading_fee_bps)
                <= new_ctx.max_total_bps
        }),
{
}

/// An encoded instruction, sent with the context's LP PDA as signer and
/// the program's context account, is accepted exactly when its spread plus
/// fee stays within the context's limit, and then installs its parameters.
pub proof fn lemma_encoded_update_accepted(
    program_id: [u8; 32],
    accounts: Seq<AccountState>,
    p: PropAmmUpdateParams,
    ctx: MatcherCtx,
)
    requires
        fits_layout(p),
        accounts.len() >= 2,
        accounts[0].is_signer,
        accounts[0].key == ctx.lp_pda,
        accounts[1].owner == program_id,
        accounts[1].data_len >= MIN_CTX_ACCOUNT_LEN,
    ensures
        update_outcome(program_id, accounts, update_layout(p), ctx) == (if saturating_add_u32(
            p.base_spread_bps,
            p.trading_fee_bps,
        ) <= ctx.max_total_bps {
            Ok::<MatcherCtx, UpdateError>(with_params(ctx, p))
        } else {
            Err::<MatcherCtx, UpdateError>(UpdateError::InvalidAccountData)
        }),
{
    lemma_parse_after_encode(p);
}

/// An update is accepted only with both accounts present, the context
/// account owned by the program and large enough, the LP PDA signing and
/// matching the context, well-formed instruction data, and spread plus fee
/// within the context's limit; a refused update names the first check that
/// failed.
pub proof fn lemma_accepted_update_authorized(
    program_id: [u8; 32],
    accounts: Seq<AccountState>,
    data: Seq<u8>,
    ctx: MatcherCtx,
)
    ensures
        (update_outcome(program_id, accounts, data, ctx) is Ok) == {
            &&& accounts.len() >= 2
            &&& accounts[1].owner == program_id
            &&& accounts[1].data_len >= MIN_CTX_ACCOUNT_LEN
            &&& accounts[0].is_signer
            &&& data.len() >= PROP_AMM_UPDATE_LEN
            &&& data[0] == PROP_AMM_UPDATE_TAG
            &&& accounts[0].key == ctx.lp_pda
            &&& saturating_add_u32(
                parse_update(data)->Ok_0.base_spread_bps,
                parse_update(data)->Ok_0.trading_fee_bps,
            ) <= ctx.max_total_bps
        },
        accounts.len() < 2 ==> update_outcome(program_id, accounts, data, ctx) == Err::<
            MatcherCtx,
            UpdateError,
        >(UpdateError::NotEnoughAccountKeys),
        accounts.len() >= 2 && accounts[1].owner != program_id ==> update_outcome(
            program_id,
            accounts,
            data,
            ctx,
        ) == Err::<MatcherCtx, UpdateError>(UpdateError::IncorrectProgramId),
        accounts.len() >= 2 && accounts[1].owner == program_id && accounts[1].data_len
            < MIN_CTX_ACCOUNT_LEN ==> update_outcome(program_id, accounts, data, ctx) == Err::<
            MatcherCtx,
            UpdateError,
        >(UpdateError::AccountDataTooSmall),
        accounts.len() >= 2 && accounts[1].owner == program_id && accounts[1].data_len
            >= MIN_CTX_ACCOUNT_LEN && !accounts[0].is_signer ==> update_outcome(
            program_id,
            accounts,
            data,
            ctx,
        ) == Err::<MatcherCtx, UpdateError>(UpdateError::MissingRequiredSignature),
{
}

impl CurrentParams {
    /// Read the current parameters from a context.
    pub fn from_ctx(ctx: &MatcherCtx) -> (c: Self)
        ensures
            c == current_params(*ctx),
    {
        Self {
            base_spread_bps: ctx.base_spread_bps,
            trading_fee_bps: ctx.trading_fee_bps,
            impact_k_bps: ctx.impact_k_bps,
            max_fill_abs: ctx.max_fill_abs,
            max_inventory_abs: ctx.max_inventory_abs,
            inventory_base: ctx.inventory_base,
            last_oracle_price_e6: ctx.last_oracle_price_e6,
            last_exec_price_e6: ctx.last_exec_price_e6,
        }
    }
}

} // verus!
