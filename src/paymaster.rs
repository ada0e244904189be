use vstd::prelude::*;
use vstd::bytes::{lemma_auto_spec_u64_to_from_le_bytes, spec_u64_from_le_bytes, u64_from_le_bytes};
use vstd::slice::slice_subrange;
use crate::keys::{Pubkey, contains_key, holds_key, key_at, lemma_key_view_injective};
use crate::crypto::{append_bytes, append_le64, le64};

verus! {

/// Most fee tokens a paymaster may accept.
pub const MAX_SUPPORTED_TOKENS: usize = 20;

/// A paymaster's sponsorship policy; an empty allow-list admits every user.
#[derive(Clone, Debug)]
pub struct PaymasterConfig {
    pub max_operations_per_hour: u64,
    pub max_cost_per_operation: u64,
    pub allowed_users: Vec<Pubkey>,
    pub rate_limit_per_user: u64,
    pub require_pre_deposit: bool,
}

/// A fee-payable asset and its price in tokens per lamport.
#[derive(Clone, Copy, Debug)]
pub struct SupportedToken {
    pub mint: Pubkey,
    pub rate_per_lamport: u64,
    pub oracle: Option<Pubkey>,
    pub is_active: bool,
    pub total_collected: u64,
}

/// A fee-sponsorship policy holder.
#[derive(Clone, Debug)]
pub struct Paymaster {
    pub owner: Pubkey,
    pub entry_point: Pubkey,
    pub config: PaymasterConfig,
    pub total_sponsored: u64,
    pub total_operations: u64,
    pub is_active: bool,
    pub supported_tokens: Vec<SupportedToken>,
}

/// What a successful validation hands back: the serialized context, the
/// validity window and the authorizing identity.
#[derive(Clone, Debug)]
pub struct PaymasterValidationResult {
    pub context: Vec<u8>,
    pub valid_after: u64,
    pub valid_until: u64,
    pub authorizer: Pubkey,
}

/// How the operation and its settlement went.
#[derive(Clone, Copy, Debug, PartialEq, Eq, Structural)]
pub enum PostOpMode {
    OpSucceeded,
    OpReverted,
    PostOpReverted,
}

/// The outcome of a settlement: tokens charged for gas and the refund owed
/// back to the user.
#[derive(Clone, Copy, Debug)]
pub struct PostOpProcessed {
    pub mode: PostOpMode,
    pub actual_gas_cost: u64,
    pub tokens_charged: u64,
    pub refund: u64,
}

/// A withdrawal the owner asked for, to be carried out by the caller.
#[derive(Clone, Copy, Debug)]
pub struct Withdrawn {
    pub token_mint: Option<Pubkey>,
    pub amount: u64,
    pub destination: Pubkey,
}

/// A fee-payment method named by a paymaster-data buffer.
#[derive(Clone, Copy, Debug)]
pub enum PaymentMethod {
    Sponsored,
    TokenPayment { token_mint: Pubkey, max_token_amount: u64 },
}

/// The state handed from validation to settlement, in serialized form.
#[derive(Clone, Copy, Debug)]
pub struct PaymentContext {
    pub payment_method: PaymentMethod,
    pub user: Pubkey,
    pub pre_charge: u64,
    pub token_account: Option<Pubkey>,
}

#[derive(Clone, Copy, Debug, PartialEq, Eq, Structural)]
pub enum PaymasterError {
    PaymasterInactive,
    TooManyTokens,
    TokenAlreadySupported,
    InvalidTokenRate,
    TokenNotSupported,
    InsufficientTokenBalance,
    RateLimitExceeded,
    UserNotAllowed,
    CostTooHigh,
    InvalidPaymasterData,
    InvalidContext,
    ArithmeticOverflow,
    NotOwner,
    MissingTokenAccount,
    MissingDestination,
    MissingTokenProgram,
    OraclePriceUnavailable,
}

/// The encoding of a payment method: tag `0`, or tag `1` followed by the
/// 32-byte mint and the little-endian maximum token amount.
pub open spec fn method_bytes(m: PaymentMethod) -> Seq<u8> {
    match m {
        PaymentMethod::Sponsored => seq![0u8],
        PaymentMethod::TokenPayment { token_mint, max_token_amount } => seq![1u8] + token_mint@ + le64(
            max_token_amount,
        ),
    }
}

/// The encoding of an optional identity: tag `0`, or tag `1` and the identity.
pub open spec fn option_key_bytes(k: Option<Pubkey>) -> Seq<u8> {
    match k {
        None => seq![0u8],
        Some(key) => seq![1u8] + key@,
    }
}

/// The serialized form of a payment context: its fields in order.
pub open spec fn context_bytes(c: PaymentContext) -> Seq<u8> {
    method_bytes(c.payment_method) + c.user@ + le64(c.pre_charge) + option_key_bytes(c.token_account)
}

/// `r` is what parsing `data` as paymaster data gives: the method it
/// encodes exactly, or `InvalidPaymasterData` when it encodes none.
pub open spec fn parses_to(data: Seq<u8>, r: Result<PaymentMethod, PaymasterError>) -> bool {
    match r {
        Ok(m) => method_bytes(m) == data,
        Err(e) => e == PaymasterError::InvalidPaymasterData && forall|m: PaymentMethod| #[trigger] method_bytes(m) != data,
    }
}

/// `r` is what decoding `data` as a payment context gives: the context it
/// encodes exactly, or `None` when it encodes none.
pub open spec fn decodes_to(data: Seq<u8>, r: Option<PaymentContext>) -> bool {
    match r {
        Some(c) => context_bytes(c) == data,
        None => forall|c: PaymentContext| #[trigger] context_bytes(c) != data,
    }
}

/// The length of a method's encoding.
pub open spec fn method_len(m: PaymentMethod) -> int {
    match m {
        PaymentMethod::Sponsored => 1,
        PaymentMethod::TokenPayment { .. } => 41,
    }
}

proof fn lemma_method_layout(m: PaymentMethod)
    ensures
        method_bytes(m).len() == method_len(m),
        method_bytes(m)[0] == (if m is Sponsored { 0u8 } else { 1u8 }),
        match m {
            PaymentMethod::Sponsored => true,
            PaymentMethod::TokenPayment { token_mint, max_token_amount } => {
                &&& method_bytes(m).subrange(1, 33) == token_mint@
                &&& method_bytes(m).subrange(33, 41) == le64(max_token_amount)
            },
        },
{
    lemma_auto_spec_u64_to_from_le_bytes();
    match m {
        PaymentMethod::Sponsored => {},
        PaymentMethod::TokenPayment { token_mint, max_token_amount } => {
            assert(method_bytes(m).subrange(1, 33) =~= token_mint@);
            assert(method_bytes(m).subrange(33, 41) =~= le64(max_token_amount));
        },
    }
}

proof fn lemma_context_layout(c: PaymentContext)
    ensures
        ({
            let b = context_bytes(c);
            let base = method_len(c.payment_method);
            &&& b.len() == base + 41 + (if c.token_account is Some { 32int } else { 0int })
            &&& b.subrange(0, base) == method_bytes(c.payment_method)
            &&& b[0] == method_bytes(c.payment_method)[0]
            &&& b.subrange(base, base + 32) == c.user@
            &&& b.subrange(base + 32, base + 40) == le64(c.pre_charge)
            &&& b[base + 40] == (if c.token_account is Some { 1u8 } else { 0u8 })
            &&& match c.token_account {
                Some(k) => b.subrange(base + 41, base + 73) == k@,
                None => true,
            }
        }),
{
    lemma_auto_spec_u64_to_from_le_bytes();
    lemma_method_layout(c.payment_method);
    let b = context_bytes(c);
    let base = method_len(c.payment_method);
    let m = method_bytes(c.payment_method);
    assert(b.subrange(0, base) =~= m);
    assert(b.subrange(base, base + 32) =~= c.user@);
    assert(b.subrange(base + 32, base + 40) =~= le64(c.pre_charge));
    match c.token_account {
        Some(k) => {
            assert(b.subrange(base + 41, base + 73) =~= k@);
        },
        None => {},
    }
}

/// Distinct payment contexts serialize differently.
pub proof fn lemma_context_bytes_injective(c1: PaymentContext, c2: PaymentContext)
    requires
        context_bytes(c1) == context_bytes(c2),
    ensures
        c1 == c2,
{
    lemma_auto_spec_u64_to_from_le_bytes();
    lemma_context_layout(c1);
    lemma_context_layout(c2);
    lemma_method_layout(c1.payment_method);
    lemma_method_layout(c2.payment_method);
    let b = context_bytes(c1);
    assert(method_len(c1.payment_method) == method_len(c2.payment_method));
    let base = method_len(c1.payment_method);
    lemma_key_view_injective(c1.user, c2.user);
    assert(spec_u64_from_le_bytes(le64(c1.pre_charge)) == spec_u64_from_le_bytes(le64(c2.pre_charge)));
    match (c1.payment_method, c2.payment_method) {
        (
            PaymentMethod::TokenPayment { token_mint: m1, max_token_amount: a1 },
            PaymentMethod::TokenPayment { token_mint: m2, max_token_amount: a2 },
        ) => {
            assert(b.subrange(0, base).subrange(1, 33) =~= b.subrange(1, 33));
            assert(b.subrange(0, base).subrange(33, 41) =~= b.subrange(33, 41));
            lemma_key_view_injective(m1, m2);
            assert(spec_u64_from_le_bytes(le64(a1)) == spec_u64_from_le_bytes(le64(a2)));
        },
        _ => {},
    }
    match (c1.token_account, c2.token_account) {
        (Some(k1), Some(k2)) => {
            lemma_key_view_injective(k1, k2);
        },
        _ => {},
    }
}

/// A payment context survives serialization: decoding its bytes gives it back.
pub proof fn lemma_context_round_trip(c: PaymentContext, r: Option<PaymentContext>)
    requires
        decodes_to(context_bytes(c), r),
    ensures
        r == Some(c),
{
    match r {
        Some(d) => lemma_context_bytes_injective(d, c),
        None => {
            assert(context_bytes(c) != context_bytes(c));
        },
    }
}

/// The little-endian `u64` in the 8 bytes of `data` from `start` on.
fn u64_at(data: &[u8], start: usize) -> (r: u64)
    requires
        start + 8 <= data@.len(),
    ensures
        le64(r) == data@.subrange(start as int, start + 8),
{
    proof {
        lemma_auto_spec_u64_to_from_le_bytes();
    }
    let len = data.len();
    proof {
        assert(start + 8 <= len);
    }
    let part = slice_subrange(data, start, start + 8);
    let r = u64_from_le_bytes(part);
    r
}

/// Parses paymaster data: exactly `[0]` for sponsorship, or `[1]`, a 32-byte
/// mint and an 8-byte little-endian maximum token amount; anything else is
/// `InvalidPaymasterData`.
pub fn parse_paymaster_data(data: &[u8]) -> (r: Result<PaymentMethod, PaymasterError>)
    ensures
        parses_to(data@, r),
        r is Ok <==> ((data@.len() == 1 && data@[0] == 0) || (data@.len() == 41 && data@[0] == 1)),
{
    if data.len() == 1 && data[0] == 0 {
        assert(data@ =~= seq![0u8]);
        return Ok(PaymentMethod::Sponsored);
    }
    if data.len() == 41 && data[0] == 1 {
        let token_mint = key_at(data, 1);
        let max_token_amount = u64_at(data, 33);
        let m = PaymentMethod::TokenPayment { token_mint, max_token_amount };
        assert(data@ =~= seq![1u8] + data@.subrange(1, 33) + data@.subrange(33, 41));
        return Ok(m);
    }
    assert forall|m: PaymentMethod| #[trigger] method_bytes(m) != data@ by {
        lemma_method_layout(m);
    }
    Err(PaymasterError::InvalidPaymasterData)
}

/// Serializes a payment context.
pub fn encode_context(context: &PaymentContext) -> (r: Vec<u8>)
    ensures
        r@ == context_bytes(*context),
{
    let mut buf: Vec<u8> = Vec::new();
    match context.payment_method {
        PaymentMethod::Sponsored => {
            buf.push(0u8);
        },
        PaymentMethod::TokenPayment { token_mint, max_token_amount } => {
            buf.push(1u8);
            append_bytes(&mut buf, token_mint.bytes.as_slice());
            append_le64(&mut buf, max_token_amount);
        },
    }
    append_bytes(&mut buf, context.user.bytes.as_slice());
    append_le64(&mut buf, context.pre_charge);
    match context.token_account {
        None => {
            buf.push(0u8);
        },
        Some(k) => {
            buf.push(1u8);
            append_bytes(&mut buf, k.bytes.as_slice());
        },
    }
    assert(buf@ =~= context_bytes(*context));
    buf
}

/// Decodes a serialized payment context; the whole buffer must be used.
pub fn decode_context(data: &[u8]) -> (r: Option<PaymentContext>)
    ensures
        decodes_to(data@, r),
{
    let ghost b = data@;
    proof {
        lemma_auto_spec_u64_to_from_le_bytes();
    }
    if data.len() < 1 {
        assert forall|c: PaymentContext| #[trigger] context_bytes(c) != b by {
            lemma_context_layout(c);
        }
        return None;
    }
    let tag = data[0];
    if tag > 1 || (tag == 1 && data.len() < 41) {
        assert forall|c: PaymentContext| #[trigger] context_bytes(c) != b by {
            lemma_context_layout(c);
            lemma_method_layout(c.payment_method);
        }
        return None;
    }
    let base: usize = if tag == 0 { 1 } else { 41 };
    let payment_method = if tag == 0 {
        PaymentMethod::Sponsored
    } else {
        let token_mint = key_at(data, 1);
        let max_token_amount = u64_at(data, 33);
        PaymentMethod::TokenPayment { token_mint, max_token_amount }
    };
    proof {
        lemma_method_layout(payment_method);
        assert(b.subrange(0, base as int) =~= method_bytes(payment_method));
    }
    if data.len() < base + 41 {
        assert forall|c: PaymentContext| #[trigger] context_bytes(c) != b by {
            lemma_context_layout(c);
            lemma_method_layout(c.payment_method);
        }
        return None;
    }
    let user = key_at(data, base);
    let pre_charge = u64_at(data, base + 32);
    let option_tag = data[base + 40];
    let token_account = if option_tag == 0 && data.len() == base + 41 {
        None
    } else if option_tag == 1 && data.len() == base + 73 {
        Some(key_at(data, base + 41))
    } else {
        assert forall|c: PaymentContext| #[trigger] context_bytes(c) != b by {
            lemma_context_layout(c);
            lemma_method_layout(c.payment_method);
        }
        return None;
    };
    let context = PaymentContext { payment_method, user, pre_charge, token_account };
    proof {
        let head = b.subrange(0, base as int) + b.subrange(base as int, base + 32) + b.subrange(base + 32, base + 40);
        match token_account {
            None => {
                assert(b =~= head + seq![0u8]);
            },
            Some(k) => {
                assert(b =~= head + (seq![1u8] + b.subrange(base + 41, base + 73)));
            },
        }
    }
    Some(context)
}

/// Position `i` holds an active token with mint `mint`.
pub open spec fn active_token_at(tokens: Seq<SupportedToken>, i: int, mint: Pubkey) -> bool {
    0 <= i < tokens.len() && tokens[i].mint@ == mint@ && tokens[i].is_active
}

/// Position `i` holds the token with mint `mint`.
pub open spec fn token_at(tokens: Seq<SupportedToken>, i: int, mint: Pubkey) -> bool {
    0 <= i < tokens.len() && tokens[i].mint@ == mint@
}

/// No mint occurs twice.
pub open spec fn distinct_mints(tokens: Seq<SupportedToken>) -> bool {
    forall|i: int, j: int| 0 <= i < j < tokens.len() ==> #[trigger] tokens[i].mint@ != #[trigger] tokens[j].mint@
}

/// The active token accepted for `mint`, if any.
pub open spec fn active_token(tokens: Seq<SupportedToken>, mint: Pubkey) -> Option<SupportedToken> {
    if exists|i: int| active_token_at(tokens, i, mint) {
        Some(tokens[choose|i: int| active_token_at(tokens, i, mint)])
    } else {
        None
    }
}

/// The position of the token for `mint`, active or not, if any.
pub open spec fn token_position(tokens: Seq<SupportedToken>, mint: Pubkey) -> Option<int> {
    if exists|i: int| token_at(tokens, i, mint) {
        Some(choose|i: int| token_at(tokens, i, mint))
    } else {
        None
    }
}

impl Paymaster {
    /// At most twenty tokens, each mint at most once.
    pub open spec fn wf(&self) -> bool {
        &&& self.supported_tokens@.len() <= MAX_SUPPORTED_TOKENS
        &&& distinct_mints(self.supported_tokens@)
    }
}

/// The context a sponsored validation of `user` at `max_cost` yields, or why it fails.
pub open spec fn sponsored_outcome(p: Paymaster, user: Pubkey, max_cost: u64) -> Result<PaymentContext, PaymasterError> {
    if p.config.allowed_users@.len() > 0 && !holds_key(p.config.allowed_users@, user) {
        Err(PaymasterError::UserNotAllowed)
    } else if max_cost > p.config.max_cost_per_operation {
        Err(PaymasterError::CostTooHigh)
    } else {
        Ok(PaymentContext { payment_method: PaymentMethod::Sponsored, user, pre_charge: max_cost, token_account: None })
    }
}

/// The context a token-paid validation yields, or why it fails: the
/// pre-charge is `max_cost * rate_per_lamport`, which `max_token_amount`
/// must cover.
pub open spec fn token_outcome(
    p: Paymaster,
    user: Pubkey,
    token_account: Pubkey,
    token_mint: Pubkey,
    max_token_amount: u64,
    max_cost: u64,
) -> Result<PaymentContext, PaymasterError> {
    match active_token(p.supported_tokens@, token_mint) {
        None => Err(PaymasterError::TokenNotSupported),
        Some(t) => if max_token_amount < max_cost * t.rate_per_lamport {
            Err(PaymasterError::InsufficientTokenBalance)
        } else {
            Ok(
                PaymentContext {
                    payment_method: PaymentMethod::TokenPayment { token_mint, max_token_amount },
                    user,
                    pre_charge: (max_cost * t.rate_per_lamport) as u64,
                    token_account: Some(token_account),
                },
            )
        },
    }
}

/// `r` is the validation result that `outcome` calls for: its context
/// serialized, a fully open window and the owner as authorizer.
pub open spec fn validation_reports(
    r: Result<PaymasterValidationResult, PaymasterError>,
    p: Paymaster,
    outcome: Result<PaymentContext, PaymasterError>,
) -> bool {
    match outcome {
        Err(e) => r == Err::<PaymasterValidationResult, PaymasterError>(e),
        Ok(c) => r matches Ok(v) && v.context@ == context_bytes(c) && v.valid_after == 0 && v.valid_until
            == u64::MAX && v.authorizer == p.owner,
    }
}

proof fn lemma_active_token_unique(tokens: Seq<SupportedToken>, i: int, mint: Pubkey)
    requires
        distinct_mints(tokens),
        active_token_at(tokens, i, mint),
    ensures
        active_token(tokens, mint) == Some(tokens[i]),
{
    let k = choose|k: int| active_token_at(tokens, k, mint);
    if k < i {
        assert(tokens[k].mint@ != tokens[i].mint@);
    } else if i < k {
        assert(tokens[i].mint@ != tokens[k].mint@);
    }
}

proof fn lemma_token_position_unique(tokens: Seq<SupportedToken>, i: int, mint: Pubkey)
    requires
        distinct_mints(tokens),
        token_at(tokens, i, mint),
    ensures
        token_position(tokens, mint) == Some(i),
{
    let k = choose|k: int| token_at(tokens, k, mint);
    if k < i {
        assert(tokens[k].mint@ != tokens[i].mint@);
    } else if i < k {
        assert(tokens[i].mint@ != tokens[k].mint@);
    }
}

/// The first position holding mint `mint`, active or not when `active_only` is false.
fn find_token(tokens: &Vec<SupportedToken>, mint: &Pubkey, active_only: bool) -> (r: Option<usize>)
    ensures
        match r {
            Some(i) => token_at(tokens@, i as int, *mint) && (active_only ==> tokens@[i as int].is_active),
            None => forall|j: int|
                0 <= j < tokens@.len() ==> !(#[trigger] tokens@[j].mint@ == mint@ && (active_only
                    ==> tokens@[j].is_active)),
        },
{
    let mut i: usize = 0;
    while i < tokens.len()
        invariant
            0 <= i <= tokens@.len(),
            forall|j: int|
                0 <= j < i ==> !(#[trigger] tokens@[j].mint@ == mint@ && (active_only ==> tokens@[j].is_active)),
        decreases tokens@.len() - i,
    {
        if tokens[i].mint == *mint && (!active_only || tokens[i].is_active) {
            return Some(i);
        }
        i = i + 1;
    }
    None
}

proof fn lemma_wide_product_fits(a: u64, b: u64)
    ensures
        a as int * b as int <= u128::MAX,
{
    assert(a as int * b as int <= u64::MAX as int * u64::MAX as int) by (nonlinear_arith)
        requires
            a <= u64::MAX,
            b <= u64::MAX,
    ;
}

fn validation_result(paymaster: &Paymaster, context: &PaymentContext) -> (r: PaymasterValidationResult)
    ensures
        r.context@ == context_bytes(*context),
        r.valid_after == 0,
        r.valid_until == u64::MAX,
        r.authorizer == paymaster.owner,
{
    PaymasterValidationResult {
        context: encode_context(context),
        valid_after: 0,
        valid_until: u64::MAX,
        authorizer: paymaster.owner,
    }
}

/// Sets up a paymaster, active, with no tokens and nothing sponsored yet.
pub fn initialize_paymaster(owner: Pubkey, entry_point: Pubkey, config: PaymasterConfig) -> (r: Paymaster)
    ensures
        r.wf(),
        r.owner == owner,
        r.entry_point == entry_point,
        r.config == config,
        r.total_sponsored == 0,
        r.total_operations == 0,
        r.is_active,
        r.supported_tokens@.len() == 0,
{
    Paymaster {
        owner,
        entry_point,
        config,
        total_sponsored: 0,
        total_operations: 0,
        is_active: true,
        supported_tokens: Vec::new(),
    }
}

/// Accepts `token_mint` for fee payment at `rate_per_lamport` tokens per
/// lamport (owner only). A mint is accepted once, at a positive rate, and at
/// most twenty mints are.
pub fn add_supported_token(
    paymaster: &mut Paymaster,
    caller: &Pubkey,
    token_mint: Pubkey,
    rate_per_lamport: u64,
    oracle: Option<Pubkey>,
) -> (r: Result<(), PaymasterError>)
    requires
        old(paymaster).wf(),
    ensures
        final(paymaster).wf(),
        caller@ != old(paymaster).owner@ ==> r == Err::<(), PaymasterError>(PaymasterError::NotOwner),
        caller@ == old(paymaster).owner@ && old(paymaster).supported_tokens@.len() >= MAX_SUPPORTED_TOKENS ==> r
            == Err::<(), PaymasterError>(PaymasterError::TooManyTokens),
        caller@ == old(paymaster).owner@ && old(paymaster).supported_tokens@.len() < MAX_SUPPORTED_TOKENS
            && token_position(old(paymaster).supported_tokens@, token_mint) is Some ==> r == Err::<
            (),
            PaymasterError,
        >(PaymasterError::TokenAlreadySupported),
        caller@ == old(paymaster).owner@ && old(paymaster).supported_tokens@.len() < MAX_SUPPORTED_TOKENS
            && token_position(old(paymaster).supported_tokens@, token_mint) is None && rate_per_lamport == 0 ==> r
            == Err::<(), PaymasterError>(PaymasterError::InvalidTokenRate),
        r is Ok <==> (caller@ == old(paymaster).owner@ && old(paymaster).supported_tokens@.len()
            < MAX_SUPPORTED_TOKENS && token_position(old(paymaster).supported_tokens@, token_mint) is None
            && rate_per_lamport > 0),
        r is Err ==> *final(paymaster) == *old(paymaster),
        r is Ok ==> {
            &&& caller@ == old(paymaster).owner@
            &&& rate_per_lamport > 0
            &&& *final(paymaster) == (Paymaster { supported_tokens: final(paymaster).supported_tokens, ..*old(paymaster) })
            &&& final(paymaster).supported_tokens@ == old(paymaster).supported_tokens@.push(
                SupportedToken { mint: token_mint, rate_per_lamport, oracle, is_active: true, total_collected: 0 },
            )
        },
{
    if *caller != paymaster.owner {
        return Err(PaymasterError::NotOwner);
    }
    if paymaster.supported_tokens.len() >= MAX_SUPPORTED_TOKENS {
        return Err(PaymasterError::TooManyTokens);
    }
    match find_token(&paymaster.supported_tokens, &token_mint, false) {
        Some(i) => {
            proof {
                lemma_token_position_unique(paymaster.supported_tokens@, i as int, token_mint);
            }
            return Err(PaymasterError::TokenAlreadySupported);
        },
        None => {},
    }
    if rate_per_lamport == 0 {
        return Err(PaymasterError::InvalidTokenRate);
    }
    let ghost before = paymaster.supported_tokens@;
    let token_info = SupportedToken { mint: token_mint, rate_per_lamport, oracle, is_active: true, total_collected: 0 };
    paymaster.supported_tokens.push(token_info);
    assert forall|i: int, j: int|
        0 <= i < j < paymaster.supported_tokens@.len() implies #[trigger] paymaster.supported_tokens@[i].mint@
        != #[trigger] paymaster.supported_tokens@[j].mint@ by {
        if j == before.len() {
            assert(paymaster.supported_tokens@[i] == before[i]);
        }
    }
    Ok(())
}

/// Validates sponsorship of `user` at `max_cost`: the user must be on the
/// allow-list when there is one, and the cost within the per-operation cap.
pub fn validate_sponsored_payment(paymaster: &Paymaster, user: Pubkey, max_cost: u64) -> (r: Result<
    PaymasterValidationResult,
    PaymasterError,
>)
    ensures
        validation_reports(r, *paymaster, sponsored_outcome(*paymaster, user, max_cost)),
{
    if paymaster.config.allowed_users.len() > 0 && !contains_key(&paymaster.config.allowed_users, &user) {
        return Err(PaymasterError::UserNotAllowed);
    }
    if max_cost > paymaster.config.max_cost_per_operation {
        return Err(PaymasterError::CostTooHigh);
    }
    let context = PaymentContext {
        payment_method: PaymentMethod::Sponsored,
        user,
        pre_charge: max_cost,
        token_account: None,
    };
    Ok(validation_result(paymaster, &context))
}

/// Validates payment in the token `token_mint`: the token must be accepted
/// and active, and `max_token_amount` must cover `max_cost` at its rate.
pub fn validate_token_payment(
    paymaster: &Paymaster,
    user: Pubkey,
    token_account: Pubkey,
    token_mint: Pubkey,
    max_token_amount: u64,
    max_cost: u64,
) -> (r: Result<PaymasterValidationResult, PaymasterError>)
    requires
        paymaster.wf(),
    ensures
        validation_reports(
            r,
            *paymaster,
            token_outcome(*paymaster, user, token_account, token_mint, max_token_amount, max_cost),
        ),
{
    let i = match find_token(&paymaster.supported_tokens, &token_mint, true) {
        Some(i) => i,
        None => {
            return Err(PaymasterError::TokenNotSupported);
        },
    };
    proof {
        lemma_active_token_unique(paymaster.supported_tokens@, i as int, token_mint);
    }
    let rate = paymaster.supported_tokens[i].rate_per_lamport;
    proof {
        lemma_wide_product_fits(max_cost, rate);
    }
    let required_wide = max_cost as u128 * rate as u128;
    if (max_token_amount as u128) < required_wide {
        return Err(PaymasterError::InsufficientTokenBalance);
    }
    let required_tokens = required_wide as u64;
    let context = PaymentContext {
        payment_method: PaymentMethod::TokenPayment { token_mint, max_token_amount },
        user,
        pre_charge: required_tokens,
        token_account: Some(token_account),
    };
    Ok(validation_result(paymaster, &context))
}

/// Validates a paymaster's sponsorship of an operation of `user` costing at
/// most `max_cost`, with the payment method that `paymaster_data` names.
/// Token payment needs the user's token account.
pub fn validate_paymaster_user_op(
    paymaster: &Paymaster,
    user: Pubkey,
    paymaster_data: &[u8],
    max_cost: u64,
    token_account: Option<Pubkey>,
) -> (r: Result<PaymasterValidationResult, PaymasterError>)
    requires
        paymaster.wf(),
    ensures
        !paymaster.is_active ==> r == Err::<PaymasterValidationResult, PaymasterError>(
            PaymasterError::PaymasterInactive,
        ),
        paymaster.is_active && (forall|m: PaymentMethod| #[trigger] method_bytes(m) != paymaster_data@) ==> r
            == Err::<PaymasterValidationResult, PaymasterError>(PaymasterError::InvalidPaymasterData),
        paymaster.is_active && method_bytes(PaymentMethod::Sponsored) == paymaster_data@ ==> validation_reports(
            r,
            *paymaster,
            sponsored_outcome(*paymaster, user, max_cost),
        ),
        forall|token_mint: Pubkey, max_token_amount: u64|
            paymaster.is_active && #[trigger] method_bytes(
                PaymentMethod::TokenPayment { token_mint, max_token_amount },
            ) == paymaster_data@ ==> match token_account {
                None => r == Err::<PaymasterValidationResult, PaymasterError>(PaymasterError::MissingTokenAccount),
                Some(a) => validation_reports(
                    r,
                    *paymaster,
                    token_outcome(*paymaster, user, a, token_mint, max_token_amount, max_cost),
                ),
            },
{
    if !paymaster.is_active {
        return Err(PaymasterError::PaymasterInactive);
    }
    let payment_method = parse_paymaster_data(paymaster_data)?;
    proof {
        assert forall|token_mint: Pubkey, max_token_amount: u64|
            #[trigger] method_bytes(PaymentMethod::TokenPayment { token_mint, max_token_amount })
            == paymaster_data@ implies payment_method == PaymentMethod::TokenPayment {
            token_mint,
            max_token_amount,
        } by {
            lemma_method_layout(payment_method);
            lemma_method_layout(PaymentMethod::TokenPayment { token_mint, max_token_amount });
            lemma_auto_spec_u64_to_from_le_bytes();
            match payment_method {
                PaymentMethod::TokenPayment { token_mint: m, max_token_amount: a } => {
                    lemma_key_view_injective(m, token_mint);
                    assert(spec_u64_from_le_bytes(le64(a)) == spec_u64_from_le_bytes(le64(max_token_amount)));
                },
                PaymentMethod::Sponsored => {},
            }
        }
    }
    match payment_method {
        PaymentMethod::Sponsored => validate_sponsored_payment(paymaster, user, max_cost),
        PaymentMethod::TokenPayment { token_mint, max_token_amount } => match token_account {
            None => Err(PaymasterError::MissingTokenAccount),
            Some(a) => validate_token_payment(paymaster, user, a, token_mint, max_token_amount, max_cost),
        },
    }
}

/// The refund owed back when `fee` tokens are charged against `pre_charge`:
/// the pre-charge less the fee, or nothing when the fee reaches it.
pub open spec fn refund_of(pre_charge: u64, fee: int) -> int {
    if pre_charge > fee {
        pre_charge - fee
    } else {
        0
    }
}

/// The mint a payment method pays in, if any.
pub open spec fn mint_of(m: PaymentMethod) -> Option<Pubkey> {
    match m {
        PaymentMethod::Sponsored => None,
        PaymentMethod::TokenPayment { token_mint, .. } => Some(token_mint),
    }
}

/// The relation between the paymaster before (`p0`) and after (`p1`)
/// settling the operation described by `c`, which consumed
/// `actual_gas_cost` lamports, and the result `r`. Both `OpSucceeded` and
/// `OpReverted` are charged: sponsorship adds the cost to the sponsored
/// total; token payment adds `actual_gas_cost * rate_per_lamport` to the
/// token's collected total and owes the rest of the pre-charge back.
/// `PostOpReverted` only reports that settlement itself failed: it charges
/// and counts nothing. Every other settlement is counted; one that would
/// overflow a counter changes nothing.
pub open spec fn settle_outcome(
    p0: Paymaster,
    p1: Paymaster,
    r: Result<PostOpProcessed, PaymasterError>,
    mode: PostOpMode,
    c: PaymentContext,
    actual_gas_cost: u64,
) -> bool {
    let overflow = Err::<PostOpProcessed, PaymasterError>(PaymasterError::ArithmeticOverflow);
    let ops = (p0.total_operations + 1) as u64;
    let position = match mint_of(c.payment_method) {
        Some(m) => token_position(p0.supported_tokens@, m),
        None => None,
    };
    if mode == PostOpMode::PostOpReverted {
        &&& r == Ok::<PostOpProcessed, PaymasterError>(
            PostOpProcessed { mode, actual_gas_cost, tokens_charged: 0, refund: 0 },
        )
        &&& p1 == p0
    } else if c.payment_method is TokenPayment && position is None {
        if p0.total_operations == u64::MAX {
            r == overflow && p1 == p0
        } else {
            &&& r == Ok::<PostOpProcessed, PaymasterError>(
                PostOpProcessed { mode, actual_gas_cost, tokens_charged: 0, refund: 0 },
            )
            &&& p1 == Paymaster { total_operations: ops, ..p0 }
        }
    } else if c.payment_method is Sponsored {
        if p0.total_operations == u64::MAX || p0.total_sponsored + actual_gas_cost > u64::MAX {
            r == overflow && p1 == p0
        } else {
            &&& r == Ok::<PostOpProcessed, PaymasterError>(
                PostOpProcessed { mode, actual_gas_cost, tokens_charged: 0, refund: 0 },
            )
            &&& p1 == Paymaster {
                total_sponsored: (p0.total_sponsored + actual_gas_cost) as u64,
                total_operations: ops,
                ..p0
            }
        }
    } else {
        let i = position.unwrap();
        let t = p0.supported_tokens@[i];
        let fee = actual_gas_cost * t.rate_per_lamport;
        if p0.total_operations == u64::MAX || fee > u64::MAX || t.total_collected + fee > u64::MAX {
            r == overflow && p1 == p0
        } else {
            &&& r == Ok::<PostOpProcessed, PaymasterError>(
                PostOpProcessed {
                    mode,
                    actual_gas_cost,
                    tokens_charged: fee as u64,
                    refund: refund_of(c.pre_charge, fee) as u64,
                },
            )
            &&& p1 == Paymaster { total_operations: ops, supported_tokens: p1.supported_tokens, ..p0 }
            &&& p1.supported_tokens@ == p0.supported_tokens@.update(
                i,
                SupportedToken { total_collected: (t.total_collected + fee) as u64, ..t },
            )
        }
    }
}

/// Settles the gas of an operation described by `context` (see
/// [`settle_outcome`]).
pub fn settle_gas_cost(
    paymaster: &mut Paymaster,
    mode: PostOpMode,
    context: &PaymentContext,
    actual_gas_cost: u64,
) -> (r: Result<PostOpProcessed, PaymasterError>)
    requires
        old(paymaster).wf(),
    ensures
        final(paymaster).wf(),
        settle_outcome(*old(paymaster), *final(paymaster), r, mode, *context, actual_gas_cost),
{
    let nothing_charged = PostOpProcessed { mode, actual_gas_cost, tokens_charged: 0, refund: 0 };
    if mode == PostOpMode::PostOpReverted {
        return Ok(nothing_charged);
    }
    if paymaster.total_operations == u64::MAX {
        proof {
            match context.payment_method {
                PaymentMethod::TokenPayment { token_mint, .. } => {
                    if exists|i: int| token_at(paymaster.supported_tokens@, i, token_mint) {
                        let i = choose|i: int| token_at(paymaster.supported_tokens@, i, token_mint);
                        lemma_token_position_unique(paymaster.supported_tokens@, i, token_mint);
                    }
                },
                PaymentMethod::Sponsored => {},
            }
        }
        return Err(PaymasterError::ArithmeticOverflow);
    }
    match context.payment_method {
        PaymentMethod::Sponsored => {
            if paymaster.total_sponsored > u64::MAX - actual_gas_cost {
                return Err(PaymasterError::ArithmeticOverflow);
            }
            paymaster.total_sponsored = paymaster.total_sponsored + actual_gas_cost;
            paymaster.total_operations = paymaster.total_operations + 1;
            Ok(nothing_charged)
        },
        PaymentMethod::TokenPayment { token_mint, .. } => {
            match find_token(&paymaster.supported_tokens, &token_mint, false) {
                None => {
                    paymaster.total_operations = paymaster.total_operations + 1;
                    Ok(nothing_charged)
                },
                Some(i) => {
                    proof {
                        lemma_token_position_unique(paymaster.supported_tokens@, i as int, token_mint);
                        lemma_wide_product_fits(actual_gas_cost, paymaster.supported_tokens@[i as int].rate_per_lamport);
                    }
                    let mut token_info = paymaster.supported_tokens[i];
                    let fee_wide = actual_gas_cost as u128 * token_info.rate_per_lamport as u128;
                    if fee_wide > u64::MAX as u128 {
                        return Err(PaymasterError::ArithmeticOverflow);
                    }
                    let tokens_for_gas = fee_wide as u64;
                    if token_info.total_collected > u64::MAX - tokens_for_gas {
                        return Err(PaymasterError::ArithmeticOverflow);
                    }
                    token_info.total_collected = token_info.total_collected + tokens_for_gas;
                    let ghost before = paymaster.supported_tokens@;
                    paymaster.supported_tokens.set(i, token_info);
                    paymaster.total_operations = paymaster.total_operations + 1;
                    assert forall|a: int, b: int|
                        0 <= a < b < paymaster.supported_tokens@.len() implies #[trigger] paymaster.supported_tokens@[a].mint@
                        != #[trigger] paymaster.supported_tokens@[b].mint@ by {
                        assert(paymaster.supported_tokens@[a].mint == before[a].mint);
                        assert(paymaster.supported_tokens@[b].mint == before[b].mint);
                    }
                    let refund = context.pre_charge.saturating_sub(tokens_for_gas);
                    Ok(PostOpProcessed { mode, actual_gas_cost, tokens_charged: tokens_for_gas, refund })
                },
            }
        },
    }
}

/// Settles an operation after execution: decodes the serialized context
/// that validation produced and charges for `actual_gas_cost` as `mode`
/// calls for. A context that decodes to nothing is `InvalidContext`.
pub fn post_op(
    paymaster: &mut Paymaster,
    mode: PostOpMode,
    context: &[u8],
    actual_gas_cost: u64,
) -> (r: Result<PostOpProcessed, PaymasterError>)
    requires
        old(paymaster).wf(),
    ensures
        final(paymaster).wf(),
        (forall|c: PaymentContext| #[trigger] context_bytes(c) != context@) ==> r == Err::<
            PostOpProcessed,
            PaymasterError,
        >(PaymasterError::InvalidContext) && *final(paymaster) == *old(paymaster),
        forall|c: PaymentContext|
            #[trigger] context_bytes(c) == context@ ==> settle_outcome(
                *old(paymaster),
                *final(paymaster),
                r,
                mode,
                c,
                actual_gas_cost,
            ),
{
    match decode_context(context) {
        None => Err(PaymasterError::InvalidContext),
        Some(payment_context) => {
            proof {
                assert forall|c: PaymentContext| #[trigger] context_bytes(c) == context@ implies c == payment_context by {
                    lemma_context_bytes_injective(c, payment_context);
                }
            }
            settle_gas_cost(paymaster, mode, &payment_context, actual_gas_cost)
        },
    }
}

/// Replaces the sponsorship policy (owner only).
pub fn update_config(paymaster: &mut Paymaster, caller: &Pubkey, new_config: PaymasterConfig) -> (r: Result<
    (),
    PaymasterError,
>)
    requires
        old(paymaster).wf(),
    ensures
        final(paymaster).wf(),
        caller@ != old(paymaster).owner@ ==> r == Err::<(), PaymasterError>(PaymasterError::NotOwner)
            && *final(paymaster) == *old(paymaster),
        caller@ == old(paymaster).owner@ ==> r is Ok && *final(paymaster) == (Paymaster {
            config: new_config,
            ..*old(paymaster)
        }),
{
    if *caller != paymaster.owner {
        return Err(PaymasterError::NotOwner);
    }
    paymaster.config = new_config;
    Ok(())
}

/// Activates or deactivates the paymaster (owner only).
pub fn set_active(paymaster: &mut Paymaster, caller: &Pubkey, is_active: bool) -> (r: Result<(), PaymasterError>)
    requires
        old(paymaster).wf(),
    ensures
        final(paymaster).wf(),
        caller@ != old(paymaster).owner@ ==> r == Err::<(), PaymasterError>(PaymasterError::NotOwner)
            && *final(paymaster) == *old(paymaster),
        caller@ == old(paymaster).owner@ ==> r is Ok && *final(paymaster) == (Paymaster {
            is_active,
            ..*old(paymaster)
        }),
{
    if *caller != paymaster.owner {
        return Err(PaymasterError::NotOwner);
    }
    paymaster.is_active = is_active;
    Ok(())
}

/// Authorizes the owner's withdrawal of `amount` of the token `token_mint`,
/// or of lamports when it is `None`, to the owner; moving the funds is left
/// to the caller.
pub fn withdraw(paymaster: &Paymaster, caller: &Pubkey, token_mint: Option<Pubkey>, amount: u64) -> (r: Result<
    Withdrawn,
    PaymasterError,
>)
    ensures
        caller@ != paymaster.owner@ ==> r == Err::<Withdrawn, PaymasterError>(PaymasterError::NotOwner),
        caller@ == paymaster.owner@ ==> r == Ok::<Withdrawn, PaymasterError>(
            Withdrawn { token_mint, amount, destination: *caller },
        ),
{
    if *caller != paymaster.owner {
        return Err(PaymasterError::NotOwner);
    }
    Ok(Withdrawn { token_mint, amount, destination: *caller })
}

} // verus!
