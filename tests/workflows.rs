use assetsup::detokenization;
use assetsup::dividends;
use assetsup::error::Error;
use assetsup::subscription::SubscriptionService;
use assetsup::tokenization;
use assetsup::transfer_restrictions;
use assetsup::types::{
    Address, AssetType, AssetUpContract, PlanType, SubscriptionStatus, TokenMetadata,
    TransferRestriction,
};
use assetsup::valuation::{
    AssetDepreciationContract, DepreciationMethod, DepreciationSchedule, ValuationMethod,
};
use assetsup::voting;

fn metadata(name: &str, description: &str, asset_type: AssetType) -> TokenMetadata {
    TokenMetadata {
        name: name.to_string(),
        description: description.to_string(),
        asset_type,
        ipfs_uri: None,
        legal_docs_hash: None,
        valuation_report_hash: None,
        accredited_investor_required: false,
        geographic_restrictions: Vec::new(),
    }
}

fn tokenize(c: &mut AssetUpContract, asset_id: u64, symbol: &str, supply: i128, decimals: u32, min_vote: i128, owner: Address, name: &str, description: &str, asset_type: AssetType, now: u64) {
    tokenization::tokenize_asset(
        c,
        asset_id,
        symbol.to_string(),
        supply,
        decimals,
        min_vote,
        owner,
        metadata(name, description, asset_type),
        now,
    )
    .unwrap();
}

fn setup_restricted(c: &mut AssetUpContract, asset_id: u64, tokenizer: Address) {
    tokenize(c, asset_id, "RESTR", 1000, 2, 100, tokenizer, "Restriction Test", "Test", AssetType::Digital, 0);
}

#[test]
fn test_set_transfer_restriction() {
    let mut c = AssetUpContract::new();
    setup_restricted(&mut c, 900, Address::new(1));
    let restriction = TransferRestriction { require_accredited: true, geographic_allowed: Vec::new() };
    let set_ok = transfer_restrictions::set_transfer_restriction(&mut c, 900, restriction).is_ok();
    let has_restrictions = transfer_restrictions::has_transfer_restrictions(&c, 900).unwrap();
    assert!(set_ok);
    assert!(has_restrictions);
}

#[test]
fn test_whitelist_operations() {
    let mut c = AssetUpContract::new();
    let whitelisted = Address::new(2);
    setup_restricted(&mut c, 900, Address::new(1));
    transfer_restrictions::add_to_whitelist(&mut c, 900, whitelisted).unwrap();
    let is_wl_after_add = transfer_restrictions::is_whitelisted(&c, 900, whitelisted).unwrap();
    let list_len = transfer_restrictions::get_whitelist(&c, 900).unwrap().len();
    transfer_restrictions::remove_from_whitelist(&mut c, 900, whitelisted).unwrap();
    let is_wl_after_remove = transfer_restrictions::is_whitelisted(&c, 900, whitelisted).unwrap();
    assert!(is_wl_after_add);
    assert_eq!(list_len, 1);
    assert!(!is_wl_after_remove);
}

#[test]
fn test_whitelist_duplicate_prevention() {
    let mut c = AssetUpContract::new();
    let whitelisted = Address::new(2);
    setup_restricted(&mut c, 900, Address::new(1));
    transfer_restrictions::add_to_whitelist(&mut c, 900, whitelisted).unwrap();
    transfer_restrictions::add_to_whitelist(&mut c, 900, whitelisted).unwrap();
    let list_len = transfer_restrictions::get_whitelist(&c, 900).unwrap().len();
    assert_eq!(list_len, 1);
}

#[test]
fn test_validate_transfer_no_restrictions() {
    let mut c = AssetUpContract::new();
    let (tokenizer, recipient) = (Address::new(1), Address::new(2));
    setup_restricted(&mut c, 900, tokenizer);
    let valid = transfer_restrictions::validate_transfer(&c, 900, tokenizer, recipient).unwrap();
    assert!(valid);
}

#[test]
fn test_get_transfer_restriction() {
    let mut c = AssetUpContract::new();
    setup_restricted(&mut c, 900, Address::new(1));
    let before_err = transfer_restrictions::get_transfer_restriction(&c, 900).is_err();
    let new_restriction =
        TransferRestriction { require_accredited: true, geographic_allowed: Vec::new() };
    transfer_restrictions::set_transfer_restriction(&mut c, 900, new_restriction).unwrap();
    let after = transfer_restrictions::get_transfer_restriction(&c, 900).unwrap();
    assert!(before_err);
    assert!(after.require_accredited);
}

#[test]
fn whitelist_keeps_order_on_removal() {
    let mut c = AssetUpContract::new();
    let (a, b, d) = (Address::new(2), Address::new(3), Address::new(4));
    setup_restricted(&mut c, 900, Address::new(1));
    for x in [a, b, d] {
        transfer_restrictions::add_to_whitelist(&mut c, 900, x).unwrap();
    }
    transfer_restrictions::remove_from_whitelist(&mut c, 900, b).unwrap();
    assert_eq!(transfer_restrictions::get_whitelist(&c, 900).unwrap(), vec![a, d]);
    assert_eq!(transfer_restrictions::add_to_whitelist(&mut c, 901, a), Err(Error::AssetNotTokenized));
}

#[test]
fn restricted_transfer_needs_whitelisted_recipient() {
    let mut c = AssetUpContract::new();
    let (owner, listed, other) = (Address::new(1), Address::new(2), Address::new(3));
    setup_restricted(&mut c, 900, owner);
    let restriction = TransferRestriction { require_accredited: true, geographic_allowed: Vec::new() };
    transfer_restrictions::set_transfer_restriction(&mut c, 900, restriction).unwrap();
    transfer_restrictions::add_to_whitelist(&mut c, 900, listed).unwrap();
    assert_eq!(
        tokenization::transfer_tokens(&mut c, 900, owner, other, 10, 0),
        Err(Error::TransferNotPermitted)
    );
    assert_eq!(transfer_restrictions::validate_transfer(&c, 900, owner, other), Ok(false));
    assert!(tokenization::transfer_tokens(&mut c, 900, owner, listed, 10, 0).is_ok());
    let open = TransferRestriction { require_accredited: false, geographic_allowed: Vec::new() };
    transfer_restrictions::set_transfer_restriction(&mut c, 900, open).unwrap();
    assert!(tokenization::transfer_tokens(&mut c, 900, owner, other, 10, 0).is_ok());
}

#[test]
fn test_full_tokenization_workflow() {
    let mut c = AssetUpContract::new();
    let (tokenizer, holder2, holder3, proposer) =
        (Address::new(1), Address::new(2), Address::new(3), Address::new(4));
    let asset_id = 5000u64;
    let tokenized = tokenization::tokenize_asset(
        &mut c,
        asset_id,
        "FULL".to_string(),
        1000,
        2,
        100,
        tokenizer,
        metadata("Full Workflow", "Test", AssetType::Digital),
        0,
    )
    .unwrap();
    assert_eq!(tokenized.total_supply, 1000_i128);
    tokenization::transfer_tokens(&mut c, asset_id, tokenizer, holder2, 400, 0).unwrap();
    tokenization::transfer_tokens(&mut c, asset_id, tokenizer, holder3, 200, 0).unwrap();
    assert_eq!(tokenization::get_token_balance(&c, asset_id, tokenizer).unwrap(), 400_i128);
    assert_eq!(tokenization::get_token_balance(&c, asset_id, holder2).unwrap(), 400_i128);
    assert_eq!(tokenization::get_token_balance(&c, asset_id, holder3).unwrap(), 200_i128);
    let pct = |c: &AssetUpContract, h| tokenization::calculate_ownership_percentage(c, asset_id, h).unwrap();
    assert_eq!(pct(&c, tokenizer), 4000_i128);
    assert_eq!(pct(&c, holder2), 4000_i128);
    assert_eq!(pct(&c, holder3), 2000_i128);
    dividends::enable_revenue_sharing(&mut c, asset_id).unwrap();
    dividends::distribute_dividends(&mut c, asset_id, 1000).unwrap();
    assert_eq!(dividends::get_unclaimed_dividends(&c, asset_id, tokenizer).unwrap(), 400_i128);
    assert_eq!(dividends::get_unclaimed_dividends(&c, asset_id, holder2).unwrap(), 400_i128);
    assert_eq!(dividends::get_unclaimed_dividends(&c, asset_id, holder3).unwrap(), 200_i128);
    let claimed = dividends::claim_dividends(&mut c, asset_id, tokenizer).unwrap();
    assert_eq!(claimed, 400_i128);
    let proposal_id = detokenization::propose_detokenization(&mut c, asset_id, proposer, 0).unwrap();
    voting::cast_vote(&mut c, asset_id, proposal_id, tokenizer).unwrap();
    voting::cast_vote(&mut c, asset_id, proposal_id, holder2).unwrap();
    let tally = voting::get_vote_tally(&c, asset_id, proposal_id).unwrap();
    assert_eq!(tally, 800_i128);
    assert!(voting::proposal_passed(&c, asset_id, proposal_id).unwrap());
    let execute_result = detokenization::execute_detokenization(&mut c, asset_id, proposal_id, 0);
    assert!(execute_result.is_ok());
    assert_eq!(tokenization::get_tokenized_asset(&c, asset_id).err(), Some(Error::AssetNotTokenized));
}

#[test]
fn integration_test_multiple_dividend_distributions() {
    let mut c = AssetUpContract::new();
    let (tokenizer, holder2) = (Address::new(1), Address::new(2));
    let asset_id = 5001u64;
    tokenize(&mut c, asset_id, "MULTI", 1000, 2, 100, tokenizer, "Multi Dividend", "Test", AssetType::Digital, 0);
    tokenization::transfer_tokens(&mut c, asset_id, tokenizer, holder2, 500, 0).unwrap();
    dividends::enable_revenue_sharing(&mut c, asset_id).unwrap();
    dividends::distribute_dividends(&mut c, asset_id, 500).unwrap();
    dividends::distribute_dividends(&mut c, asset_id, 500).unwrap();
    let unclaimed = dividends::get_unclaimed_dividends(&c, asset_id, tokenizer).unwrap();
    let unclaimed2 = dividends::get_unclaimed_dividends(&c, asset_id, holder2).unwrap();
    assert_eq!(unclaimed, 500_i128);
    assert_eq!(unclaimed2, 500_i128);
}

#[test]
fn test_locked_tokens_with_voting() {
    let mut c = AssetUpContract::new();
    let (tokenizer, holder2) = (Address::new(1), Address::new(2));
    let asset_id = 5002u64;
    tokenize(&mut c, asset_id, "LOCKV", 1000, 2, 100, tokenizer, "Locked Voting", "Test", AssetType::Digital, 0);
    tokenization::transfer_tokens(&mut c, asset_id, tokenizer, holder2, 600, 0).unwrap();
    tokenization::lock_tokens(&mut c, asset_id, holder2, 5000, tokenizer).unwrap();
    let transfer_blocked =
        tokenization::transfer_tokens(&mut c, asset_id, holder2, tokenizer, 100, 0).is_err();
    let vote_ok = voting::cast_vote(&mut c, asset_id, 1, holder2).is_ok();
    assert!(transfer_blocked);
    assert!(vote_ok);
    tokenization::unlock_tokens(&mut c, asset_id, holder2).unwrap();
    let transfer_result = tokenization::transfer_tokens(&mut c, asset_id, holder2, tokenizer, 100, 6000);
    assert!(transfer_result.is_ok());
}

#[test]
fn test_full_asset_tokenization_workflow() {
    let mut c = AssetUpContract::new();
    let (owner, investor1, investor2) = (Address::new(2), Address::new(3), Address::new(4));
    let asset_id = 1u64;
    tokenize(&mut c, asset_id, "PROP", 1000000, 6, 1000, owner, "Property Token", "Tokenized real estate", AssetType::Physical, 0);
    tokenization::transfer_tokens(&mut c, asset_id, owner, investor1, 400000, 0).unwrap();
    tokenization::transfer_tokens(&mut c, asset_id, owner, investor2, 300000, 0).unwrap();
    assert_eq!(tokenization::get_token_balance(&c, asset_id, owner).unwrap(), 300000);
    assert_eq!(tokenization::get_token_balance(&c, asset_id, investor1).unwrap(), 400000);
    assert_eq!(tokenization::get_token_balance(&c, asset_id, investor2).unwrap(), 300000);
    dividends::enable_revenue_sharing(&mut c, asset_id).unwrap();
    dividends::distribute_dividends(&mut c, asset_id, 10000).unwrap();
    assert_eq!(dividends::get_unclaimed_dividends(&c, asset_id, owner).unwrap(), 3000);
    assert_eq!(dividends::get_unclaimed_dividends(&c, asset_id, investor1).unwrap(), 4000);
    assert_eq!(dividends::get_unclaimed_dividends(&c, asset_id, investor2).unwrap(), 3000);
    let claimed = dividends::claim_dividends(&mut c, asset_id, investor1).unwrap();
    assert_eq!(claimed, 4000);
    assert_eq!(dividends::get_unclaimed_dividends(&c, asset_id, investor1).unwrap(), 0);
}

#[test]
fn test_governance_and_detokenization_workflow() {
    let mut c = AssetUpContract::new();
    let (owner, investor1, investor2) = (Address::new(2), Address::new(3), Address::new(4));
    let asset_id = 1u64;
    tokenize(&mut c, asset_id, "GOV", 1000000, 6, 1000, owner, "Governance Token", "Token with voting", AssetType::Physical, 0);
    tokenization::transfer_tokens(&mut c, asset_id, owner, investor1, 600000, 0).unwrap();
    tokenization::transfer_tokens(&mut c, asset_id, owner, investor2, 200000, 0).unwrap();
    let proposal_id = detokenization::propose_detokenization(&mut c, asset_id, owner, 0).unwrap();
    voting::cast_vote(&mut c, asset_id, proposal_id, investor1).unwrap();
    assert!(voting::proposal_passed(&c, asset_id, proposal_id).unwrap());
    detokenization::execute_detokenization(&mut c, asset_id, proposal_id, 0).unwrap();
    assert!(!detokenization::is_detokenization_active(&c, asset_id).unwrap());
}

#[test]
fn test_transfer_restrictions_workflow() {
    let mut c = AssetUpContract::new();
    let (owner, investor1, investor2) = (Address::new(2), Address::new(3), Address::new(4));
    let asset_id = 1u64;
    tokenize(&mut c, asset_id, "REST", 1000000, 6, 1000, owner, "Restricted Token", "Token with restrictions", AssetType::Physical, 0);
    let restriction = TransferRestriction { require_accredited: true, geographic_allowed: Vec::new() };
    transfer_restrictions::set_transfer_restriction(&mut c, asset_id, restriction).unwrap();
    transfer_restrictions::add_to_whitelist(&mut c, asset_id, investor1).unwrap();
    tokenization::transfer_tokens(&mut c, asset_id, owner, investor1, 100000, 0).unwrap();
    assert_eq!(tokenization::get_token_balance(&c, asset_id, investor1).unwrap(), 100000);
    assert!(transfer_restrictions::is_whitelisted(&c, asset_id, investor1).unwrap());
    assert!(!transfer_restrictions::is_whitelisted(&c, asset_id, investor2).unwrap());
}

#[test]
fn test_token_locking_workflow() {
    let mut c = AssetUpContract::new();
    let (owner, investor) = (Address::new(2), Address::new(3));
    let asset_id = 1u64;
    let now = 0;
    tokenize(&mut c, asset_id, "LOCK", 1000000, 6, 1000, owner, "Lockable Token", "Token with locking", AssetType::Physical, now);
    tokenization::transfer_tokens(&mut c, asset_id, owner, investor, 500000, now).unwrap();
    let lock_until = now + 1000;
    tokenization::lock_tokens(&mut c, asset_id, investor, lock_until, owner).unwrap();
    assert!(tokenization::is_tokens_locked(&c, asset_id, investor, now));
    tokenization::unlock_tokens(&mut c, asset_id, investor).unwrap();
    assert!(!tokenization::is_tokens_locked(&c, asset_id, investor, now));
    tokenization::transfer_tokens(&mut c, asset_id, investor, owner, 100000, now).unwrap();
}

#[test]
fn example_scenario_from_tokenization_to_detokenization() {
    let mut c = AssetUpContract::new();
    let (tokenizer, b, cc, proposer) =
        (Address::new(1), Address::new(2), Address::new(3), Address::new(4));
    tokenize(&mut c, 1, "EX", 1000, 0, 1, tokenizer, "Example", "Scenario", AssetType::Physical, 0);
    tokenization::transfer_tokens(&mut c, 1, tokenizer, b, 400, 0).unwrap();
    tokenization::transfer_tokens(&mut c, 1, tokenizer, cc, 200, 0).unwrap();
    assert_eq!(tokenization::calculate_ownership_percentage(&c, 1, tokenizer), Ok(4000));
    assert_eq!(tokenization::calculate_ownership_percentage(&c, 1, b), Ok(4000));
    assert_eq!(tokenization::calculate_ownership_percentage(&c, 1, cc), Ok(2000));
    dividends::enable_revenue_sharing(&mut c, 1).unwrap();
    dividends::distribute_dividends(&mut c, 1, 1000).unwrap();
    assert_eq!(dividends::get_unclaimed_dividends(&c, 1, tokenizer), Ok(400));
    assert_eq!(dividends::get_unclaimed_dividends(&c, 1, b), Ok(400));
    assert_eq!(dividends::get_unclaimed_dividends(&c, 1, cc), Ok(200));
    let pid = detokenization::propose_detokenization(&mut c, 1, proposer, 0).unwrap();
    voting::cast_vote(&mut c, 1, pid, b).unwrap();
    voting::cast_vote(&mut c, 1, pid, tokenizer).unwrap();
    assert_eq!(voting::get_vote_tally(&c, 1, pid), Ok(800));
    assert_eq!(voting::proposal_passed(&c, 1, pid), Ok(true));
    assert!(tokenization::get_token_holders(&c, 1).is_ok());
    detokenization::execute_detokenization(&mut c, 1, pid, 0).unwrap();
    assert!(tokenization::get_tokenized_asset(&c, 1).is_err());
    assert_eq!(tokenization::get_token_holders(&c, 1), Err(Error::AssetNotTokenized));
    assert!(transfer_restrictions::get_whitelist(&c, 1).unwrap().is_empty());
}

#[test]
fn lock_scenario_expires_without_unlock() {
    let mut c = AssetUpContract::new();
    let (holder, other) = (Address::new(1), Address::new(2));
    tokenize(&mut c, 1, "LK", 1000, 0, 1, holder, "Lock", "Scenario", AssetType::Digital, 1000);
    tokenization::lock_tokens(&mut c, 1, holder, 5000, holder).unwrap();
    assert_eq!(
        tokenization::transfer_tokens(&mut c, 1, holder, other, 10, 1000),
        Err(Error::TokensAreLocked)
    );
    assert!(voting::cast_vote(&mut c, 1, 1, holder).is_ok());
    assert!(tokenization::is_tokens_locked(&c, 1, holder, 5000 - 1));
    assert!(!tokenization::is_tokens_locked(&c, 1, holder, 5001));
    assert!(tokenization::transfer_tokens(&mut c, 1, holder, other, 10, 5001).is_ok());
}

#[test]
fn plan_prices() {
    assert_eq!(PlanType::Basic.get_price_7_decimal(), 100000000);
    assert_eq!(PlanType::Pro.get_price_7_decimal(), 20000000);
    assert_eq!(PlanType::Enterprise.get_price_7_decimal(), 500000000);
}

#[test]
fn subscription_lifecycle() {
    let mut service = SubscriptionService::new();
    let (user, token) = (Address::new(1), Address::new(2));
    let sub = service.create_subscription(1, user, PlanType::Basic, token, 30, 100).unwrap();
    assert_eq!(sub.status, SubscriptionStatus::Active);
    assert_eq!(sub.start_date, 100);
    assert_eq!(sub.end_date, 100 + 518400);
    assert_eq!(
        service.create_subscription(1, user, PlanType::Pro, token, 30, 100),
        Err(Error::SubscriptionAlreadyExists)
    );
    let cancelled = service.cancel_subscription(1, 200).unwrap();
    assert_eq!(cancelled.status, SubscriptionStatus::Cancelled);
    assert_eq!(service.cancel_subscription(1, 201), Err(Error::SubscriptionNotActive));
    assert_eq!(service.get_subscription(2), Err(Error::SubscriptionNotFound));
    let long = service.create_subscription(3, user, PlanType::Pro, token, u32::MAX, 5).unwrap();
    assert_eq!(long.end_date, u32::MAX);
}

fn schedule(method: DepreciationMethod) -> DepreciationSchedule {
    DepreciationSchedule {
        asset_id: 1,
        purchase_date: 0,
        purchase_price: 12000,
        salvage_value: 2000,
        useful_life_months: 10,
        method,
        rate: 10,
        accumulated: 0,
        book_value: 12000,
        last_calc: 0,
        next_calc: 0,
        auto_calc: false,
    }
}

#[test]
fn straight_line_depreciation() {
    let mut d = AssetDepreciationContract::new();
    d.set_schedule(schedule(DepreciationMethod::StraightLine)).unwrap();
    assert_eq!(d.calculate_depreciation(1, 30, 31), Ok(1000));
    assert_eq!(d.get_book_value(1), Ok(11000));
    let history = d.get_depreciation_history(1);
    assert_eq!(history.len(), 1);
    assert_eq!(history[0].opening_value, 12000);
    assert_eq!(history[0].closing_value, 11000);
    assert_eq!(history[0].accumulated, 1000);
    assert_eq!(history[0].entry_id, 1);
}

#[test]
fn declining_and_capped_depreciation() {
    let mut d = AssetDepreciationContract::new();
    d.set_schedule(schedule(DepreciationMethod::DecliningBalance)).unwrap();
    assert_eq!(d.calculate_depreciation(1, 1, 1), Ok(1200));
    let mut s = schedule(DepreciationMethod::DoubleDecliningBalance);
    s.book_value = 2100;
    d.set_schedule(s).unwrap();
    assert_eq!(d.calculate_depreciation(1, 2, 2), Ok(100));
    assert_eq!(d.calculate_depreciation(1, 3, 3), Ok(0));
    assert_eq!(d.get_book_value(1), Ok(2000));
    assert_eq!(d.get_depreciation_history(1).len(), 2);
}

#[test]
fn invalid_schedules_and_valuations() {
    let mut d = AssetDepreciationContract::new();
    let mut s = schedule(DepreciationMethod::StraightLine);
    s.salvage_value = 12000;
    assert_eq!(d.set_schedule(s), Err(Error::InvalidPurchaseValue));
    assert_eq!(d.calculate_depreciation(1, 0, 0), Err(Error::AssetNotFound));
    d.set_schedule(schedule(DepreciationMethod::StraightLine)).unwrap();
    let v = d.record_valuation(1, 15000, ValuationMethod::Market, 90, Address::new(5), vec![1, 2], "ok".to_string(), 7);
    assert_eq!(v, Ok(1));
    let bad = d.record_valuation(1, 15000, ValuationMethod::Appraisal, 101, Address::new(5), Vec::new(), String::new(), 7);
    assert_eq!(bad, Err(Error::InvalidPurchaseValue));
    assert_eq!(d.get_valuations(1)[0].delta, 3000);
    assert_eq!(d.get_valuations(1)[0].valuation_id, 1);
    assert!(d.get_valuations(2).is_empty());
}

#[test]
fn test_subscription_cancellation() {
    let mut service = SubscriptionService::new();
    let (subscriber, token) = (Address::new(1), Address::new(2));
    let sub_id = 2;
    let plan = PlanType::Pro;
    let amount = plan.get_price_7_decimal();
    assert_eq!(amount, 20000000);
    service.create_subscription(sub_id, subscriber, plan, token, 30, 100).unwrap();
    let cancelled_sub = service.cancel_subscription(sub_id, 200).unwrap();
    assert_eq!(cancelled_sub.status, SubscriptionStatus::Cancelled);
    assert_eq!(cancelled_sub.end_date, 200);
    let result = service.cancel_subscription(sub_id, 200);
    assert_eq!(result.unwrap_err(), Error::SubscriptionNotActive);
}

#[test]
fn test_get_subscription_not_found() {
    let service = SubscriptionService::new();
    let sub_id = 3;
    let result = service.get_subscription(sub_id);
    assert_eq!(result.unwrap_err(), Error::SubscriptionNotFound);
}

#[test]
fn declining_balance_overflow_is_exact() {
    let mut d = AssetDepreciationContract::new();
    let mut s = schedule(DepreciationMethod::DecliningBalance);
    s.rate = 2;
    s.purchase_price = i128::MAX / 2 + 1;
    s.book_value = i128::MAX / 2 + 1;
    d.set_schedule(s).unwrap();
    assert_eq!(d.calculate_depreciation(1, 1, 1), Err(Error::ArithmeticOverflow));
    s.purchase_price = i128::MAX / 2;
    s.book_value = i128::MAX / 2;
    d.set_schedule(s).unwrap();
    assert_eq!(d.calculate_depreciation(1, 1, 1), Ok(i128::MAX / 2 * 2 / 100));
}
