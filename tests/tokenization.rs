use assetsup::error::Error;
use assetsup::tokenization;
use assetsup::types::{Address, AssetType, AssetUpContract, TokenMetadata};

fn metadata(name: &str, description: &str, asset_type: AssetType) -> TokenMetadata {
    TokenMetadata {
        name: name.to_string(),
        description: description.to_string(),
        asset_type,
        ipfs_uri: None,
        legal_docs_hash: None,
        valuation_report_hash: None,
        accredited_investor_required: false,
        geographic_restrictions: Vec::new(),
    }
}

fn tokenize_tst(c: &mut AssetUpContract, tokenizer: Address) {
    tokenization::tokenize_asset(
        c,
        1,
        "TST".to_string(),
        1000000,
        6,
        100,
        tokenizer,
        metadata("Test Token", "A test tokenized asset", AssetType::Physical),
        0,
    )
    .unwrap();
}

fn setup_tokenized(c: &mut AssetUpContract, asset_id: u64, tokenizer: Address, now: u64) {
    tokenization::tokenize_asset(
        c,
        asset_id,
        "TOKEN".to_string(),
        1000,
        2,
        100,
        tokenizer,
        metadata("Lock Test Asset", "Test", AssetType::Digital),
        now,
    )
    .unwrap();
}

#[test]
fn test_tokenize_asset_success() {
    let mut c = AssetUpContract::new();
    let user1 = Address::new(2);
    let result = tokenization::tokenize_asset(
        &mut c,
        1,
        "TST".to_string(),
        1000000,
        6,
        100,
        user1,
        metadata("Test Token", "A test tokenized asset", AssetType::Physical),
        0,
    )
    .unwrap();
    assert_eq!(result.asset_id, 1);
    assert_eq!(result.total_supply, 1000000);
    assert_eq!(result.tokenizer, user1);
    assert_eq!(result.tokens_in_circulation, 1000000);
}

#[test]
#[should_panic]
fn test_tokenize_asset_already_tokenized() {
    let mut c = AssetUpContract::new();
    let user1 = Address::new(2);
    tokenize_tst(&mut c, user1);
    tokenization::tokenize_asset(
        &mut c,
        1,
        "TST2".to_string(),
        500000,
        6,
        100,
        user1,
        metadata("Test Token 2", "Another test", AssetType::Physical),
        0,
    )
    .unwrap();
}

#[test]
#[should_panic]
fn tokenization_test_tokenize_asset_invalid_supply() {
    let mut c = AssetUpContract::new();
    let user1 = Address::new(2);
    tokenization::tokenize_asset(
        &mut c,
        1,
        "TST".to_string(),
        0,
        6,
        100,
        user1,
        metadata("Test Token", "A test tokenized asset", AssetType::Physical),
        0,
    )
    .unwrap();
}

#[test]
fn test_mint_tokens_success() {
    let mut c = AssetUpContract::new();
    let user1 = Address::new(2);
    tokenize_tst(&mut c, user1);
    let result = tokenization::mint_tokens(&mut c, 1, 500000, user1).unwrap();
    assert_eq!(result.total_supply, 1500000);
    assert_eq!(result.tokens_in_circulation, 1500000);
}

#[test]
#[should_panic]
fn test_mint_tokens_unauthorized() {
    let mut c = AssetUpContract::new();
    let (user1, user2) = (Address::new(2), Address::new(3));
    tokenize_tst(&mut c, user1);
    tokenization::mint_tokens(&mut c, 1, 500000, user2).unwrap();
}

#[test]
#[should_panic]
fn test_mint_tokens_not_tokenized() {
    let mut c = AssetUpContract::new();
    let user1 = Address::new(2);
    tokenization::mint_tokens(&mut c, 999, 500000, user1).unwrap();
}

#[test]
fn test_burn_tokens_success() {
    let mut c = AssetUpContract::new();
    let user1 = Address::new(2);
    tokenize_tst(&mut c, user1);
    let result = tokenization::burn_tokens(&mut c, 1, 200000, user1).unwrap();
    assert_eq!(result.total_supply, 800000);
    assert_eq!(result.tokens_in_circulation, 800000);
}

#[test]
#[should_panic]
fn test_burn_tokens_insufficient_balance() {
    let mut c = AssetUpContract::new();
    let user1 = Address::new(2);
    tokenize_tst(&mut c, user1);
    tokenization::burn_tokens(&mut c, 1, 2000000, user1).unwrap();
}

#[test]
fn test_transfer_tokens_success() {
    let mut c = AssetUpContract::new();
    let (user1, user2) = (Address::new(2), Address::new(3));
    tokenize_tst(&mut c, user1);
    tokenization::transfer_tokens(&mut c, 1, user1, user2, 300000, 0).unwrap();
    let balance1 = tokenization::get_token_balance(&c, 1, user1).unwrap();
    let balance2 = tokenization::get_token_balance(&c, 1, user2).unwrap();
    assert_eq!(balance1, 700000);
    assert_eq!(balance2, 300000);
}

#[test]
#[should_panic]
fn test_transfer_tokens_insufficient_balance() {
    let mut c = AssetUpContract::new();
    let (user1, user2) = (Address::new(2), Address::new(3));
    tokenize_tst(&mut c, user1);
    tokenization::transfer_tokens(&mut c, 1, user1, user2, 2000000, 0).unwrap();
}

#[test]
#[should_panic]
fn test_transfer_tokens_locked() {
    let mut c = AssetUpContract::new();
    let (user1, user2) = (Address::new(2), Address::new(3));
    tokenize_tst(&mut c, user1);
    let now = 0;
    let future_time = now + 1000;
    tokenization::lock_tokens(&mut c, 1, user1, future_time, user1).unwrap();
    tokenization::transfer_tokens(&mut c, 1, user1, user2, 100000, now).unwrap();
}

#[test]
fn test_lock_unlock_tokens() {
    let mut c = AssetUpContract::new();
    let user1 = Address::new(2);
    tokenize_tst(&mut c, user1);
    let now = 0;
    assert!(!tokenization::is_tokens_locked(&c, 1, user1, now));
    let future_time = now + 1000;
    tokenization::lock_tokens(&mut c, 1, user1, future_time, user1).unwrap();
    assert!(tokenization::is_tokens_locked(&c, 1, user1, now));
    tokenization::unlock_tokens(&mut c, 1, user1).unwrap();
    assert!(!tokenization::is_tokens_locked(&c, 1, user1, now));
}

#[test]
#[should_panic]
fn tokenization_test_lock_tokens_unauthorized() {
    let mut c = AssetUpContract::new();
    let (user1, user2) = (Address::new(2), Address::new(3));
    tokenize_tst(&mut c, user1);
    let future_time = 1000;
    tokenization::lock_tokens(&mut c, 1, user1, future_time, user2).unwrap();
}

#[test]
fn test_get_ownership_percentage() {
    let mut c = AssetUpContract::new();
    let (user1, user2) = (Address::new(2), Address::new(3));
    tokenize_tst(&mut c, user1);
    tokenization::transfer_tokens(&mut c, 1, user1, user2, 300000, 0).unwrap();
    let percentage1 = tokenization::calculate_ownership_percentage(&c, 1, user1).unwrap();
    let percentage2 = tokenization::calculate_ownership_percentage(&c, 1, user2).unwrap();
    assert_eq!(percentage1, 7000);
    assert_eq!(percentage2, 3000);
}

#[test]
fn test_get_token_holders() {
    let mut c = AssetUpContract::new();
    let (user1, user2, user3) = (Address::new(2), Address::new(3), Address::new(4));
    tokenize_tst(&mut c, user1);
    let holders = tokenization::get_token_holders(&c, 1).unwrap();
    assert_eq!(holders.len(), 1);
    tokenization::transfer_tokens(&mut c, 1, user1, user2, 300000, 0).unwrap();
    tokenization::transfer_tokens(&mut c, 1, user1, user3, 200000, 0).unwrap();
    let holders = tokenization::get_token_holders(&c, 1).unwrap();
    assert_eq!(holders.len(), 3);
    assert_eq!(holders, vec![user1, user2, user3]);
}

#[test]
fn test_update_valuation() {
    let mut c = AssetUpContract::new();
    let user1 = Address::new(2);
    tokenize_tst(&mut c, user1);
    tokenization::update_valuation(&mut c, 1, 2000000).unwrap();
    let asset = tokenization::get_tokenized_asset(&c, 1).unwrap();
    assert_eq!(asset.valuation, 2000000);
}

#[test]
#[should_panic]
fn test_update_valuation_invalid() {
    let mut c = AssetUpContract::new();
    let user1 = Address::new(2);
    tokenize_tst(&mut c, user1);
    tokenization::update_valuation(&mut c, 1, 0).unwrap();
}

#[test]
fn test_tokenize_asset() {
    let mut c = AssetUpContract::new();
    let tokenizer = Address::new(1);
    let asset_id = 100;
    let symbol = "ASSET100".to_string();
    let total_supply = 1000_i128;
    let decimals = 2u32;
    let min_voting_threshold = 100_i128;
    let tokenized_asset = tokenization::tokenize_asset(
        &mut c,
        asset_id,
        symbol.clone(),
        total_supply,
        decimals,
        min_voting_threshold,
        tokenizer,
        metadata("Test Asset", "Testing tokenization", AssetType::Digital),
        0,
    )
    .unwrap();
    assert_eq!(tokenized_asset.asset_id, asset_id);
    assert_eq!(tokenized_asset.symbol, symbol);
    assert_eq!(tokenized_asset.total_supply, total_supply);
    assert_eq!(tokenized_asset.decimals, decimals);
    assert_eq!(tokenized_asset.tokenizer, tokenizer);
    assert_eq!(tokenized_asset.token_holders_count, 1);
}

#[test]
fn tokenization_new_test_tokenize_asset_invalid_supply() {
    let mut c = AssetUpContract::new();
    let tokenizer = Address::new(1);
    let result = tokenization::tokenize_asset(
        &mut c,
        100,
        "ASSET100".to_string(),
        0,
        2,
        100,
        tokenizer,
        metadata("Test", "Test", AssetType::Digital),
        0,
    );
    assert!(result.is_err());
    assert_eq!(result.unwrap_err(), Error::InvalidTokenSupply);
}

#[test]
fn test_mint_tokens() {
    let mut c = AssetUpContract::new();
    let tokenizer = Address::new(1);
    let asset_id = 200;
    let initial_supply = 500_i128;
    let mint_amount = 200_i128;
    tokenization::tokenize_asset(
        &mut c,
        asset_id,
        "AST200".to_string(),
        initial_supply,
        2,
        100,
        tokenizer,
        metadata("Mint Test", "Test", AssetType::Digital),
        0,
    )
    .unwrap();
    let updated = tokenization::mint_tokens(&mut c, asset_id, mint_amount, tokenizer).unwrap();
    let balance = tokenization::get_token_balance(&c, asset_id, tokenizer).unwrap();
    assert_eq!(updated.total_supply, initial_supply + mint_amount);
    assert_eq!(balance, initial_supply + mint_amount);
}

#[test]
fn test_burn_tokens() {
    let mut c = AssetUpContract::new();
    let tokenizer = Address::new(1);
    let asset_id = 300;
    let burn_amount = 400_i128;
    tokenization::tokenize_asset(
        &mut c,
        asset_id,
        "AST300".to_string(),
        1000,
        2,
        100,
        tokenizer,
        metadata("Burn Test", "Test", AssetType::Digital),
        0,
    )
    .unwrap();
    let updated = tokenization::burn_tokens(&mut c, asset_id, burn_amount, tokenizer).unwrap();
    assert_eq!(updated.total_supply, 1000_i128 - burn_amount);
}

#[test]
fn test_transfer_tokens() {
    let mut c = AssetUpContract::new();
    let (tokenizer, recipient) = (Address::new(1), Address::new(2));
    let asset_id = 400;
    let transfer_amount = 300_i128;
    tokenization::tokenize_asset(
        &mut c,
        asset_id,
        "AST400".to_string(),
        1000,
        2,
        100,
        tokenizer,
        metadata("Transfer Test", "Test", AssetType::Digital),
        0,
    )
    .unwrap();
    tokenization::transfer_tokens(&mut c, asset_id, tokenizer, recipient, transfer_amount, 0)
        .unwrap();
    let tb = tokenization::get_token_balance(&c, asset_id, tokenizer).unwrap();
    let rb = tokenization::get_token_balance(&c, asset_id, recipient).unwrap();
    assert_eq!(tb, 1000_i128 - transfer_amount);
    assert_eq!(rb, transfer_amount);
}

#[test]
fn test_lock_tokens() {
    let mut c = AssetUpContract::new();
    let (tokenizer, recipient) = (Address::new(1), Address::new(2));
    let asset_id = 500;
    setup_tokenized(&mut c, asset_id, tokenizer, 1000);
    tokenization::lock_tokens(&mut c, asset_id, tokenizer, 5000, tokenizer).unwrap();
    let result = tokenization::transfer_tokens(&mut c, asset_id, tokenizer, recipient, 100, 1000);
    assert!(result.is_err());
    let result = tokenization::transfer_tokens(&mut c, asset_id, tokenizer, recipient, 100, 6000);
    assert!(result.is_ok());
}

#[test]
fn test_ownership_percentage() {
    let mut c = AssetUpContract::new();
    let tokenizer = Address::new(1);
    let asset_id = 600;
    setup_tokenized(&mut c, asset_id, tokenizer, 0);
    let percentage = tokenization::calculate_ownership_percentage(&c, asset_id, tokenizer).unwrap();
    assert_eq!(percentage, 10000_i128);
}

#[test]
fn test_is_tokens_locked_when_active() {
    let mut c = AssetUpContract::new();
    let tokenizer = Address::new(1);
    let asset_id = 700;
    setup_tokenized(&mut c, asset_id, tokenizer, 1000);
    tokenization::lock_tokens(&mut c, asset_id, tokenizer, 5000, tokenizer).unwrap();
    assert!(tokenization::is_tokens_locked(&c, asset_id, tokenizer, 1000));
}

#[test]
fn test_is_tokens_locked_after_expiry() {
    let mut c = AssetUpContract::new();
    let (tokenizer, recipient) = (Address::new(1), Address::new(2));
    let asset_id = 800;
    setup_tokenized(&mut c, asset_id, tokenizer, 1000);
    tokenization::lock_tokens(&mut c, asset_id, tokenizer, 2000, tokenizer).unwrap();
    assert!(!tokenization::is_tokens_locked(&c, asset_id, tokenizer, 3000));
    let result = tokenization::transfer_tokens(&mut c, asset_id, tokenizer, recipient, 100, 3000);
    assert!(result.is_ok());
}

#[test]
fn test_unlock_tokens_clears_lock_regardless_of_timestamp() {
    let mut c = AssetUpContract::new();
    let (tokenizer, recipient) = (Address::new(1), Address::new(2));
    let asset_id = 900;
    setup_tokenized(&mut c, asset_id, tokenizer, 1000);
    tokenization::lock_tokens(&mut c, asset_id, tokenizer, 99999, tokenizer).unwrap();
    assert!(tokenization::is_tokens_locked(&c, asset_id, tokenizer, 1000));
    tokenization::unlock_tokens(&mut c, asset_id, tokenizer).unwrap();
    assert!(!tokenization::is_tokens_locked(&c, asset_id, tokenizer, 1000));
    let result = tokenization::transfer_tokens(&mut c, asset_id, tokenizer, recipient, 100, 1000);
    assert!(result.is_ok());
}

#[test]
fn test_is_tokens_locked_no_lock_returns_false() {
    let mut c = AssetUpContract::new();
    let tokenizer = Address::new(1);
    let asset_id = 1000;
    setup_tokenized(&mut c, asset_id, tokenizer, 1000);
    assert!(!tokenization::is_tokens_locked(&c, asset_id, tokenizer, 1000));
}

#[test]
fn tokenization_new_test_lock_tokens_unauthorized() {
    let mut c = AssetUpContract::new();
    let (tokenizer, intruder) = (Address::new(1), Address::new(9));
    let asset_id = 1100;
    setup_tokenized(&mut c, asset_id, tokenizer, 1000);
    let r = tokenization::lock_tokens(&mut c, asset_id, tokenizer, 5000, intruder);
    let still_unlocked = !tokenization::is_tokens_locked(&c, asset_id, tokenizer, 1000);
    assert!(r.is_err());
    assert_eq!(r, Err(Error::Unauthorized));
    assert!(still_unlocked);
}

#[test]
fn holder_count_tracks_positive_balances() {
    let mut c = AssetUpContract::new();
    let (a, b) = (Address::new(1), Address::new(2));
    setup_tokenized(&mut c, 5, a, 0);
    tokenization::transfer_tokens(&mut c, 5, a, b, 400, 0).unwrap();
    assert_eq!(tokenization::get_tokenized_asset(&c, 5).unwrap().token_holders_count, 2);
    tokenization::transfer_tokens(&mut c, 5, b, a, 400, 0).unwrap();
    let asset = tokenization::get_tokenized_asset(&c, 5).unwrap();
    assert_eq!(asset.token_holders_count, 1);
    assert_eq!(tokenization::get_token_holders(&c, 5).unwrap(), vec![a, b]);
    assert_eq!(tokenization::get_token_balance(&c, 5, b).unwrap(), 0);
}

#[test]
fn transfer_errors_come_in_order() {
    let mut c = AssetUpContract::new();
    let (a, b) = (Address::new(1), Address::new(2));
    assert_eq!(
        tokenization::transfer_tokens(&mut c, 5, a, b, 1, 0),
        Err(Error::AssetNotTokenized)
    );
    setup_tokenized(&mut c, 5, a, 0);
    assert_eq!(
        tokenization::transfer_tokens(&mut c, 5, a, b, 0, 0),
        Err(Error::InvalidTokenSupply)
    );
    assert_eq!(
        tokenization::transfer_tokens(&mut c, 5, b, a, 1, 0),
        Err(Error::InsufficientBalance)
    );
    tokenization::lock_tokens(&mut c, 5, a, 10, a).unwrap();
    assert_eq!(
        tokenization::transfer_tokens(&mut c, 5, a, b, 1, 9),
        Err(Error::TokensAreLocked)
    );
    assert!(tokenization::transfer_tokens(&mut c, 5, a, b, 1, 10).is_ok());
}

#[test]
fn ownership_percentage_truncates() {
    let mut c = AssetUpContract::new();
    let (a, b) = (Address::new(1), Address::new(2));
    setup_tokenized(&mut c, 5, a, 0);
    tokenization::transfer_tokens(&mut c, 5, a, b, 333, 0).unwrap();
    assert_eq!(tokenization::calculate_ownership_percentage(&c, 5, b), Ok(3330));
    assert_eq!(tokenization::calculate_ownership_percentage(&c, 5, Address::new(7)), Ok(0));
    assert_eq!(
        tokenization::calculate_ownership_percentage(&c, 6, a),
        Err(Error::AssetNotTokenized)
    );
}

#[test]
fn burn_to_zero_then_percentage_is_zero() {
    let mut c = AssetUpContract::new();
    let a = Address::new(1);
    setup_tokenized(&mut c, 5, a, 0);
    let asset = tokenization::burn_tokens(&mut c, 5, 1000, a).unwrap();
    assert_eq!(asset.total_supply, 0);
    assert_eq!(asset.token_holders_count, 0);
    assert_eq!(tokenization::calculate_ownership_percentage(&c, 5, a), Ok(0));
}

#[test]
fn mint_overflow_is_reported() {
    let mut c = AssetUpContract::new();
    let a = Address::new(1);
    setup_tokenized(&mut c, 5, a, 0);
    assert_eq!(
        tokenization::mint_tokens(&mut c, 5, i128::MAX, a).map(|x| x.total_supply),
        Err(Error::ArithmeticOverflow)
    );
    assert_eq!(tokenization::get_tokenized_asset(&c, 5).unwrap().total_supply, 1000);
}
