//! The factory at work on a host with token contracts.

use soroban_sdk::testutils::storage::Instance as _;
use soroban_sdk::testutils::{Address as _, ContractFunctionSet, EnvTestConfig};
use soroban_sdk::token::{StellarAssetClient, TokenClient};
use soroban_sdk::{Address, BytesN, Env, Val};

use token_factory::action::Action;
use token_factory::creation::Creation;
use token_factory::error::Error;
use token_factory::factory::{Factory, TtlExtension, MAX_TTL, MIN_TTL};
use token_factory::fees::{charge, compute_share};
use token_factory::setup::{batch_param, batch_vec, seed_token, seed_token_with_burn, Setup};
use token_factory::split::{make_split, FeeSplit};
use token_factory::state::FactoryState;
use token_factory::token::{BatchTokenParams, TokenInfo};
use token_factory::token_list::TokenList;

// ── helpers ───────────────────────────────────────────────────────────────────

/// The host gave up on a call, after the factory had granted it.
#[derive(Debug, PartialEq)]
struct HostFailure;

/// The answer to a call: the factory's error, or a failure of the host.
type Answer<T> = Result<T, Result<Error, HostFailure>>;

/// A contract without functions; the factory's calls are made in its name.
struct Blank;

impl ContractFunctionSet for Blank {
    fn call(&self, _func: &str, _env: Env, _args: &[Val]) -> Option<Val> {
        None
    }
}

/// A host, a factory on it, and the addresses that the factory's numbers stand for.
struct World {
    env: Env,
    contract: Address,
    known: Vec<Address>,
    setup: Setup,
}

fn new_env() -> Env {
    let env = Env::new_with_config(EnvTestConfig { capture_snapshot_at_drop: false });
    env.mock_all_auths_allowing_non_root_auth();
    env
}

impl World {
    fn new() -> Self {
        let env = new_env();
        let contract = env.register(Blank, ());
        let admin = Address::generate(&env);
        let treasury = Address::generate(&env);
        let fee_token = env.register_stellar_asset_contract_v2(admin.clone()).address();
        let setup = Setup::new(&env, 0, 1, 2);
        env.as_contract(&contract, || {
            env.storage().instance().extend_ttl(setup.ttl.threshold, setup.ttl.extend_to);
        });
        World { env, contract, known: vec![admin, treasury, fee_token], setup }
    }

    fn admin(&self) -> u64 {
        self.setup.admin
    }

    fn treasury(&self) -> u64 {
        self.setup.treasury
    }

    fn fee_token(&self) -> u64 {
        self.setup.fee_token
    }

    fn factory(&mut self) -> &mut Factory {
        &mut self.setup.factory
    }

    fn number(&mut self, address: Address) -> u64 {
        self.known.push(address);
        self.known.len() as u64 - 1
    }

    fn generate(&mut self) -> u64 {
        let address = Address::generate(&self.env);
        self.number(address)
    }

    fn address(&self, who: u64) -> &Address {
        &self.known[who as usize]
    }

    fn new_token(&mut self, issuer: u64) -> u64 {
        let issuer = self.address(issuer).clone();
        let address = self.env.register_stellar_asset_contract_v2(issuer).address();
        self.number(address)
    }

    fn seed(&mut self, creator: u64, burn_enabled: bool, max_supply: Option<i128>) -> u64 {
        let token = self.new_token(creator);
        seed_token(&mut self.setup, token, creator, burn_enabled, max_supply);
        token
    }

    fn seed_with_burn(&mut self, creator: u64, burn_enabled: bool) -> u64 {
        let token = self.new_token(creator);
        seed_token_with_burn(&mut self.setup, token, creator, burn_enabled);
        token
    }

    fn perform(&self, action: Action) {
        match action {
            Action::Transfer { token, from, to, amount } => TokenClient::new(&self.env, self.address(token)).transfer(
                self.address(from),
                self.address(to),
                &amount,
            ),
            Action::Mint { token, to, amount } => {
                StellarAssetClient::new(&self.env, self.address(token)).mint(self.address(to), &amount)
            }
            Action::Burn { token, from, amount } => {
                TokenClient::new(&self.env, self.address(token)).burn(self.address(from), &amount)
            }
        }
    }

    /// Carries out all calls, or none.
    fn perform_all(&self, actions: &[Action]) -> Answer<()> {
        self.env
            .try_as_contract::<(), soroban_sdk::Error>(&self.contract, || {
                for action in actions {
                    self.perform(*action);
                }
            })
            .map_err(|_| Err(HostFailure))
    }

    fn mint(&self, token: u64, to: u64, amount: i128) {
        self.perform(Action::Mint { token, to, amount });
    }

    fn fund(&self, recipient: u64, amount: i128) {
        self.perform(self.setup.fund(recipient, amount));
    }

    fn balance(&self, token: u64, who: u64) -> i128 {
        TokenClient::new(&self.env, self.address(token)).balance(self.address(who))
    }

    fn try_mint_tokens(&mut self, token: u64, admin: u64, to: u64, amount: i128, fee: i128) -> Answer<()> {
        let actions = self.factory().mint_tokens(token, admin, to, amount, fee).map_err(Ok)?;
        self.perform_all(&actions)
    }

    fn mint_tokens(&mut self, token: u64, admin: u64, to: u64, amount: i128, fee: i128) {
        self.try_mint_tokens(token, admin, to, amount, fee).unwrap();
    }

    fn try_set_metadata(&mut self, token: u64, admin: u64, uri: &str, fee: i128) -> Answer<()> {
        let actions = self.factory().set_metadata(token, admin, uri.to_string(), fee).map_err(Ok)?;
        self.perform_all(&actions)
    }

    fn set_metadata(&mut self, token: u64, admin: u64, uri: &str, fee: i128) {
        self.try_set_metadata(token, admin, uri, fee).unwrap();
    }

    fn try_burn(&mut self, token: u64, from: u64, amount: i128) -> Answer<()> {
        let balance = self.balance(token, from);
        let action = self.factory().burn(token, from, amount, balance).map_err(Ok)?;
        self.perform_all(&[action])
    }

    fn burn(&mut self, token: u64, from: u64, amount: i128) {
        self.try_burn(token, from, amount).unwrap();
    }

    /// Pays for an order and has its tokens deployed from their code.
    fn deploy(&mut self, creation: Creation) -> Answer<Vec<u32>> {
        let deployed = self.env.try_as_contract::<Vec<Address>, soroban_sdk::Error>(&self.contract, || {
            for action in creation.payments() {
                self.perform(*action);
            }
            let mut addresses = Vec::new();
            for token in creation.tokens() {
                let salt = BytesN::from_array(&self.env, &token.salt);
                let hash = BytesN::from_array(&self.env, &token.token_wasm_hash);
                addresses.push(self.env.deployer().with_current_contract(salt).deploy_v2(hash, ()));
            }
            addresses
        });
        let addresses = match deployed {
            Ok(addresses) => addresses,
            Err(_) => {
                self.factory().cancel_creation(creation);
                return Err(Err(HostFailure));
            }
        };
        let mut numbers = Vec::new();
        for address in addresses {
            numbers.push(self.number(address));
        }
        self.finish(creation, &numbers, 0)
    }

    /// Has the tokens of an order entered and their initial supply issued.
    fn finish(&mut self, creation: Creation, addresses: &Vec<u64>, now: u64) -> Answer<Vec<u32>> {
        let env = self.env.clone();
        let created = self.factory().finish_creation(&env, creation, addresses, now).map_err(Ok)?;
        self.perform_all(&created.issues)?;
        Ok(created.indices)
    }

    fn try_create_token(
        &mut self,
        creator: u64,
        salt: [u8; 32],
        hash: [u8; 32],
        name: &str,
        symbol: &str,
        decimals: u32,
        initial_supply: u128,
        fee: i128,
    ) -> Answer<Vec<u32>> {
        let creation = self
            .factory()
            .create_token(creator, salt, hash, name.to_string(), symbol.to_string(), decimals, initial_supply, fee)
            .map_err(Ok)?;
        self.deploy(creation)
    }

    fn try_create_tokens_batch(&mut self, creator: u64, tokens: Vec<BatchTokenParams>, fee: i128) -> Answer<Vec<u32>> {
        let creation = self.factory().create_tokens_batch(creator, tokens, fee).map_err(Ok)?;
        self.deploy(creation)
    }

    fn get_state(&self) -> FactoryState {
        self.setup.factory.get_state()
    }

    fn write_state(&mut self, change: impl Fn(&mut FactoryState)) {
        let mut state = self.get_state();
        change(&mut state);
        self.factory().state = Some(state);
    }

    fn split(&self, pairs: &[(u64, u32)]) -> FeeSplit {
        make_split(&self.env, pairs)
    }
}

// ── initialize ────────────────────────────────────────────────────────────────

#[test]
fn test_initialize() {
    let s = World::new();
    let state = s.get_state();
    assert_eq!(state.admin, s.admin());
    assert_eq!(state.treasury, s.treasury());
    assert_eq!(state.fee_token, s.fee_token());
    assert_eq!(state.base_fee, 1_000);
    assert_eq!(state.metadata_fee, 500);
    assert!(!state.paused);
    assert_eq!(state.token_count, 0);
}

#[test]
fn test_initialize_already_initialized() {
    let mut s = World::new();
    let (admin, treasury, fee_token) = (s.admin(), s.treasury(), s.fee_token());
    let result = s.factory().initialize(admin, treasury, fee_token, 1_000, 500);
    assert_eq!(result, Err(Error::AlreadyInitialized));
}

// ── fee distribution ──────────────────────────────────────────────────────────

#[test]
fn test_fee_distribution() {
    let mut s = World::new();
    let token_admin = s.generate();
    s.fund(token_admin, 1_000);

    let token_addr = s.seed_with_burn(token_admin, true);
    let recipient = s.generate();

    let treasury_before = s.balance(s.fee_token(), s.treasury());
    s.mint_tokens(token_addr, token_admin, recipient, 100, 1_000);
    let treasury_after = s.balance(s.fee_token(), s.treasury());

    assert_eq!(treasury_after - treasury_before, 1_000);
    assert_eq!(s.balance(s.fee_token(), token_admin), 0);
}

#[test]
fn test_fee_goes_to_treasury_when_no_split_set() {
    let mut s = World::new();
    let token_admin = s.generate();
    s.fund(token_admin, 1_000);

    let token_addr = s.seed_with_burn(token_admin, true);
    let recipient = s.generate();
    s.mint_tokens(token_addr, token_admin, recipient, 100, 1_000);

    assert_eq!(s.balance(s.fee_token(), s.treasury()), 1_000);
}

#[test]
fn test_set_metadata_fee_goes_to_treasury() {
    let mut s = World::new();
    let admin = s.generate();
    s.fund(admin, 500);

    let token_addr = s.seed_with_burn(admin, true);
    s.set_metadata(token_addr, admin, "ipfs://Qm123", 500);

    assert_eq!(s.balance(s.fee_token(), s.treasury()), 500);
}

// ── create_token (error paths only: deploying needs code) ─────────────────────

#[test]
fn test_create_token_insufficient_fee() {
    let mut s = World::new();
    let creator = s.generate();
    let result =
        s.try_create_token(creator, Setup::salt(0), Setup::dummy_hash(), "MyToken", "MTK", 7, 0_u128, 999);
    assert_eq!(result, Err(Ok(Error::InsufficientFee)));
}

#[test]
fn test_create_token_blocked_when_paused() {
    let mut s = World::new();
    let admin = s.admin();
    s.factory().pause(admin).unwrap();
    let creator = s.generate();
    let result = s.try_create_token(creator, Setup::salt(0), Setup::dummy_hash(), "T", "T", 7, 0_u128, 1_000);
    assert_eq!(result, Err(Ok(Error::ContractPaused)));
}

#[test]
fn test_create_token_invalid_decimals_too_high() {
    let mut s = World::new();
    let creator = s.generate();
    s.fund(creator, 1_000);
    let result =
        s.try_create_token(creator, Setup::salt(0), Setup::dummy_hash(), "MyToken", "MTK", 19, 0_u128, 1_000);
    assert_eq!(result, Err(Ok(Error::InvalidDecimals)));
}

#[test]
fn test_create_token_boundary_decimals_not_rejected() {
    let mut s = World::new();
    let creator = s.generate();
    s.fund(creator, 3_000);
    for (n, dec) in [(0u8, 0u32), (1, 7), (2, 18)] {
        let result = s.try_create_token(creator, Setup::salt(n), Setup::dummy_hash(), "T", "T", dec, 0_u128, 1_000);
        assert_ne!(result, Err(Ok(Error::InvalidDecimals)));
        // The factory grants the order; the host finds no code to deploy.
        assert_eq!(result, Err(Err(HostFailure)));
    }
}

#[test]
fn test_token_count_overflow_protection() {
    let mut s = World::new();
    s.write_state(|state| state.token_count = u32::MAX);
    let creator = s.generate();
    s.fund(creator, 10_000);
    let result = s.try_create_token(creator, Setup::salt(0), Setup::dummy_hash(), "T", "T", 7, 0_u128, 1_000);
    assert_eq!(result, Err(Ok(Error::ArithmeticOverflow)));
}

// ── set_metadata ──────────────────────────────────────────────────────────────

#[test]
fn test_set_metadata_insufficient_fee() {
    let mut s = World::new();
    let admin = s.generate();
    let token_addr = s.new_token(admin);
    let result = s.try_set_metadata(token_addr, admin, "ipfs://Qm123", 100);
    assert_eq!(result, Err(Ok(Error::InsufficientFee)));
}

#[test]
fn test_set_metadata_already_set() {
    let mut s = World::new();
    let admin = s.generate();
    s.fund(admin, 1_000);
    let token_addr = s.seed_with_burn(admin, true);
    s.set_metadata(token_addr, admin, "ipfs://Qm123", 500);
    let result = s.try_set_metadata(token_addr, admin, "ipfs://Qm456", 500);
    assert_eq!(result, Err(Ok(Error::MetadataAlreadySet)));
}

#[test]
fn test_set_metadata_unauthorized() {
    let mut s = World::new();
    let creator = s.generate();
    let unauthorized = s.generate();
    s.fund(unauthorized, 500);
    let token_addr = s.seed_with_burn(creator, true);
    let result = s.try_set_metadata(token_addr, unauthorized, "ipfs://Qm123", 500);
    assert_eq!(result, Err(Ok(Error::Unauthorized)));
}

#[test]
fn test_set_metadata_different_tokens_independent() {
    let mut s = World::new();
    let admin = s.generate();
    s.fund(admin, 1_000);
    let token_a = s.seed_with_burn(admin, true);
    let token_b = s.seed_with_burn(admin, true);
    s.set_metadata(token_a, admin, "ipfs://QmA", 500);
    s.set_metadata(token_b, admin, "ipfs://QmB", 500);
    assert_eq!(s.factory().tokens[&token_a].metadata.as_deref(), Some("ipfs://QmA"));
    assert_eq!(s.factory().tokens[&token_b].metadata.as_deref(), Some("ipfs://QmB"));
}

// ── mint_tokens ───────────────────────────────────────────────────────────────

#[test]
fn test_mint_tokens() {
    let mut s = World::new();
    let token_admin = s.generate();
    s.fund(token_admin, 1_000);
    let token_addr = s.seed_with_burn(token_admin, true);
    let recipient = s.generate();
    s.mint_tokens(token_addr, token_admin, recipient, 5_000, 1_000);
    assert_eq!(s.balance(token_addr, recipient), 5_000);
}

#[test]
fn test_mint_tokens_unauthorized() {
    let mut s = World::new();
    let creator = s.generate();
    let unauthorized = s.generate();
    s.fund(unauthorized, 1_000);
    let token_addr = s.seed_with_burn(creator, true);
    let recipient = s.generate();
    let result = s.try_mint_tokens(token_addr, unauthorized, recipient, 5_000, 1_000);
    assert_eq!(result, Err(Ok(Error::Unauthorized)));
}

#[test]
fn test_mint_with_zero_amount_fails() {
    let mut s = World::new();
    let admin = s.generate();
    s.fund(admin, 1_000);
    let token_addr = s.seed_with_burn(admin, true);
    let to = s.generate();
    assert_eq!(s.try_mint_tokens(token_addr, admin, to, 0, 1_000), Err(Ok(Error::InvalidParameters)));
}

#[test]
fn test_mint_with_negative_amount_fails() {
    let mut s = World::new();
    let admin = s.generate();
    s.fund(admin, 1_000);
    let token_addr = s.seed_with_burn(admin, true);
    let to = s.generate();
    assert_eq!(s.try_mint_tokens(token_addr, admin, to, -1, 1_000), Err(Ok(Error::InvalidParameters)));
}

// ── max supply cap ────────────────────────────────────────────────────────────

#[test]
fn test_mint_within_cap_succeeds() {
    let mut s = World::new();
    let admin = s.generate();
    s.fund(admin, 1_000);
    let token_addr = s.seed(admin, true, Some(1_000));
    let recipient = s.generate();
    s.mint_tokens(token_addr, admin, recipient, 1_000, 1_000);
    assert_eq!(s.balance(token_addr, recipient), 1_000);
}

#[test]
fn test_mint_exceeds_cap_returns_error() {
    let mut s = World::new();
    let admin = s.generate();
    s.fund(admin, 1_000);
    let token_addr = s.seed(admin, true, Some(500));
    let recipient = s.generate();
    assert_eq!(
        s.try_mint_tokens(token_addr, admin, recipient, 501, 1_000),
        Err(Ok(Error::MaxSupplyExceeded))
    );
}

#[test]
fn test_mint_uncapped_has_no_limit() {
    let mut s = World::new();
    let admin = s.generate();
    s.fund(admin, 1_000);
    let token_addr = s.seed(admin, true, None);
    let recipient = s.generate();
    s.mint_tokens(token_addr, admin, recipient, 1_000_000_000, 1_000);
    assert_eq!(s.balance(token_addr, recipient), 1_000_000_000);
}

#[test]
fn test_mint_exactly_at_cap_succeeds() {
    let mut s = World::new();
    let admin = s.generate();
    s.fund(admin, 2_000);
    let token_addr = s.seed(admin, true, Some(1_000));
    let recipient = s.generate();
    s.mint_tokens(token_addr, admin, recipient, 600, 1_000);
    s.mint_tokens(token_addr, admin, recipient, 400, 1_000);
    assert_eq!(s.balance(token_addr, recipient), 1_000);
}

#[test]
fn test_mint_one_over_cap_returns_error() {
    let mut s = World::new();
    let admin = s.generate();
    s.fund(admin, 2_000);
    let token_addr = s.seed(admin, true, Some(1_000));
    let recipient = s.generate();
    s.mint_tokens(token_addr, admin, recipient, 600, 1_000);
    assert_eq!(
        s.try_mint_tokens(token_addr, admin, recipient, 401, 1_000),
        Err(Ok(Error::MaxSupplyExceeded))
    );
}

// ── burn ──────────────────────────────────────────────────────────────────────

#[test]
fn test_burn() {
    let mut s = World::new();
    let creator = s.generate();
    let token_addr = s.seed_with_burn(creator, true);
    let burner = s.generate();
    s.mint(token_addr, burner, 1_000);
    s.burn(token_addr, burner, 400);
    assert_eq!(s.balance(token_addr, burner), 600);
}

#[test]
fn test_burn_disabled_returns_error() {
    let mut s = World::new();
    let creator = s.generate();
    let token_addr = s.seed_with_burn(creator, false);
    let burner = s.generate();
    s.mint(token_addr, burner, 100);
    assert_eq!(s.try_burn(token_addr, burner, 100), Err(Ok(Error::BurnNotEnabled)));
}

#[test]
fn test_burn_invalid_amount() {
    let mut s = World::new();
    let user = s.generate();
    let token_addr = s.new_token(user);
    assert_eq!(s.try_burn(token_addr, user, 0), Err(Ok(Error::InvalidBurnAmount)));
    assert_eq!(s.try_burn(token_addr, user, -100), Err(Ok(Error::InvalidBurnAmount)));
}

#[test]
fn test_burn_amount_exceeds_balance() {
    let mut s = World::new();
    let user = s.generate();
    let token_addr = s.new_token(user);
    s.mint(token_addr, user, 100);
    assert_eq!(s.try_burn(token_addr, user, 101), Err(Ok(Error::BurnAmountExceedsBalance)));
}

#[test]
fn test_burn_at_exact_balance() {
    let mut s = World::new();
    let creator = s.generate();
    let token_addr = s.seed_with_burn(creator, true);
    let user = s.generate();
    s.mint(token_addr, user, 100);
    s.burn(token_addr, user, 100);
    assert_eq!(s.balance(token_addr, user), 0);
}

#[test]
fn test_set_burn_enabled_disables_burn() {
    let mut s = World::new();
    let creator = s.generate();
    let token_addr = s.seed_with_burn(creator, true);
    s.factory().set_burn_enabled(token_addr, creator, false).unwrap();
    let burner = s.generate();
    s.mint(token_addr, burner, 100);
    assert_eq!(s.try_burn(token_addr, burner, 100), Err(Ok(Error::BurnNotEnabled)));
}

#[test]
fn test_set_burn_enabled_re_enables_burn() {
    let mut s = World::new();
    let creator = s.generate();
    let token_addr = s.seed_with_burn(creator, false);
    s.factory().set_burn_enabled(token_addr, creator, true).unwrap();
    let burner = s.generate();
    s.mint(token_addr, burner, 500);
    s.burn(token_addr, burner, 200);
    assert_eq!(s.balance(token_addr, burner), 300);
}

#[test]
fn test_set_burn_enabled_unauthorized() {
    let mut s = World::new();
    let creator = s.generate();
    let token_addr = s.seed_with_burn(creator, true);
    let stranger = s.generate();
    assert_eq!(s.factory().set_burn_enabled(token_addr, stranger, false), Err(Error::Unauthorized));
}

#[test]
fn test_set_burn_enabled_token_not_found() {
    let mut s = World::new();
    let fake = s.generate();
    let admin = s.generate();
    assert_eq!(s.factory().set_burn_enabled(fake, admin, false), Err(Error::TokenNotFound));
}

#[test]
fn test_burn_allowed_when_paused() {
    let mut s = World::new();
    let creator = s.generate();
    let token_addr = s.seed_with_burn(creator, true);
    let burner = s.generate();
    s.mint(token_addr, burner, 500);
    let admin = s.admin();
    s.factory().pause(admin).unwrap();
    s.burn(token_addr, burner, 200);
    assert_eq!(s.balance(token_addr, burner), 300);
}

// ── pause / unpause ───────────────────────────────────────────────────────────

#[test]
fn test_admin_can_pause_and_unpause() {
    let mut s = World::new();
    let admin = s.admin();
    s.factory().pause(admin).unwrap();
    assert!(s.get_state().paused);
    s.factory().unpause(admin).unwrap();
    assert!(!s.get_state().paused);
}

#[test]
fn test_non_admin_cannot_pause() {
    let mut s = World::new();
    let stranger = s.generate();
    assert_eq!(s.factory().pause(stranger), Err(Error::Unauthorized));
}

// ── update_fees ───────────────────────────────────────────────────────────────

#[test]
fn test_update_fees() {
    let mut s = World::new();
    let admin = s.admin();
    s.factory().update_fees(admin, Some(2_000_i128), Some(1_000_i128)).unwrap();
    let state = s.get_state();
    assert_eq!(state.base_fee, 2_000);
    assert_eq!(state.metadata_fee, 1_000);
}

#[test]
fn test_update_fees_unauthorized() {
    let mut s = World::new();
    let stranger = s.generate();
    assert_eq!(s.factory().update_fees(stranger, Some(2_000_i128), None), Err(Error::Unauthorized));
}

// ── get_token_info ────────────────────────────────────────────────────────────

#[test]
fn test_get_token_info() {
    let mut s = World::new();
    let creator = s.generate();
    let info = TokenInfo {
        name: "MyToken".to_string(),
        symbol: "MTK".to_string(),
        decimals: 7,
        creator,
        created_at: 0,
        burn_enabled: true,
        max_supply: None,
    };
    s.factory().infos.insert(1, info);
    let result = s.factory().get_token_info(1).unwrap();
    assert_eq!(result.name, "MyToken");
    assert_eq!(result.symbol, "MTK");
    assert_eq!(result.decimals, 7);
    assert_eq!(result.creator, creator);
}

#[test]
fn test_get_token_info_not_found() {
    let mut s = World::new();
    assert_eq!(s.factory().get_token_info(99).err(), Some(Error::TokenNotFound));
}

#[test]
fn test_get_tokens_by_creator() {
    let mut s = World::new();
    let creator = s.generate();
    let mut list = TokenList::new(&s.env);
    list.push_back(1u32);
    list.push_back(2u32);
    s.factory().creator_tokens.insert(creator, list);
    let indices = s.factory().get_tokens_by_creator(creator);
    assert_eq!(indices.len(), 2);
    assert_eq!(*indices.get(0).unwrap(), 1);
    assert_eq!(*indices.get(1).unwrap(), 2);
}

#[test]
fn test_get_tokens_by_creator_empty_for_unknown() {
    let mut s = World::new();
    let stranger = s.generate();
    assert_eq!(s.factory().get_tokens_by_creator(stranger).len(), 0);
}

// ── transfer_admin / update_admin ─────────────────────────────────────────────

#[test]
fn test_transfer_admin() {
    let mut s = World::new();
    let admin = s.admin();
    let new_admin = s.generate();
    s.factory().transfer_admin(admin, new_admin).unwrap();
    assert_eq!(s.get_state().admin, new_admin);
}

#[test]
fn test_transfer_admin_unauthorized() {
    let mut s = World::new();
    let stranger = s.generate();
    let new_admin = s.generate();
    assert_eq!(s.factory().transfer_admin(stranger, new_admin), Err(Error::Unauthorized));
}

#[test]
fn test_transfer_admin_same_address_fails() {
    let mut s = World::new();
    let admin = s.admin();
    assert_eq!(s.factory().transfer_admin(admin, admin), Err(Error::InvalidParameters));
}

#[test]
fn test_update_admin() {
    let mut s = World::new();
    let admin = s.admin();
    let new_admin = s.generate();
    s.factory().update_admin(admin, new_admin).unwrap();
    assert_eq!(s.get_state().admin, new_admin);
}

#[test]
fn test_update_admin_unauthorized() {
    let mut s = World::new();
    let stranger = s.generate();
    let new_admin = s.generate();
    assert_eq!(s.factory().update_admin(stranger, new_admin), Err(Error::Unauthorized));
}

#[test]
fn test_update_admin_same_address_fails() {
    let mut s = World::new();
    let admin = s.admin();
    assert_eq!(s.factory().update_admin(admin, admin), Err(Error::InvalidParameters));
}

#[test]
fn test_update_admin_old_admin_loses_access() {
    let mut s = World::new();
    let admin = s.admin();
    let new_admin = s.generate();
    s.factory().update_admin(admin, new_admin).unwrap();
    assert_eq!(s.factory().pause(admin), Err(Error::Unauthorized));
    s.factory().pause(new_admin).unwrap();
    assert!(s.get_state().paused);
}

// ── reentrancy guard ──────────────────────────────────────────────────────────

#[test]
fn test_reentrancy_guard_blocks_concurrent_call() {
    let mut s = World::new();
    let creator = s.generate();
    s.write_state(|state| state.locked = true);
    let result = s.try_create_token(creator, Setup::salt(0), Setup::dummy_hash(), "T", "T", 7, 0_u128, 1_000);
    assert_eq!(result, Err(Ok(Error::Reentrancy)));
}

#[test]
fn test_reentrancy_guard_released_after_error() {
    let mut s = World::new();
    let creator = s.generate();
    // The fee is too low.
    let _ = s.try_create_token(creator, Setup::salt(0), Setup::dummy_hash(), "T", "T", 7, 0_u128, 1);
    assert!(!s.get_state().locked, "lock must be released after an error");
}

#[test]
fn test_initial_state_is_not_locked() {
    let s = World::new();
    assert!(!s.get_state().locked);
}

// ── TTL ───────────────────────────────────────────────────────────────────────

#[test]
fn test_ttl_extended_after_initialize() {
    let env = new_env();
    let contract_id = env.register(Blank, ());
    let mut factory = Factory::new(&env);
    let extension = factory.initialize(0, 1, 2, 1_000, 500).unwrap();
    env.as_contract(&contract_id, || {
        let before = env.storage().instance().get_ttl();
        assert!(before < MIN_TTL);
        env.storage().instance().extend_ttl(extension.threshold, extension.extend_to);
        let ttl = env.storage().instance().get_ttl();
        assert!(ttl >= MIN_TTL, "TTL {ttl} must be >= MIN_TTL");
    });
}

// ── upgrade ───────────────────────────────────────────────────────────────────

#[test]
fn test_upgrade_unauthorized() {
    let mut s = World::new();
    let stranger = s.generate();
    assert_eq!(s.factory().upgrade(stranger, Setup::salt(1)), Err(Error::Unauthorized));
}

// ── fee split ─────────────────────────────────────────────────────────────────

#[test]
fn test_set_fee_split_valid() {
    let mut s = World::new();
    let (admin, treasury) = (s.admin(), s.treasury());
    let recipient = s.generate();
    let splits = s.split(&[(treasury, 7_000), (recipient, 3_000)]);
    s.factory().set_fee_split(admin, splits).unwrap();
    let stored = s.factory().get_fee_split();
    assert_eq!(stored.get(treasury).unwrap(), 7_000);
    assert_eq!(stored.get(recipient).unwrap(), 3_000);
}

#[test]
fn test_set_fee_split_invalid_sum_rejected() {
    let mut s = World::new();
    let (admin, treasury) = (s.admin(), s.treasury());
    let recipient = s.generate();
    let splits = s.split(&[(treasury, 6_000), (recipient, 3_000)]);
    assert_eq!(s.factory().set_fee_split(admin, splits), Err(Error::InvalidFeeSplit));
}

#[test]
fn test_set_fee_split_unauthorized() {
    let mut s = World::new();
    let stranger = s.generate();
    let splits = s.split(&[(s.treasury(), 10_000)]);
    assert_eq!(s.factory().set_fee_split(stranger, splits), Err(Error::Unauthorized));
}

#[test]
fn test_set_fee_split_empty_clears_split() {
    let mut s = World::new();
    let (admin, treasury) = (s.admin(), s.treasury());
    let recipient = s.generate();
    let splits = s.split(&[(treasury, 7_000), (recipient, 3_000)]);
    s.factory().set_fee_split(admin, splits).unwrap();
    let none = FeeSplit::new(&s.env);
    s.factory().set_fee_split(admin, none).unwrap();
    assert!(s.factory().get_fee_split().is_empty());
}

#[test]
fn test_fee_distributed_according_to_split() {
    let mut s = World::new();
    let (admin, treasury) = (s.admin(), s.treasury());
    let referral = s.generate();
    let splits = s.split(&[(treasury, 7_000), (referral, 3_000)]);
    s.factory().set_fee_split(admin, splits).unwrap();

    let token_admin = s.generate();
    s.fund(token_admin, 1_000);
    let token_addr = s.seed_with_burn(token_admin, true);
    let recipient = s.generate();
    s.mint_tokens(token_addr, token_admin, recipient, 100, 1_000);

    assert_eq!(s.balance(s.fee_token(), treasury), 700);
    assert_eq!(s.balance(s.fee_token(), referral), 300);
}

#[test]
fn test_fee_split_remainder_goes_to_treasury() {
    let mut s = World::new();
    let (admin, treasury) = (s.admin(), s.treasury());
    let referral = s.generate();
    let splits = s.split(&[(referral, 3_333), (treasury, 6_667)]);
    s.factory().set_fee_split(admin, splits).unwrap();

    let token_admin = s.generate();
    s.fund(token_admin, 10);
    let token_addr = s.seed_with_burn(token_admin, true);
    let recipient = s.generate();
    s.mint_tokens(token_addr, token_admin, recipient, 1, 10);

    let referral_bal = s.balance(s.fee_token(), referral);
    let treasury_bal = s.balance(s.fee_token(), treasury);
    assert_eq!(referral_bal + treasury_bal, 10);
    assert!(treasury_bal >= 6);
    assert_eq!(referral_bal, 3);
    assert_eq!(treasury_bal, 7);
}

// ── batch token creation ──────────────────────────────────────────────────────

#[test]
fn test_batch_empty_rejected() {
    let mut s = World::new();
    let creator = s.generate();
    assert_eq!(s.try_create_tokens_batch(creator, Vec::new(), 0), Err(Ok(Error::InvalidParameters)));
}

#[test]
fn test_batch_insufficient_fee_rejected() {
    let mut s = World::new();
    let creator = s.generate();
    s.fund(creator, 500);
    let params = batch_vec(&[batch_param(1, "TokenA", "TKA"), batch_param(2, "TokenB", "TKB")]);
    assert_eq!(s.try_create_tokens_batch(creator, params, 1_999), Err(Ok(Error::InsufficientFee)));
}

#[test]
fn test_batch_invalid_name_rejects_entire_batch() {
    let mut s = World::new();
    let creator = s.generate();
    s.fund(creator, 3_000);
    let mut bad = batch_param(2, "TokenB", "TKB");
    bad.name = "".to_string();
    let params = batch_vec(&[batch_param(1, "TokenA", "TKA"), bad]);
    assert_eq!(s.try_create_tokens_batch(creator, params, 2_000), Err(Ok(Error::InvalidParameters)));
    assert_eq!(s.get_state().token_count, 0);
}

#[test]
fn test_batch_fee_is_base_fee_times_count() {
    let mut s = World::new();
    let creator = s.generate();
    s.fund(creator, 3_000);
    let params = batch_vec(&[
        batch_param(1, "TokenA", "TKA"),
        batch_param(2, "TokenB", "TKB"),
        batch_param(3, "TokenC", "TKC"),
    ]);
    assert_eq!(s.try_create_tokens_batch(creator, params, 2_999), Err(Ok(Error::InsufficientFee)));
}

#[test]
fn test_batch_blocked_when_paused() {
    let mut s = World::new();
    let admin = s.admin();
    s.factory().pause(admin).unwrap();
    let creator = s.generate();
    let params = batch_vec(&[batch_param(1, "T", "T")]);
    assert_eq!(s.try_create_tokens_batch(creator, params, 1_000), Err(Ok(Error::ContractPaused)));
}

#[test]
fn test_batch_reentrancy_guard() {
    let mut s = World::new();
    let creator = s.generate();
    s.write_state(|state| state.locked = true);
    let params = batch_vec(&[batch_param(1, "T", "T")]);
    assert_eq!(s.try_create_tokens_batch(creator, params, 1_000), Err(Ok(Error::Reentrancy)));
}

// ── orders from start to end ──────────────────────────────────────────────────

/// Pays for an order, and puts fresh token contracts in place of deployed ones.
fn stand_in(s: &mut World, creation: &Creation) -> Vec<u64> {
    s.perform_all(creation.payments()).unwrap();
    let mut addresses = Vec::new();
    for _ in creation.tokens() {
        addresses.push(s.new_token(creation.creator()));
    }
    addresses
}

#[test]
fn created_token_is_found_and_paid_for() {
    let mut s = World::new();
    let creator = s.generate();
    s.fund(creator, 5_000);
    let creation = s
        .factory()
        .create_token(
            creator,
            Setup::salt(4),
            Setup::dummy_hash(),
            "MyToken".to_string(),
            "MTK".to_string(),
            18,
            250_u128,
            5_000,
        )
        .unwrap();
    assert!(s.get_state().locked);
    assert_eq!(creation.creator(), creator);
    assert_eq!(creation.tokens()[0].salt, [4u8; 32]);
    assert_eq!(creation.tokens()[0].token_wasm_hash, [0u8; 32]);
    assert_eq!(creation.tokens()[0].max_supply, None);
    let addresses = stand_in(&mut s, &creation);
    assert_eq!(s.finish(creation, &addresses, 77), Ok(vec![1]));

    // The base fee is charged, not the offer.
    assert_eq!(s.balance(s.fee_token(), s.treasury()), 1_000);
    assert_eq!(s.balance(s.fee_token(), creator), 4_000);
    assert_eq!(s.balance(addresses[0], creator), 250);
    assert!(!s.get_state().locked);
    assert_eq!(s.get_state().token_count, 1);
    assert_eq!(s.factory().get_tokens_by_creator(creator), vec![1]);
    assert_eq!(s.factory().tokens[&addresses[0]].minted, 250);
    assert_eq!(s.factory().tokens[&addresses[0]].owner, creator);
    let info = s.factory().get_token_info(1).unwrap();
    assert_eq!(info.name, "MyToken");
    assert_eq!(info.symbol, "MTK");
    assert_eq!(info.decimals, 18);
    assert_eq!(info.creator, creator);
    assert_eq!(info.created_at, 77);
    assert!(info.burn_enabled);
    assert_eq!(info.max_supply, None);
}

#[test]
fn batch_is_numbered_in_order() {
    let mut s = World::new();
    let (first, second) = (s.generate(), s.generate());
    s.fund(first, 3_000);
    s.fund(second, 1_000);
    let mut capped = batch_param(2, "TokenB", "TKB");
    capped.initial_supply = 40;
    capped.max_supply = Some(100);
    let params = batch_vec(&[batch_param(1, "TokenA", "TKA"), capped]);
    let creation = s.factory().create_tokens_batch(first, params, 2_000).unwrap();
    let addresses = stand_in(&mut s, &creation);
    assert_eq!(s.finish(creation, &addresses, 0), Ok(vec![1, 2]));
    let other = s.factory().create_tokens_batch(second, batch_vec(&[batch_param(3, "C", "C")]), 1_000).unwrap();
    let elsewhere = stand_in(&mut s, &other);
    assert_eq!(s.finish(other, &elsewhere, 0), Ok(vec![3]));

    assert_eq!(s.factory().get_tokens_by_creator(first), vec![1, 2]);
    assert_eq!(s.factory().get_tokens_by_creator(second), vec![3]);
    assert_eq!(s.balance(s.fee_token(), s.treasury()), 3_000);
    assert_eq!(s.balance(addresses[0], first), 0);
    assert_eq!(s.balance(addresses[1], first), 40);
    assert_eq!(s.factory().get_token_info(2).unwrap().max_supply, Some(100));

    // The initial supply counts against the cap.
    assert_eq!(s.try_mint_tokens(addresses[1], first, first, 61, 0), Err(Ok(Error::MaxSupplyExceeded)));
    s.mint_tokens(addresses[1], first, first, 60, 1_000);
    assert_eq!(s.balance(addresses[1], first), 100);
}

#[test]
fn fee_of_a_creation_is_split() {
    let mut s = World::new();
    let (admin, treasury) = (s.admin(), s.treasury());
    let (creator, referral) = (s.generate(), s.generate());
    s.fund(creator, 1_000);
    let splits = s.split(&[(referral, 2_500), (treasury, 7_500)]);
    s.factory().set_fee_split(admin, splits).unwrap();
    let creation = s.factory().create_tokens_batch(creator, vec![batch_param(1, "T", "T")], 1_000).unwrap();
    stand_in(&mut s, &creation);
    assert_eq!(s.balance(s.fee_token(), treasury), 750);
    assert_eq!(s.balance(s.fee_token(), referral), 250);
    assert_eq!(s.balance(s.fee_token(), creator), 0);
}

#[test]
fn failed_deployment_leaves_no_trace() {
    let mut s = World::new();
    let creator = s.generate();
    s.fund(creator, 1_000);
    let before = s.get_state();
    let result = s.try_create_token(creator, Setup::salt(0), Setup::dummy_hash(), "T", "T", 7, 0_u128, 1_000);
    assert_eq!(result, Err(Err(HostFailure)));
    assert_eq!(s.get_state(), before);
    assert_eq!(s.balance(s.fee_token(), creator), 1_000);
    assert_eq!(s.balance(s.fee_token(), s.treasury()), 0);
    assert!(s.factory().get_tokens_by_creator(creator).is_empty());
}

#[test]
fn order_under_way_keeps_others_out() {
    let mut s = World::new();
    let owner = s.generate();
    s.fund(owner, 10_000);
    let token = s.seed_with_burn(owner, true);
    s.mint(token, owner, 10);
    let creation = s.factory().create_tokens_batch(owner, vec![batch_param(1, "T", "T")], 1_000).unwrap();
    assert_eq!(s.try_mint_tokens(token, owner, owner, 1, 1_000), Err(Ok(Error::Reentrancy)));
    assert_eq!(s.try_set_metadata(token, owner, "ipfs://Qm", 500), Err(Ok(Error::Reentrancy)));
    assert_eq!(s.try_burn(token, owner, 4), Ok(()));
    s.factory().cancel_creation(creation);
    s.mint_tokens(token, owner, owner, 1, 1_000);
    assert_eq!(s.balance(token, owner), 7);
}

#[test]
fn deployed_addresses_must_match_the_order() {
    let mut s = World::new();
    let creator = s.generate();
    let known = s.seed_with_burn(creator, true);
    let before = s.get_state();
    let (a, b) = (s.generate(), s.generate());
    let two = || vec![batch_param(1, "A", "A"), batch_param(2, "B", "B")];
    for addresses in [vec![a], vec![a, a], vec![a, known], vec![a, b, a]] {
        let creation = s.factory().create_tokens_batch(creator, two(), 2_000).unwrap();
        assert_eq!(s.finish(creation, &addresses, 0), Err(Ok(Error::InvalidParameters)));
        assert_eq!(s.get_state(), before);
    }
    let creation = s.factory().create_tokens_batch(creator, two(), 2_000).unwrap();
    assert_eq!(s.finish(creation, &vec![a, b], 0), Ok(vec![2, 3]));
}

#[test]
fn last_numbers_are_given_out() {
    let mut s = World::new();
    let creator = s.generate();
    s.write_state(|state| state.token_count = u32::MAX - 2);
    let three = vec![batch_param(1, "A", "A"), batch_param(2, "B", "B"), batch_param(3, "C", "C")];
    assert_eq!(s.try_create_tokens_batch(creator, three, 3_000), Err(Ok(Error::ArithmeticOverflow)));
    let two = vec![batch_param(1, "A", "A"), batch_param(2, "B", "B")];
    let creation = s.factory().create_tokens_batch(creator, two, 2_000).unwrap();
    let (a, b) = (s.generate(), s.generate());
    assert_eq!(s.finish(creation, &vec![a, b], 0), Ok(vec![u32::MAX - 1, u32::MAX]));
}

#[test]
fn numbers_may_run_out_before_an_order_is_entered() {
    let mut s = World::new();
    let creator = s.generate();
    let creation = s.factory().create_tokens_batch(creator, vec![batch_param(1, "A", "A")], 1_000).unwrap();
    s.write_state(|state| state.token_count = u32::MAX);
    let a = s.generate();
    assert_eq!(s.finish(creation, &vec![a], 0), Err(Ok(Error::ArithmeticOverflow)));
    assert!(!s.get_state().locked);
}

// ── what a new token may be ───────────────────────────────────────────────────

#[test]
fn faults_of_a_token() {
    let good = batch_param(1, "T", "T");
    assert_eq!(good.fault(), None);
    let mut p = good.clone();
    p.symbol = String::new();
    assert_eq!(p.fault(), Some(Error::InvalidParameters));
    let mut p = good.clone();
    p.decimals = 18;
    assert_eq!(p.fault(), None);
    p.decimals = 19;
    assert_eq!(p.fault(), Some(Error::InvalidDecimals));
    p.name = String::new();
    assert_eq!(p.fault(), Some(Error::InvalidParameters));
    let mut p = good.clone();
    p.initial_supply = i128::MAX as u128;
    assert_eq!(p.fault(), None);
    p.initial_supply += 1;
    assert_eq!(p.fault(), Some(Error::ArithmeticOverflow));
    let mut p = good.clone();
    p.max_supply = Some(10);
    p.initial_supply = 10;
    assert_eq!(p.fault(), None);
    p.initial_supply = 11;
    assert_eq!(p.fault(), Some(Error::MaxSupplyExceeded));
    p.initial_supply = 0;
    p.max_supply = Some(-1);
    assert_eq!(p.fault(), Some(Error::MaxSupplyExceeded));
}

#[test]
fn first_fault_of_a_batch_is_reported() {
    let mut s = World::new();
    let creator = s.generate();
    let mut steep = batch_param(2, "B", "B");
    steep.decimals = 40;
    let mut nameless = batch_param(3, "C", "C");
    nameless.name = String::new();
    let good = batch_param(1, "A", "A");
    let batch = vec![good.clone(), steep.clone(), nameless.clone()];
    assert_eq!(s.try_create_tokens_batch(creator, batch, 3_000), Err(Ok(Error::InvalidDecimals)));
    let batch = vec![nameless, steep, good];
    assert_eq!(s.try_create_tokens_batch(creator, batch, 3_000), Err(Ok(Error::InvalidParameters)));
    assert!(!s.get_state().locked);
}

#[test]
fn fee_of_a_batch_may_be_past_counting() {
    let mut s = World::new();
    let admin = s.admin();
    s.factory().update_fees(admin, Some(i128::MAX), None).unwrap();
    let creator = s.generate();
    let two = vec![batch_param(1, "A", "A"), batch_param(2, "B", "B")];
    assert_eq!(s.try_create_tokens_batch(creator, two, i128::MAX), Err(Ok(Error::ArithmeticOverflow)));
}

#[test]
fn seeds_are_numbered_in_turn() {
    let mut s = World::new();
    let (a, b) = (s.generate(), s.generate());
    let (x, y, z) = (s.generate(), s.generate(), s.generate());
    assert_eq!(seed_token(&mut s.setup, x, a, true, None), 1);
    assert_eq!(seed_token(&mut s.setup, y, b, false, Some(9)), 2);
    assert_eq!(seed_token_with_burn(&mut s.setup, z, a, false), 3);
    assert_eq!(s.get_state().token_count, 3);
    let expected = [(x, 1, a, true, None), (y, 2, b, false, Some(9)), (z, 3, a, false, None)];
    for (token, index, creator, burn_enabled, max_supply) in expected {
        let record = &s.factory().tokens[&token];
        assert_eq!((record.index, record.owner, record.minted), (index, creator, 0));
        assert_eq!(record.metadata, None);
        let info = s.factory().get_token_info(index).unwrap();
        assert_eq!((info.name.as_str(), info.symbol.as_str(), info.decimals), ("T", "T", 7));
        assert_eq!((info.creator, info.created_at), (creator, 0));
        assert_eq!((info.burn_enabled, info.max_supply), (burn_enabled, max_supply));
    }
    assert_eq!(s.factory().get_token_info(0).err(), Some(Error::TokenNotFound));
    assert_eq!(s.factory().get_token_info(4).err(), Some(Error::TokenNotFound));
    assert_eq!(s.factory().tokens.len(), 3);
    assert!(s.factory().get_tokens_by_creator(a).is_empty());
}

// ── minting and metadata ──────────────────────────────────────────────────────

#[test]
fn minting_is_refused_in_order() {
    let mut s = World::new();
    let (owner, stranger) = (s.generate(), s.generate());
    let token = s.seed(owner, true, Some(5));
    let unknown = s.new_token(owner);
    assert_eq!(s.try_mint_tokens(token, owner, owner, 1, -1), Err(Ok(Error::InsufficientFee)));
    assert_eq!(s.try_mint_tokens(unknown, owner, owner, 1, 0), Err(Ok(Error::TokenNotFound)));
    assert_eq!(s.try_mint_tokens(token, stranger, owner, 0, 0), Err(Ok(Error::Unauthorized)));
    assert_eq!(s.try_mint_tokens(token, owner, owner, i128::MAX, 0), Err(Ok(Error::MaxSupplyExceeded)));
    assert_eq!(s.try_mint_tokens(token, owner, owner, 5, 0), Ok(()));
    assert_eq!(s.try_mint_tokens(token, owner, owner, i128::MAX, 0), Err(Ok(Error::MaxSupplyExceeded)));
    assert_eq!(s.balance(token, owner), 5);
}

#[test]
fn minting_without_cap_stops_at_the_largest_number() {
    let mut s = World::new();
    let owner = s.generate();
    let token = s.seed(owner, true, None);
    let all = s.factory().mint_tokens(token, owner, owner, i128::MAX, 0).unwrap();
    assert_eq!(all, vec![Action::Mint { token, to: owner, amount: i128::MAX }]);
    assert_eq!(s.factory().mint_tokens(token, owner, owner, 1, 0), Err(Error::ArithmeticOverflow));
}

#[test]
fn minting_asks_for_payment_first() {
    let mut s = World::new();
    let (owner, to) = (s.generate(), s.generate());
    let token = s.seed(owner, true, None);
    let (fee_token, treasury) = (s.fee_token(), s.treasury());
    let actions = s.factory().mint_tokens(token, owner, to, 9, 30).unwrap();
    assert_eq!(
        actions,
        vec![
            Action::Transfer { token: fee_token, from: owner, to: treasury, amount: 30 },
            Action::Mint { token, to, amount: 9 },
        ]
    );
}

#[test]
fn metadata_costs_the_metadata_fee() {
    let mut s = World::new();
    let owner = s.generate();
    s.fund(owner, 900);
    let token = s.seed_with_burn(owner, true);
    assert_eq!(s.try_set_metadata(token, owner, "ipfs://Qm", 499), Err(Ok(Error::InsufficientFee)));
    s.set_metadata(token, owner, "ipfs://Qm", 900);
    assert_eq!(s.balance(s.fee_token(), owner), 400);
    assert_eq!(s.balance(s.fee_token(), s.treasury()), 500);
    let unknown = s.generate();
    assert_eq!(s.try_set_metadata(unknown, owner, "ipfs://Qm", 500), Err(Ok(Error::TokenNotFound)));
}

#[test]
fn pause_stops_what_costs_a_fee() {
    let mut s = World::new();
    let admin = s.admin();
    let owner = s.generate();
    s.fund(owner, 10_000);
    let token = s.seed_with_burn(owner, true);
    s.factory().pause(admin).unwrap();
    assert_eq!(s.try_mint_tokens(token, owner, owner, 1, 1_000), Err(Ok(Error::ContractPaused)));
    assert_eq!(s.try_set_metadata(token, owner, "ipfs://Qm", 500), Err(Ok(Error::ContractPaused)));
    s.factory().unpause(admin).unwrap();
    s.mint_tokens(token, owner, owner, 1, 1_000);
    s.set_metadata(token, owner, "ipfs://Qm", 500);
    assert_eq!(s.factory().unpause(owner), Err(Error::Unauthorized));
}

#[test]
fn locked_comes_before_paused() {
    let mut s = World::new();
    s.write_state(|state| {
        state.locked = true;
        state.paused = true;
    });
    let creator = s.generate();
    let result = s.try_create_tokens_batch(creator, Vec::new(), 0);
    assert_eq!(result, Err(Ok(Error::Reentrancy)));
}

// ── burning ───────────────────────────────────────────────────────────────────

#[test]
fn burning_an_unknown_token_is_refused() {
    let mut s = World::new();
    let user = s.generate();
    let token = s.new_token(user);
    s.mint(token, user, 10);
    assert_eq!(s.try_burn(token, user, 10), Err(Ok(Error::TokenNotFound)));
}

#[test]
fn switch_is_the_tokens_own() {
    let mut s = World::new();
    let owner = s.generate();
    let a = s.seed_with_burn(owner, true);
    let b = s.seed_with_burn(owner, true);
    s.factory().set_burn_enabled(a, owner, false).unwrap();
    assert!(!s.factory().get_token_info(1).unwrap().burn_enabled);
    assert!(s.factory().get_token_info(2).unwrap().burn_enabled);
    s.mint(a, owner, 5);
    s.mint(b, owner, 5);
    assert_eq!(s.try_burn(a, owner, 5), Err(Ok(Error::BurnNotEnabled)));
    s.burn(b, owner, 5);
    assert_eq!(s.balance(b, owner), 0);
}

#[test]
fn burning_does_not_make_room_under_the_cap() {
    let mut s = World::new();
    let owner = s.generate();
    let token = s.seed(owner, true, Some(10));
    s.mint_tokens(token, owner, owner, 10, 0);
    s.burn(token, owner, 10);
    assert_eq!(s.try_mint_tokens(token, owner, owner, 1, 0), Err(Ok(Error::MaxSupplyExceeded)));
}

// ── settings ──────────────────────────────────────────────────────────────────

#[test]
fn negative_fees_are_refused() {
    let env = new_env();
    let mut factory = Factory::new(&env);
    assert_eq!(factory.initialize(0, 1, 2, -1, 0), Err(Error::InvalidParameters));
    assert_eq!(factory.initialize(0, 1, 2, 0, -1), Err(Error::InvalidParameters));
    assert!(factory.state.is_none());
    factory.initialize(0, 1, 2, 0, 0).unwrap();
    assert_eq!(factory.update_fees(0, Some(-1), None), Err(Error::InvalidParameters));
    assert_eq!(factory.update_fees(0, Some(5), Some(-1)), Err(Error::InvalidParameters));
    assert_eq!(factory.get_state().base_fee, 0);
}

#[test]
fn fees_change_one_at_a_time() {
    let mut s = World::new();
    let admin = s.admin();
    s.factory().update_fees(admin, None, Some(7)).unwrap();
    assert_eq!((s.get_state().base_fee, s.get_state().metadata_fee), (1_000, 7));
    s.factory().update_fees(admin, Some(8), None).unwrap();
    assert_eq!((s.get_state().base_fee, s.get_state().metadata_fee), (8, 7));
}

#[test]
fn admin_hands_over_and_back() {
    let mut s = World::new();
    let admin = s.admin();
    let next = s.generate();
    let before = s.get_state();
    s.factory().transfer_admin(admin, next).unwrap();
    assert_eq!(s.factory().transfer_admin(admin, next), Err(Error::Unauthorized));
    s.factory().transfer_admin(next, admin).unwrap();
    assert_eq!(s.get_state(), before);
}

#[test]
fn admin_may_upgrade() {
    let mut s = World::new();
    let admin = s.admin();
    assert_eq!(s.factory().upgrade(admin, Setup::salt(1)), Ok([1u8; 32]));
}

#[test]
fn set_up_factory_lives_on() {
    let s = World::new();
    assert_eq!(s.setup.ttl, TtlExtension { threshold: MIN_TTL, extend_to: MAX_TTL });
    s.env.as_contract(&s.contract, || {
        assert_eq!(s.env.storage().instance().get_ttl(), MAX_TTL);
    });
}

#[test]
fn storage_at_the_threshold_is_extended() {
    let env = new_env();
    let contract_id = env.register(Blank, ());
    let setup = Setup::new(&env, 0, 1, 2);
    env.as_contract(&contract_id, || {
        env.storage().instance().extend_ttl(MIN_TTL, MIN_TTL);
        assert_eq!(env.storage().instance().get_ttl(), MIN_TTL);
        env.storage().instance().extend_ttl(setup.ttl.threshold, setup.ttl.extend_to);
        assert_eq!(env.storage().instance().get_ttl(), MAX_TTL);
    });
}

#[test]
fn long_lived_storage_is_left_alone() {
    let env = new_env();
    let contract_id = env.register(Blank, ());
    let mut factory = Factory::new(&env);
    let extension = factory.initialize(0, 1, 2, 1_000, 500).unwrap();
    env.as_contract(&contract_id, || {
        env.storage().instance().extend_ttl(600_000, 600_000);
        let before = env.storage().instance().get_ttl();
        env.storage().instance().extend_ttl(extension.threshold, extension.extend_to);
        assert_eq!(env.storage().instance().get_ttl(), before);
    });
}

// ── shares of a fee ───────────────────────────────────────────────────────────

#[test]
fn split_is_listed_by_recipient() {
    let env = new_env();
    let big = 1u64 << 60;
    let mut split = make_split(&env, &[(u64::MAX, 1), (7, 2), (big, 3), (0, 4)]);
    assert_eq!(split.entries(), vec![(0, 4), (7, 2), (big, 3), (u64::MAX, 1)]);
    split.set(7, 5);
    assert_eq!(split.get(7), Some(5));
    assert_eq!(split.get(8), None);
    assert_eq!(split.get(u64::MAX), Some(1));
    assert!(!split.is_empty());
    assert_eq!(split.entries().len(), 4);
}

#[test]
fn order_of_pairs_does_not_matter() {
    let env = new_env();
    let split = make_split(&env, &[(3, 2_000), (9, 5_000), (4, 3_000)]);
    let other = make_split(&env, &[(9, 5_000), (4, 3_000), (3, 2_000)]);
    assert_eq!(split.entries(), vec![(3, 2_000), (4, 3_000), (9, 5_000)]);
    assert_eq!(other.entries(), split.entries());
}

#[test]
fn later_pairs_override_earlier_ones() {
    let env = new_env();
    let p = [(3, 2_000), (9, 5_000)];
    let q = [(9, 1_000), (4, 7_000)];
    let mut joined = make_split(&env, &p);
    for (recipient, parts) in q {
        joined.set(recipient, parts);
    }
    let all = make_split(&env, &[p[0], p[1], q[0], q[1]]);
    assert_eq!(all.entries(), vec![(3, 2_000), (4, 7_000), (9, 1_000)]);
    assert_eq!(all.entries(), joined.entries());
}

#[test]
fn recipient_named_twice_has_the_last_parts() {
    let env = new_env();
    let split = make_split(&env, &[(3, 9_000), (4, 5_000), (3, 5_000)]);
    assert_eq!(split.entries(), vec![(3, 5_000), (4, 5_000)]);
    assert!(split.is_valid());
}

#[test]
fn parts_must_make_up_the_whole() {
    let env = new_env();
    assert!(FeeSplit::new(&env).is_valid());
    assert!(FeeSplit::new(&env).is_empty());
    assert!(make_split(&env, &[(1, 10_000)]).is_valid());
    assert!(!make_split(&env, &[(1, 9_999)]).is_valid());
    assert!(!make_split(&env, &[(1, 10_001)]).is_valid());
    assert!(!make_split(&env, &[(1, 0)]).is_valid());
    assert!(!make_split(&env, &[(1, u32::MAX), (2, 10_001)]).is_valid());
}

#[test]
fn shares_are_rounded_down() {
    assert_eq!(compute_share(1_000, 7_000), 700);
    assert_eq!(compute_share(1_000, 3_000), 300);
    assert_eq!(compute_share(10, 3_333), 3);
    assert_eq!(compute_share(10, 6_667), 6);
    assert_eq!(compute_share(9_999, 1), 0);
    assert_eq!(compute_share(10_000, 1), 1);
    assert_eq!(compute_share(i128::MAX, 10_000), i128::MAX);
    assert_eq!(compute_share(i128::MAX, 5_000), i128::MAX / 2);
}

#[test]
fn fee_is_paid_in_full() {
    let env = new_env();
    let split = make_split(&env, &[(8, 3_333), (5, 3_333), (6, 3_334)]);
    assert_eq!(
        charge(2, 9, 1, 10, &split),
        vec![
            Action::Transfer { token: 2, from: 9, to: 5, amount: 3 },
            Action::Transfer { token: 2, from: 9, to: 6, amount: 3 },
            Action::Transfer { token: 2, from: 9, to: 8, amount: 3 },
            Action::Transfer { token: 2, from: 9, to: 1, amount: 1 },
        ]
    );
    // Nothing is moved where a share comes to nothing.
    assert_eq!(charge(2, 9, 1, 2, &split), vec![Action::Transfer { token: 2, from: 9, to: 1, amount: 2 }]);
    assert_eq!(charge(2, 9, 1, 0, &split), Vec::new());
}

#[test]
fn list_keeps_the_order_of_entry() {
    let env = new_env();
    let mut list = TokenList::new(&env);
    assert_eq!(list.len(), 0);
    assert_eq!(list.get(0), None);
    for index in [9u32, 2, 9] {
        list.push_back(index);
    }
    assert_eq!(list.len(), 3);
    assert_eq!(list.get(1), Some(2));
    assert_eq!(list.get(3), None);
    assert_eq!(list.to_vec(), vec![9, 2, 9]);
}
