pub mod bytes;
pub mod storage;
pub mod text;
pub mod blockdag;
pub mod cells;
pub mod access_control_erc1155;
pub mod stablecoin;
pub mod usdt;
pub mod usdc;
pub mod aave;
pub mod erc1155;
pub mod erc721;
pub mod uniswap_v2;
pub mod uniswap_v3;
pub mod deployment_service;
pub mod factory;
pub mod erc20;
pub mod payment_splitter;
pub mod access_control;
pub mod amm;
pub mod governance;
pub mod multisig;
pub mod staking;
pub mod factory_pattern;
pub mod nft;
pub mod multi_token;
pub mod pausable;
pub mod reentrancy_guard;
pub mod transient_guard;
pub mod ownable;
pub mod proxy;
pub mod proxy_implementation;
pub mod counter;
pub mod referral;
pub mod difficulty;
pub mod heap;
pub mod alloc_oom;
pub mod environment_info;
pub mod scheduler;
pub mod scheduler_cascade;
pub mod cpi;
pub mod cpi_callee;
pub mod cpi_caller;
pub mod cpi_test_callee;
pub mod cpi_test_caller;
pub mod cpi_e2e_callee;
pub mod cpi_e2e_caller;
pub mod native_nft;
pub mod test_suite;
pub mod balance_transfer;
pub mod code_ops;
pub mod environment_tests;
pub mod event_tests;
pub mod sdk_demo;
pub mod privacy_defi;
pub mod crypto_advanced;
