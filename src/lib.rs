//! A registry of non-fungible assets whose metadata is shielded by default:
//! minting, transfer, disclosure, staking, airdrops and a portable packet form.

pub mod text;
pub mod types;
pub mod decimal;
pub mod framing;
pub mod registry;
pub mod ident;
pub mod engine;
pub mod disclosure;
pub mod airdrop;
pub mod packet;
pub mod laws;
