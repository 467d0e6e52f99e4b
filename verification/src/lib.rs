//! Accounting and policy rules for pooled-custody vaults.
//!
//! Two kinds of vault are covered. A pooled vault holds a balance for a list of
//! beneficiaries and pays it out in equal shares; [`basic_vault`] keeps the registry
//! of such vaults over a ledger, and [`vault`] holds the rules for one record. A yield
//! vault tracks total assets, locks newly reported profit and lets it decay into free
//! funds over time; [`y_vault`] holds its state, its governance and its computations,
//! and [`issuance`] the asking for its share token.
//!
//! Storage, payments, the clock and the identity of the caller are supplied from
//! outside: operations take them as plain values and hand back what is to be paid or
//! asked for. Amounts are natural numbers of any size ([`amount`]), identities are
//! opaque ([`identity`]), and every refusal is a [`error::VaultError`]. Who may do
//! what is decided in [`access`].
//!
//! Every operation carries a contract over a mathematical view of the state it works
//! on, and the laws that relate operations to one another are stated as proof
//! functions beside them.

pub mod access;
pub mod amount;
pub mod basic_vault;
pub mod error;
pub mod identity;
pub mod issuance;
mod limbs;
pub mod vault;
pub mod y_vault;
