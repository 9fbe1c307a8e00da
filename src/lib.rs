//! Fixed-width encodings of identities and integers for ledger subaccounts,
//! and decoding of random integers from an entropy provider's reply.

pub mod entropy;
pub mod subaccount;
