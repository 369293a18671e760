//! A software cryptographic token core in the style of Cryptoki (PKCS#11).
//!
//! The crate is organised in layers: a tagged attribute representation
//! (`attribute`), objects made of attributes with template matching and
//! sensitivity gating (`object`), per-class object factories and the
//! mechanism registry with its operation state machines (`aes`,
//! `mechanism`), a JSON import/export form (`json`), and a cache-backed
//! relational store (`storage`).

pub mod aes;
pub mod attribute;
pub mod cryptography;
pub mod error;
pub mod interface;
pub mod json;
pub mod mechanism;
pub mod object;
pub mod storage;
