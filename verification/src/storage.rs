//! Storage backends: an in-memory cache in front of a transactional
//! relational store.

pub mod sqlite;
