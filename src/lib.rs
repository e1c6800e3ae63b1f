//! A catalogue of version-controlled working trees and bare repositories:
//! discovery decisions, classification rules, filters, an indexed store and
//! permission gating, each stated and proved with Verus.

pub mod classify;
pub mod config;
pub mod error;
pub mod filter;
pub mod format;
pub mod git_ops;
pub mod index;
pub mod pattern;
pub mod permissions;
pub mod repo;
pub mod scanner;
pub mod text;
