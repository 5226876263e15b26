//! A small authenticated service registry.
//!
//! The library keeps one kind of record, a [`service::Service`], owned by an
//! external user. It enforces a fixed per-owner quota on creation, guards
//! every operation but the metrics snapshot behind a shared-secret
//! credential, and maps each outcome to an HTTP status code. The store
//! itself is modelled by [`registry::Registry`]; request handling, routing
//! and authentication live in [`views`].

pub mod auth;
pub mod clock;
pub mod config;
pub mod db;
pub mod numbers;
pub mod registry;
pub mod service;
pub mod views;
