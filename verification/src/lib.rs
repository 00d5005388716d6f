//! Core logic of a personal project launcher.
//!
//! The library discovers workspace directories under a configured root,
//! keeps a registry of named command templates ("programs") for opening a
//! workspace in an external tool, and resolves a template against a chosen
//! workspace into a concrete command invocation.  Everything here is pure
//! logic over plain values; reading directories, persisting the
//! configuration and spawning processes are left to the surrounding
//! application.

pub mod config;
pub mod launch;
pub mod program;
pub mod project;
pub mod registry;
pub mod repository;
pub mod search;
pub mod seqs;
pub mod session;
pub mod text;
