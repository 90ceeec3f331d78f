//! A food-sharing coordination backend, verified.
//!
//! Users register, list surplus food items, reserve them for pickup, and
//! manage profile and email-verification state. The relational store is
//! modelled in memory as a [`store::Store`]; every business operation is a
//! verified function whose contract states exactly which rows it reads or
//! rewrites. Request-level orchestration lives in [`handlers`], credential
//! and one-time-code utilities in [`credentials`], and the base64 image
//! codec in [`codec`].

pub mod codec;
pub mod credentials;
pub mod handlers;
pub mod records;
pub mod store;
