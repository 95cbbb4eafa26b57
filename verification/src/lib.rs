//! The decisions of WIM, a desktop client for a warehouse that sells on eBay.

pub mod accounts;
pub mod carriers;
pub mod ebay;
pub mod encoding;
pub mod hosts;
pub mod http;
pub mod laws;
pub mod login;
pub mod numbers;
pub mod outside;
pub mod percent;
pub mod photos;
pub mod services;
pub mod shipping;
pub mod text;
pub mod tokens;
