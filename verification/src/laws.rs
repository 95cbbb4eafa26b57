//! What the operations are for, stated of the values that go into them and come out: each law
//! speaks of a call's own arguments and result.

pub mod accounts;
pub mod carriers;
pub mod ebay;
pub mod encoding;
pub mod hosts;
pub mod http;
pub mod login;
pub mod numbers;
pub mod percent;
pub mod photos;
pub mod services;
pub mod shipping;
pub mod text;
pub mod tokens;
