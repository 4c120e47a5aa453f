//! Verified core of the LU-Explorer API server: request routing, the
//! reverse lookup indices, the GraphQL-to-SQL translation, authorization
//! decisions and the small text formats the server speaks.

pub mod text;
pub mod path;
pub mod strmap;
pub mod lists;
pub mod latin1;
pub mod ordered;
pub mod decimal;
pub mod api;
pub mod data;
pub mod config;
pub mod auth;
pub mod routing;
pub mod middleware;
pub mod services;
