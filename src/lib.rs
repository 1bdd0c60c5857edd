pub mod email;
pub mod password;
pub mod primitives;
pub mod hex;
pub mod token;
pub mod user;
pub mod data_stores;
pub mod hashmap_user_store;
pub mod hashset_banned_token_store;
pub mod hashmap_two_fa_code_store;
pub mod error;
pub mod app_state;
pub mod routes;
