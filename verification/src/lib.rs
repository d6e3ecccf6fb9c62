//! A verified model of a contribution store: a single table of contributor
//! records keyed by uid, with an existence check and three best-effort
//! mutations (insert, finish, expire), together with the error-response
//! text that the store's one fallible query surfaces.

pub mod response;
pub mod storage;
