use vstd::prelude::*;

pub mod hostname;
pub mod text;
pub mod net;
pub mod hostmap;
pub mod encoding;
pub mod exchange;
pub mod protocol;
pub mod verification;
pub mod sd;
pub mod storage;
pub mod application;
