//! The four handlers, the checks they share and the calls they ask for.

pub mod add_liquidity;
pub mod cpi;
pub mod initializer;
pub mod swap;
pub mod utils;
pub mod validators;
pub mod withdraw;
