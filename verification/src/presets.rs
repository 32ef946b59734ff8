pub mod full;
pub mod cn2t;
pub mod t2cn;
