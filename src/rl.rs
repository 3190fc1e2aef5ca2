pub mod policy;
pub mod trainer;
pub mod values;
