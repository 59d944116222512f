pub mod scope_date;
pub mod sigv4;
