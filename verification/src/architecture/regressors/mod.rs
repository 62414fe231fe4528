//! Regressors library.

pub mod linreg;

pub use linreg::LinearRegressor;
