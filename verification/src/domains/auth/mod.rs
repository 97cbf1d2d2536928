pub mod identifier;
pub mod jwt;
pub mod otp;
