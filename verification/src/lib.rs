//! Production label printing: batch and running numbers, QR payloads and
//! images, ZPL label programs, and the counting rules of a production plan.
pub mod text;
pub mod db;
pub mod qr;
pub mod models;
pub mod zpl;
pub mod errors;
