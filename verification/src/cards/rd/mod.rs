pub mod restrictions;
pub mod classification;
pub mod normalization;
pub mod card;
