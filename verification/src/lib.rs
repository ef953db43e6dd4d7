//! Verified core of the "nut" content platform: media types, roles and
//! access policies, the admin locale form, the wiki page dispatch and the
//! error values that the web layer turns into responses.

pub mod text;

pub mod errors;
pub mod locales;
pub mod time;
pub mod wiki;
pub mod nut;
pub mod policy;
pub mod survey;
