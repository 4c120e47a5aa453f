//! What the server renders for the single-page app: the page template and
//! the metadata of each app route.

pub mod minihb;
pub mod spa;
pub mod meta_tags;
pub mod res;
