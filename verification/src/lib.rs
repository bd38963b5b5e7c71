pub mod api_response;
pub mod has_id;
pub mod linked_hashmap;
pub mod order;
pub mod trade;

mod fresh;
