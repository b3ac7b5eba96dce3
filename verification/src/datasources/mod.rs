//! What the library does for each kind of source: everything but the request
//! itself.

pub mod grpc_datasource;
pub mod mock_datasource;
pub mod open_food_facts;
pub mod rest_datasource;
