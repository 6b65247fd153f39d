pub mod configuration;
pub mod domain;
pub mod email_client;
pub mod forms;
pub mod routes;
