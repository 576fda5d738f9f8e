pub mod cli;
pub mod domain;
pub mod repository;
pub mod services;
pub mod utils;
pub mod web;
