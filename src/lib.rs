pub mod cube;
pub mod tables;
pub mod edges;
pub mod corners;
pub mod cubie;
pub mod laws;
pub mod facelets;
pub mod validity;
pub mod step;
pub mod finish_config;
pub mod search;
pub mod coords;
pub mod pruning;
