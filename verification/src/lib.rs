//! The command language, key routing, publish/subscribe and replication of a sharded in-memory
//! data server.
pub mod answers;
pub mod backlog;
pub mod build;
pub mod command;
pub mod delivery;
pub mod followers;
pub mod following;
pub mod glob;
pub mod hashing;
pub mod lists;
pub mod meaning;
pub mod merging;
pub mod numbers;
pub mod octets;
pub mod operands;
pub mod pools;
pub mod presence;
pub mod pubsub;
pub mod ranking;
pub mod readings;
pub mod redirects;
pub mod registries;
pub mod replication;
pub mod report;
pub mod resp;
pub mod roster;
pub mod router;
pub mod scatter;
pub mod search;
pub mod slots;
pub mod stores;
pub mod tables;
pub mod text;
pub mod tiering;
pub mod time;
pub mod txlocks;
pub mod wire;
pub mod worker;
pub mod writing;

