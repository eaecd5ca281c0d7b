pub mod bayes;
pub mod bayes_document;
pub mod bayes_records;
pub mod catalog;
pub mod catalog_dirs;
pub mod catalog_laws;
pub mod combination;
pub mod combination_laws;
pub mod config;
pub mod config_laws;
pub mod desync;
pub mod desync_laws;
pub mod dns;
pub mod dns_laws;
pub mod fault;
pub mod firewall;
pub mod firewall_laws;
pub mod graph;
pub mod isolation;
pub mod isolation_laws;
pub mod map;
pub mod nfqws;
pub mod number;
pub mod order;
pub mod order_laws;
pub mod ordering;
pub mod path;
pub mod payload_laws;
pub mod payload_registry;
pub mod probe;
pub mod probe_laws;
pub mod pruning;
pub mod queue;
pub mod registry_laws;
pub mod report;
pub mod report_laws;
pub mod scheduler;
pub mod scoring;
pub mod selection;
pub mod selection_laws;
pub mod settings;
pub mod settings_laws;
pub mod socket_mark;
pub mod target_laws;
pub mod text;
pub mod text_laws;
pub mod types;
pub mod worker;
pub mod worker_laws;
pub mod worker_pool;
pub mod yaml;
pub mod yaml_laws;
