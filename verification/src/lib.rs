pub mod text;
pub mod json;
pub mod assoc;
pub mod diagnostics;
pub mod sql;
pub mod refdata;
pub mod clio;
pub mod git;
pub mod objectmove;
pub mod packages;
pub mod tools;
pub mod content;
pub mod jobs;
pub mod applications;
pub mod github;
pub mod workspaces;
pub mod cache;
pub mod transfer;
pub mod migration;
pub mod capture;
pub mod deploy;
pub mod wsjob;
