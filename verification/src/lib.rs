//! Verified core of SpecProbe: requirement analysis, secret redaction,
//! review assembly, remediation planning and regression verdicts.
pub mod ai;
pub mod apply;
pub mod browser;
pub mod browser_flow;
pub mod check;
pub mod chat;
pub mod config;
pub mod diagnosis;
pub mod doctor;
pub mod json;
pub mod markdown;
pub mod output;
pub mod patch;
pub mod paths;
pub mod playwright;
pub mod redact;
pub mod refine;
pub mod regression;
pub mod remediation;
pub mod report;
pub mod requirements;
pub mod review;
pub mod runtime;
pub mod scanner;
pub mod scenario;
pub mod storage;
pub mod text;
pub mod ui;
