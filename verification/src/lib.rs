//! Imputator: the bookkeeping behind recording work logs in Tempo.
pub mod imputation;
pub mod jira;
pub mod order;
pub mod run;
pub mod text;
pub mod worktime;
