//! Search limits requested by the UCI `go` command.

pub mod limits;
