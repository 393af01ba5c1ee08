//! Raw block-device access: decoding of device metadata responses, naming
//! and scanning of physical drives and volumes, and the decisions of the
//! block-by-block image writer. The operating-system calls themselves are
//! made by the caller, which hands the results to these functions.
pub mod descriptor;
pub mod enumerate;
pub mod flash;
