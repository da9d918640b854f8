//! What the parts of the timer are for, said of their results: how the results
//! of several calls relate, and what each result must satisfy for every input.

pub mod capture;
pub mod program;
pub mod settings;
pub mod shortcuts;
pub mod storage;
pub mod timer;
pub mod transaction;
pub mod window;
