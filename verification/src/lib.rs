//! Decision logic of a draggable, editable numeric input.
//!
//! Numeric values are carried as IEEE 754 binary64 bit patterns (`u64`), so
//! that every rule of the control (clamping under the total order, precision
//! inference, alternate-base text, the shared drag session and the per-frame
//! mode choice) is stated over integers and sequences and is machine-checked.
//! Arithmetic on the values themselves (the drag distance, the logarithm
//! behind the precision, decimal text) is left to the caller.

pub mod total_order;
pub mod integral;
pub mod precision;
pub mod radix;
pub mod session;
pub mod interaction;
pub mod widget;
