//! Decision logic of the ESP support crates, stated and proved apart from the
//! build environment and the hardware that it serves:
//!
//! * the compiler for logging filters: it reads a specification such as
//!   `info,driver=debug,driver::spi=off`, finds the bound on the severity of
//!   everything that can pass and the decision for each target, and writes
//!   both as a source fragment ([`parser`], [`specificity`], [`filter`],
//!   [`snippet`]);
//! * the clock gates of the ESP32-C6 radio peripherals ([`radio`]).

pub mod directive;
pub mod filter;
pub mod parser;
pub mod radio;
pub mod severity;
pub mod snippet;
pub mod specificity;
pub mod text;

pub use directive::{Directive, ParseResult};
pub use filter::{compile, compile_spec, CompiledFilter, FilterError};
pub use parser::{parse_entry, parse_spec, read_entries, Entry};
pub use radio::{
    ble_clock_enable, enable_phy, ieee802154_clock_enable, init_clocks, reset_mac,
    wifi_clock_enable, ModemClocks, RadioPeripherals,
};
pub use severity::Severity;
pub use snippet::{build_snippet, generate_filter_snippet, snippet};
pub use specificity::sort_by_specificity;
