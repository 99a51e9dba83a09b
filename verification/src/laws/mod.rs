//! What the operations of the library are for, in terms of what goes in and what comes out.
pub mod calls;
pub mod commands;
pub mod confinement;
pub mod documents;
pub mod inputs;
pub mod installs;
pub mod market;
pub mod mounts;
pub mod proxy;
pub mod records;
pub mod runs;
pub mod settings;
pub mod slots;
pub mod texts;
