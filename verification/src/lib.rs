use vstd::prelude::*;

pub mod rights;
pub mod strutil;
pub mod tags;
pub mod value;
pub mod element;
pub mod context;
pub mod nodes;
pub mod logger;
pub mod window;
pub mod inputs;
pub mod eval_spec;
pub mod evaluator;
pub mod read;
pub mod reader;
pub mod encoder;
pub mod apica;
pub mod laws;
pub mod codec_laws;

verus! {

/// Lifecycle phase of the runtime.
#[derive(Clone, Copy, PartialEq, Eq, Structural, Debug)]
pub enum ApicaMode {
    SpecialInit,
    SpecialQuit,
    Init,
    Update,
    Quit,
}

} // verus!
