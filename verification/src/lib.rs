//! A tagged-variant serialization model: declare record and tagged-union
//! shapes in an immutable model, construct values against those shapes, and
//! convert them to and from a self-describing wire representation.  Decoding
//! an encoded value always yields a value equal to the original; the
//! round-trip and the decoder's error behaviour are stated and proved in
//! `codec` and `laws`.

pub mod codec;
pub mod laws;
pub mod model;
pub mod shapes;
pub mod value;
pub mod wire;
