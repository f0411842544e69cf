//! Codec selection and the builder values handed to transport glue.
//!
//! A codec builder only records which serialization format a connection will
//! use; the byte plumbing that applies the format lives with the transport
//! glue outside the engine. Every format is layered over length-delimited
//! framing (see the `frame` module).

use core::marker::PhantomData;
use vstd::prelude::*;

verus! {

/// The serialization format framing a connection's values: one of the
/// supported self-delimiting encodings, applied to each frame's payload.
#[derive(Clone, Copy, Debug, PartialEq, Eq, Structural)]
pub enum Codec {
    Bincode,
    Json,
    MessagePack,
    Cbor,
}

/// Records that a connection's frames carry `Req` in and `Res` out, encoded
/// with the chosen format.
pub struct SerdeCodec<Req, Res> {
    codec: Codec,
    _phantom: PhantomData<(Req, Res)>,
}

impl<Req, Res> SerdeCodec<Req, Res> {
    /// The format this builder will apply.
    pub closed spec fn codec(self) -> Codec {
        self.codec
    }

    pub fn new(codec: Codec) -> (r: Self)
        ensures
            r.codec() == codec,
    {
        SerdeCodec { codec, _phantom: PhantomData }
    }

    /// The format, for the glue that builds the actual framed stream.
    pub fn kind(&self) -> (r: Codec)
        ensures
            r == self.codec(),
    {
        self.codec
    }
}

/// A codec builder made from a caller-supplied constructor value.
pub struct CodecBuilderFn<F> {
    f: F,
}

impl<F> CodecBuilderFn<F> {
    /// The constructor this builder wraps.
    pub closed spec fn constructor(self) -> F {
        self.f
    }

    /// Hands the wrapped constructor back to the glue that applies it.
    pub fn into_inner(self) -> (r: F)
        ensures
            r == self.constructor(),
    {
        self.f
    }
}

/// Wraps a caller-supplied constructor as a codec builder.
pub fn codec_builder_fn<F>(f: F) -> (r: CodecBuilderFn<F>)
    ensures
        r.constructor() == f,
{
    CodecBuilderFn { f }
}

/// The raw codec: frames are passed through as length-delimited byte
/// payloads with no further encoding.
pub struct LengthDelimitedCodec;

/// Records that a connection's transport carries `Req` in and `Res` out
/// through the serialization format chosen elsewhere.
pub struct CodecTransport<Req, Res> {
    _phantom: PhantomData<(Req, Res)>,
}

impl<Req, Res> CodecTransport<Req, Res> {
    pub fn new() -> Self {
        CodecTransport { _phantom: PhantomData }
    }
}

/// The raw transport marker: length-delimited byte payloads, no encoding.
pub struct LengthDelimitedTransport;

} // verus!
