use vstd::prelude::*;

verus! {

/// The uniform `{payload, message}` envelope that a transport layer
/// wraps responses in. The core is indifferent to how it is encoded;
/// it only fixes the shape.
pub struct ApiResponse<T> {
    pub payload: T,
    pub message: String,
}

} // verus!
