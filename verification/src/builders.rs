//! The shape that every builder of the runtime shares.

use vstd::prelude::*;

verus! {

/// Something that can build a `T` out of what it has accumulated. What the
/// result holds is for each builder to say.
pub trait SemanticKernelBuilder<T> {
    fn build(&self) -> T;
}

} // verus!
