//! What a text component keeps between frames.

use vstd::prelude::*;

verus! {

/// The cache entry of a text component. Glyph metrics are looked up in the
/// atlas each time, so the entry holds nothing of its own.
pub struct TextCacheItem {}

} // verus!
