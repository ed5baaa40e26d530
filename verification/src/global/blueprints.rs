//! The stamping contract, and the systems that expand blueprints.

use vstd::prelude::*;
use crate::global::assets::{MMAView, MMA};

verus! {

/// A bundle that can be stamped out of a blueprint. Stamping is a function
/// of the blueprint and of the asset cache alone; all it may change is the
/// cache, and all it may do to the cache is add to it.
pub trait FromBlueprint: Sized + View {
    /// The description that the bundle is stamped from.
    type Blueprint: View;

    /// The bundle that `blueprint` gives against `cache`.
    spec fn stamped(blueprint: <Self::Blueprint as View>::V, cache: MMAView) -> Self::V;

    /// The cache that stamping `blueprint` against `cache` leaves.
    spec fn cache_after(blueprint: <Self::Blueprint as View>::V, cache: MMAView) -> MMAView;

    /// Stamping only adds to the cache.
    proof fn lemma_cache_grows(blueprint: <Self::Blueprint as View>::V, cache: MMAView)
        ensures
            Self::cache_after(blueprint, cache).extends(cache),
    ;

    /// A bundle can be made anew from its blueprint at any time: stamped
    /// again against the cache that the first stamping left, the blueprint
    /// gives the same bundle and leaves the cache as it is.
    proof fn lemma_restamp(blueprint: <Self::Blueprint as View>::V, cache: MMAView)
        ensures
            Self::stamped(blueprint, Self::cache_after(blueprint, cache)) == Self::stamped(
                blueprint,
                cache,
            ),
            Self::cache_after(blueprint, Self::cache_after(blueprint, cache)) == Self::cache_after(
                blueprint,
                cache,
            ),
    ;

    /// Stamps the bundle that `blueprint` describes.
    fn stamp_from_blueprint(blueprint: &Self::Blueprint, mma: &mut MMA) -> (bundle: Self)
        ensures
            bundle@ == Self::stamped(blueprint@, old(mma)@),
            final(mma)@ == Self::cache_after(blueprint@, old(mma)@),
    ;
}

} // verus!
