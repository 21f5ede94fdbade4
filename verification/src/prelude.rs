//! Everything a user of the bridges needs, in one import.

pub use crate::par_iter_stream;
pub use crate::par_iter_stream::push;
pub use crate::par_iter_stream::to_par_iter_stream;
pub use crate::par_iter_stream::ParIterStream;
pub use crate::rayon_future;
pub use crate::rayon_future::deliver;
pub use crate::rayon_future::to_rayon_future;
pub use crate::rayon_future::RayonFuture;
pub use crate::rayon_future::ToFutureError;
pub use crate::stream;
pub use crate::stream::RayonMap;
