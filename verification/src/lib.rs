//! k-means clustering for multi-dimensional points, with verified contracts.
//!
//! The library groups a buffer of three-channel points into `k` clusters by
//! iterative refinement.  It offers two interchangeable engines (a naive
//! exhaustive-scan loop and a bounded, pruned variant), probability-weighted
//! centroid seeding, and post-processing that ranks clusters and maps
//! assignment indices back to centroid values.
//!
//! Points are three-channel fixed-point values: callers scale their domain
//! (for example a color space) into `0..=CHANNEL_MAX` integers, cluster,
//! and scale the centroids back.

pub mod err;
pub mod filename;
pub mod hamerly;
pub mod kmeans;
pub mod laws;
pub mod parse;
pub mod plus_plus;
pub mod point;
pub mod rng;
pub mod sort;

pub use err::CliError;
pub use filename::create_filename;
pub use filename::create_filename_palette;
pub use filename::generate_filename;
pub use filename::generate_filename_palette;
pub use filename::OutName;
pub use filename::OutPath;
pub use hamerly::get_kmeans_hamerly;
pub use hamerly::HamerlyCentroids;
pub use hamerly::HamerlyPoint;
pub use kmeans::get_kmeans;
pub use kmeans::Kmeans;
pub use parse::parse_color;
pub use parse::Rgb8;
pub use plus_plus::init_plus_plus;
pub use point::Point;
pub use point::BUFFER_MAX;
pub use point::CHANNEL_MAX;
pub use rng::SeedRng;
pub use sort::CentroidData;
pub use sort::Fraction;
pub use sort::MapColor;
