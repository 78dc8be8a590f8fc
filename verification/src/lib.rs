//! Decoding of labeled digit-image datasets: image and label value types, a
//! record stream over in-memory bytes, and the dataset loader that pairs the
//! two streams into training samples.

pub mod data;
pub mod io_ext;
pub mod training;
pub mod training_data;
