//! Classifiers library.

pub mod image;

pub use image::ImageClassifier;
