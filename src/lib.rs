//! Image tagging: preprocessing of images into model tensors, the tag registry that
//! gives meaning to a model's output positions, and the category-aware filtering and
//! ranking of probabilities into tag lists.
pub mod cli;
pub mod config;
pub mod error;
pub mod file;
pub mod pipeline;
pub mod processor;
pub mod score;
pub mod tagger;
pub mod tags;
