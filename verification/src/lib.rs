//! Verified core of the SignAI sign-alphabet recognition toolkit: dataset
//! labelling and CSV layout, image preparation, model configuration choices,
//! one-vs-all class bookkeeping and the reshaping of flat sample buffers.

pub mod decimal;
pub mod labels;
pub mod text;
pub mod csv_layout;
pub mod imaging;
pub mod dataset;
pub mod models;
pub mod one_vs_all;
pub mod reshape;
