//! Escape-time fractal renderer with histogram-based colouring and a
//! bitmap serializer, built on exact fixed-point arithmetic so that every
//! numeric step has a precise, machine-checkable meaning.

pub mod bitmap;
pub mod error;
pub mod fixed;
pub mod fractal;
pub mod mandelbrot;
pub mod rgb;
