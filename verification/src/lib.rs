//! The verified logic of an XTCE document editor: for each form, what it
//! shows for an element and the element its values give back, with the
//! laws that tie the two together.
pub mod algorithm;
pub mod argument;
pub mod alias;
pub mod ancillary;
pub mod boolean;
pub mod calibrator;
pub mod choice;
pub mod container;
pub mod context;
pub mod custom;
pub mod dimension;
pub mod document;
pub mod duplicate;
pub mod dynamic;
pub mod encoding;
pub mod errors;
pub mod enumeration;
pub mod fields;
pub mod header;
pub mod lookup;
pub mod math;
pub mod metadata;
pub mod members;
pub mod model;
pub mod number;
pub mod recent;
pub mod rpn;
pub mod significance;
pub mod stream;
pub mod text;
