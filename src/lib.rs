//! Integer-coefficient univariate polynomials with exact arithmetic, and the
//! decision logic of a modality classifier over sampled derivative signs.

pub mod laws;
pub mod modality;
pub mod model;
pub mod polynomial;
