pub mod bytes;
pub mod cli;
pub mod clock;
pub mod media;
pub mod model;
pub mod params;
pub mod paths;
pub mod scalar;
pub mod seqs;
pub mod studio;
pub mod text;
