//! Ranking of short text records by similarity to a query record.
//!
//! A record is a fixed set of text fields: a post has a title and a
//! content, an issue report has four optional fields. The score of a
//! candidate against a query blends, field by field, the normalized
//! Levenshtein similarity of the two texts, each field weighing as much as
//! its share of the query's characters. A search returns the candidates
//! that score above one half, best first, cut to the number asked for.
//!
//! Scores are fixed-point numbers: an integer `s` stands for the fraction
//! `s / SCORE_ONE`, and every division rounds down. Weights are fractions
//! with a common denominator. Nothing in the library is a floating-point
//! number, and every function is verified against a contract over
//! character sequences, integers and maps.
//!
//! A score is rounded down twice: each field's similarity is rounded to
//! the scale, and so is the weighted sum after its division. It never
//! exceeds the exact score and falls short of it by less than two units of
//! the scale. The threshold is tested on the rounded score. So nothing is
//! returned whose exact score is one half or less, and a candidate whose
//! exact score is above one half by less than two billionths may be left
//! out. That takes texts of a few hundred characters.
//!
//! The stores are plain owned values; sharing one between threads, and the
//! files and connections that records come from, are left to the caller.

pub mod clock;
pub mod distance;
pub mod error;
pub mod ext;
pub mod feature;
pub mod parallel;
pub mod post;
pub mod post_store;
pub mod ranking;
pub mod scorer;
pub mod search;
pub mod store;
pub mod weights;
