//! A verified data store for a question-and-answer platform with donations.
//!
//! The store owns four logical tables (questions, answers, donations and the
//! two secondary indices) and exposes transactional create/get/list
//! operations.  Every operation either applies all of its writes or none of
//! them, and the store's consistency invariants (`QAndANear::wf`) hold after
//! every completed call.
//!
//! Caller identity, the clock and fresh entity ids are external collaborators:
//! each operation takes them as plain arguments and trusts them as given.

pub mod entities;
pub mod store;
pub mod table;
pub mod timestamp;

pub use entities::{Answer, AnswerCreateDto, DonateInfo, DonationCreateDto};
pub use entities::{Question, QuestionCreateDto, StoreError};
pub use store::{IndexBucket, QAndANear};
pub use timestamp::day_truncated_millis;
