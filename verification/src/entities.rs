//! Entity rows, request shapes and the error taxonomy of the store.
//!
//! Entities are append-only: created once, never deleted, and only the two
//! aggregate counters (`Question::total_answer`, `Answer::total_amount_donate`)
//! are ever updated after creation.

use vstd::prelude::*;

verus! {

/// A stored question.
#[derive(Debug, PartialEq, Eq)]
pub struct Question {
    pub question_id: String,
    pub title: String,
    pub content: String,
    pub total_vote: i32,
    /// Number of answers recorded for this question; kept equal to the size
    /// of the question's answer index bucket at all times.
    pub total_answer: i32,
    pub created_time: i64,
    pub creator_id: String,
}

/// A stored answer to a question.
#[derive(Debug, PartialEq, Eq)]
pub struct Answer {
    pub answer_id: String,
    /// Refers to an existing `Question`.
    pub question_id: String,
    pub content: String,
    pub total_vote: i32,
    /// Sum of the amounts of all donations recorded for this answer.
    pub total_amount_donate: u64,
    pub created_time: i64,
    pub creator_id: String,
}

/// A stored donation attached to an answer.
#[derive(Debug, PartialEq, Eq)]
pub struct DonateInfo {
    pub donate_info_id: String,
    /// Refers to an existing `Answer`.
    pub answer_id: String,
    pub donate_creator_id: String,
    pub created_time: i64,
    pub amount: u64,
}

/// Request shape for creating a question.
#[derive(Debug)]
pub struct QuestionCreateDto {
    pub title: String,
    pub content: String,
}

/// Request shape for creating an answer.
#[derive(Debug)]
pub struct AnswerCreateDto {
    pub question_id: String,
    pub content: String,
}

/// Request shape for donating to an answer.
#[derive(Debug)]
pub struct DonationCreateDto {
    pub answer_id: String,
    pub amount: u64,
}

/// Why an operation was aborted.  Every failed operation leaves the store
/// exactly as it was: no partial writes are ever committed.
#[derive(Debug, PartialEq, Eq, Structural)]
pub enum StoreError {
    /// The referenced question does not exist.
    QuestionNotFound,
    /// The referenced answer does not exist.
    AnswerNotFound,
    /// An index bucket that the consistency invariants promise is missing:
    /// internal corruption, never a caller error.  Unreachable through the
    /// public operations, which preserve the invariants.
    InvariantViolation,
    /// A supposedly fresh id collided with an existing entry of the same
    /// table: an id-generation defect, fatal for the call.
    DuplicateId,
}

impl Clone for Question {
    fn clone(&self) -> (res: Self)
        ensures
            res == *self,
    {
        Question {
            question_id: self.question_id.clone(),
            title: self.title.clone(),
            content: self.content.clone(),
            total_vote: self.total_vote,
            total_answer: self.total_answer,
            created_time: self.created_time,
            creator_id: self.creator_id.clone(),
        }
    }
}

impl Clone for Answer {
    fn clone(&self) -> (res: Self)
        ensures
            res == *self,
    {
        Answer {
            answer_id: self.answer_id.clone(),
            question_id: self.question_id.clone(),
            content: self.content.clone(),
            total_vote: self.total_vote,
            total_amount_donate: self.total_amount_donate,
            created_time: self.created_time,
            creator_id: self.creator_id.clone(),
        }
    }
}

impl Clone for DonateInfo {
    fn clone(&self) -> (res: Self)
        ensures
            res == *self,
    {
        DonateInfo {
            donate_info_id: self.donate_info_id.clone(),
            answer_id: self.answer_id.clone(),
            donate_creator_id: self.donate_creator_id.clone(),
            created_time: self.created_time,
            amount: self.amount,
        }
    }
}

impl Clone for StoreError {
    fn clone(&self) -> (res: Self)
        ensures
            res == *self,
    {
        match self {
            StoreError::QuestionNotFound => StoreError::QuestionNotFound,
            StoreError::AnswerNotFound => StoreError::AnswerNotFound,
            StoreError::InvariantViolation => StoreError::InvariantViolation,
            StoreError::DuplicateId => StoreError::DuplicateId,
        }
    }
}

} // verus!
